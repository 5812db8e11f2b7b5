use std::str::FromStr;

use indi_rs::property::timestamp::{generate, validate};
use indi_rs::property::{Property, PropertyPerm, PropertyState, PropertyValue, SwitchRule, SwitchState};
use indi_rs::PROTOCOL_VERSION;

#[test]
fn test_protocol_version() {
    assert_eq!(PROTOCOL_VERSION, "1.7");
}

#[test]
fn test_property_creation() {
    let prop = Property::new(
        "test_device".to_string(),
        "test_prop".to_string(),
        PropertyValue::Text("test".to_string()),
        PropertyState::OK,
        PropertyPerm::Rw,
        generate(),
    )
    .with_label("Test Property".to_string())
    .with_group("Main".to_string())
    .with_timeout(1000);

    assert_eq!(prop.device, "test_device");
    assert_eq!(prop.name, "test_prop");
    assert_eq!(prop.label.unwrap(), "Test Property");
    assert_eq!(prop.group.unwrap(), "Main");
    assert_eq!(prop.state, PropertyState::OK);
    assert_eq!(prop.perm, PropertyPerm::Rw);
    assert_eq!(prop.timeout.unwrap(), 1000);
    assert!(matches!(prop.value, PropertyValue::Text(_)));
}

#[test]
fn property_test_property_permissions() {
    let ro_prop = Property::new(
        "test".to_string(),
        "test".to_string(),
        PropertyValue::Text("test".to_string()),
        PropertyState::OK,
        PropertyPerm::Ro,
        generate(),
    );
    assert!(ro_prop.is_readable());
    assert!(!ro_prop.is_writable());

    let wo_prop = Property::new(
        "test".to_string(),
        "test".to_string(),
        PropertyValue::Text("test".to_string()),
        PropertyState::OK,
        PropertyPerm::Wo,
        generate(),
    );
    assert!(!wo_prop.is_readable());
    assert!(wo_prop.is_writable());

    let rw_prop = Property::new(
        "test".to_string(),
        "test".to_string(),
        PropertyValue::Text("test".to_string()),
        PropertyState::OK,
        PropertyPerm::Rw,
        generate(),
    );
    assert!(rw_prop.is_readable());
    assert!(rw_prop.is_writable());
}

#[test]
fn property_test_property_states() {
    assert_eq!("Idle".parse::<PropertyState>().unwrap(), PropertyState::Idle);
    assert_eq!("Ok".parse::<PropertyState>().unwrap(), PropertyState::OK);
    assert_eq!("Busy".parse::<PropertyState>().unwrap(), PropertyState::Busy);
    assert_eq!("Alert".parse::<PropertyState>().unwrap(), PropertyState::Alert);
    assert!("Invalid".parse::<PropertyState>().is_err());
}

#[test]
fn test_switch_state() {
    assert_eq!(SwitchState::from_str("On").unwrap(), SwitchState::On);
    assert_eq!(SwitchState::from_str("Off").unwrap(), SwitchState::Off);
    assert!(SwitchState::from_str("Invalid").is_err());

    assert_eq!(SwitchState::On.to_string(), "On");
    assert_eq!(SwitchState::Off.to_string(), "Off");
}

#[test]
fn perm_test_property_permissions() {
    assert_eq!(PropertyPerm::from_str("ro").unwrap(), PropertyPerm::Ro);
    assert_eq!(PropertyPerm::from_str("wo").unwrap(), PropertyPerm::Wo);
    assert_eq!(PropertyPerm::from_str("rw").unwrap(), PropertyPerm::Rw);
    assert!(PropertyPerm::from_str("invalid").is_err());

    assert_eq!(PropertyPerm::Ro.to_string(), "ro");
    assert_eq!(PropertyPerm::Wo.to_string(), "wo");
    assert_eq!(PropertyPerm::Rw.to_string(), "rw");
}

#[test]
fn state_test_property_states() {
    assert_eq!("Idle".parse::<PropertyState>().unwrap(), PropertyState::Idle);
    assert_eq!("Ok".parse::<PropertyState>().unwrap(), PropertyState::OK);
    assert_eq!("Busy".parse::<PropertyState>().unwrap(), PropertyState::Busy);
    assert_eq!("Alert".parse::<PropertyState>().unwrap(), PropertyState::Alert);
    assert!("Invalid".parse::<PropertyState>().is_err());

    assert_eq!(PropertyState::Idle.to_string(), "Idle");
    assert_eq!(PropertyState::OK.to_string(), "Ok");
    assert_eq!(PropertyState::Busy.to_string(), "Busy");
    assert_eq!(PropertyState::Alert.to_string(), "Alert");
}

#[test]
fn test_property_value_display() {
    let text = PropertyValue::Text("test".to_string());
    let num = PropertyValue::Number("42".to_string(), None);
    let num_fmt = PropertyValue::Number("42".to_string(), Some("m/s".to_string()));
    let switch_on = PropertyValue::Switch(SwitchState::On);
    let switch_off = PropertyValue::Switch(SwitchState::Off);
    let light = PropertyValue::Light(PropertyState::OK);
    let blob = PropertyValue::Blob(vec![0; 100]);
    let switch_vector = PropertyValue::SwitchVector(vec![
        ("switch1".to_string(), SwitchState::On),
        ("switch2".to_string(), SwitchState::Off),
    ]);
    let text_vector = PropertyValue::TextVector(vec![
        ("text1".to_string(), "text1".to_string()),
        ("text2".to_string(), "text2".to_string()),
    ]);
    let number_vector = PropertyValue::NumberVector(vec![
        ("number1".to_string(), "42".to_string()),
        ("number2".to_string(), "24".to_string()),
    ]);

    assert_eq!(text.to_string(), "test");
    assert_eq!(num.to_string(), "42");
    assert_eq!(num_fmt.to_string(), "42 m/s");
    assert_eq!(switch_on.to_string(), "On");
    assert_eq!(switch_off.to_string(), "Off");
    assert_eq!(light.to_string(), "Ok");
    assert_eq!(blob.to_string(), "[BLOB]");
    assert_eq!(switch_vector.to_string(), "switch1=On,switch2=Off");
    assert_eq!(text_vector.to_string(), "text1=text1,text2=text2");
    assert_eq!(number_vector.to_string(), "number1=42,number2=24");
}

#[test]
fn vector_values_are_shown_sorted_by_name() {
    let v = PropertyValue::SwitchVector(vec![
        ("b".to_string(), SwitchState::Off),
        ("a".to_string(), SwitchState::On),
        ("c".to_string(), SwitchState::On),
    ]);
    assert_eq!(v.to_string(), "a=On,b=Off,c=On");
    let t = PropertyValue::TextVector(vec![]);
    assert_eq!(t.to_string(), "");
    let n = PropertyValue::NumberVector(vec![("z".to_string(), "1.5".to_string()), ("Z".to_string(), "2".to_string())]);
    assert_eq!(n.to_string(), "Z=2,z=1.5");
}

#[test]
fn default_value_is_empty_text() {
    assert_eq!(PropertyValue::default(), PropertyValue::Text(String::new()));
}

#[test]
fn parse_errors_carry_the_input() {
    match PropertyPerm::from_str("xx") {
        Err(indi_rs::error::Error::Property(m)) => assert_eq!(m, "Invalid property permission: xx"),
        _ => panic!("expected a property error"),
    }
    match PropertyState::from_str("Done") {
        Err(indi_rs::error::Error::Property(m)) => assert_eq!(m, "Invalid property state: Done"),
        _ => panic!("expected a property error"),
    }
    match SwitchState::from_str("on") {
        Err(indi_rs::error::Error::InvalidSwitchState(m)) => assert_eq!(m, "on"),
        _ => panic!("expected an invalid switch state"),
    }
}

#[test]
fn texts_round_trip() {
    for p in [PropertyPerm::Ro, PropertyPerm::Wo, PropertyPerm::Rw] {
        assert_eq!(PropertyPerm::from_str(&p.to_string()).unwrap(), p);
    }
    for s in [PropertyState::Idle, PropertyState::OK, PropertyState::Busy, PropertyState::Alert] {
        assert_eq!(PropertyState::from_str(&s.to_string()).unwrap(), s);
    }
    for s in [SwitchState::On, SwitchState::Off] {
        assert_eq!(SwitchState::from_str(&s.to_string()).unwrap(), s);
    }
    assert_eq!(SwitchRule::OneOfMany.to_string(), "OneOfMany");
    assert_eq!(SwitchRule::AtMostOne.to_string(), "AtMostOne");
    assert_eq!(SwitchRule::AnyOfMany.to_string(), "AnyOfMany");
    assert_eq!(SwitchState::from_bool(true), SwitchState::On);
    assert_eq!(SwitchState::from_bool(false), SwitchState::Off);
}

#[test]
fn element_constructors() {
    let e = Property::new_with_value(
        "dev".to_string(),
        "parent".to_string(),
        "child".to_string(),
        PropertyValue::Switch(SwitchState::On),
        PropertyState::Busy,
        PropertyPerm::Wo,
        "t".to_string(),
    );
    assert_eq!(e.name, "child");
    assert_eq!(e.device, "dev");
    let holder = Property::new_with_elements(
        "dev".to_string(),
        "parent".to_string(),
        vec![e],
        PropertyState::Idle,
        PropertyPerm::Ro,
        "t".to_string(),
    );
    assert_eq!(holder.name, "");
    assert_eq!(holder.value, PropertyValue::Text(String::new()));
    assert_eq!(holder.elements.as_ref().unwrap().len(), 1);
    let copy = holder.clone();
    assert_eq!(copy.elements.unwrap()[0].name, "child");
}

#[test]
fn timestamps_are_validated() {
    assert!(validate(&generate()).is_ok());
    assert!(validate("2024-02-21T19:30:00Z").is_ok());
    assert!(validate("2024-02-21 19:30").is_err());
    match validate("nonsense") {
        Err(indi_rs::error::Error::ParseError(m)) => assert!(!m.is_empty()),
        _ => panic!("expected a parse error"),
    }
}

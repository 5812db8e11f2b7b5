use std::str::FromStr;

use indi_rs::error::Error;
use indi_rs::message::blob::define::DefBLOB;
use indi_rs::message::blob::enable::{BLOBEnable, EnableBlob};
use indi_rs::message::blob::new::NewBLOBVector;
use indi_rs::message::blob::one::OneBLOB;
use indi_rs::message::blob::set::SetBLOBVector;
use indi_rs::message::common::basic::{DelProperty, GetProperties};
use indi_rs::message::common::message::Message as DeviceMessage;
use indi_rs::message::light::define::{DefLight, DefLightVector};
use indi_rs::message::switch::define::{validate_rule, validate_switches, DefSwitch};
use indi_rs::message::switch::new::NewSwitchVector;
use indi_rs::message::switch::one::OneSwitch;
use indi_rs::message::text::define::DefText;
use indi_rs::message::text::new::NewTextVector;
use indi_rs::message::text::one::OneText;
use indi_rs::message::{DefSwitchVector, Message, OneSwitch as SwitchElement};
use indi_rs::property::{PropertyState, SwitchRule, SwitchState};
use indi_rs::timestamp::INDITimestamp;

#[test]
fn test_blob_enable_serialization() {
    let enable = EnableBlob {
        device: "test_device".to_string(),
        name: "test_name".to_string(),
        enable: BLOBEnable::Also,
    };

    assert_eq!(enable.device, "test_device");
    assert_eq!(enable.name, "test_name");
    assert_eq!(enable.enable, BLOBEnable::Also);
}

#[test]
fn test_one_blob() {
    let blob = OneBLOB {
        name: "test_blob".to_string(),
        size: 100,
        format: ".fits".to_string(),
        data: "base64encodeddata".to_string(),
    };

    assert_eq!(blob.name, "test_blob");
    assert_eq!(blob.size, 100);
    assert_eq!(blob.format, ".fits");
    assert_eq!(blob.data, "base64encodeddata");
}

#[test]
fn test_blob_encoding_decoding() {
    let test_data = vec![1, 2, 3, 4, 5];
    let blob = OneBLOB::new("test_blob".to_string(), ".fits".to_string(), test_data.clone());

    assert_eq!(blob.size, test_data.len());
    assert_eq!(blob.get_data().unwrap(), test_data);
}

#[test]
fn blob_data_is_standard_base64() {
    let blob = OneBLOB::new("b".to_string(), ".z".to_string(), b"Man".to_vec());
    assert_eq!(blob.data, "TWFu");
    let blob = OneBLOB::new("b".to_string(), ".z".to_string(), b"Ma".to_vec());
    assert_eq!(blob.data, "TWE=");
    let blob = OneBLOB::new("b".to_string(), ".z".to_string(), b"M".to_vec());
    assert_eq!(blob.data, "TQ==");
    let blob = OneBLOB::new("b".to_string(), ".z".to_string(), vec![]);
    assert_eq!(blob.data, "");
    assert_eq!(blob.size, 0);
    assert_eq!(blob.get_data().unwrap(), Vec::<u8>::new());
}

#[test]
fn blob_data_that_is_not_base64_is_refused() {
    let blob = OneBLOB {
        name: "b".to_string(),
        size: 1,
        format: ".fits".to_string(),
        data: "not base64!".to_string(),
    };
    assert!(blob.get_data().is_err());
}

#[test]
fn test_new_blob_vector() {
    let test_timestamp = "2024-01-01T00:00:00".parse().unwrap();
    let blob = OneBLOB {
        name: "test_blob".to_string(),
        size: 100,
        format: ".fits".to_string(),
        data: "base64encodeddata".to_string(),
    };

    let blob_vector = NewBLOBVector {
        device: "test_device".to_string(),
        name: "test_name".to_string(),
        timestamp: Some(test_timestamp),
        blobs: vec![blob],
    };

    assert_eq!(blob_vector.device, "test_device");
    assert_eq!(blob_vector.name, "test_name");
    assert_eq!(blob_vector.timestamp.unwrap().to_string(), "2024-01-01T00:00:00");
    assert_eq!(blob_vector.blobs.len(), 1);

    let blob = &blob_vector.blobs[0];
    assert_eq!(blob.name, "test_blob");
    assert_eq!(blob.size, 100);
    assert_eq!(blob.format, ".fits");
    assert_eq!(blob.data, "base64encodeddata");
}

#[test]
fn test_set_blob_vector() {
    let test_timestamp = "2024-01-01T00:00:00".parse().unwrap();
    let blob = OneBLOB {
        name: "test_blob".to_string(),
        size: 100,
        format: ".fits".to_string(),
        data: "base64encodeddata".to_string(),
    };

    let blob_vector = SetBLOBVector {
        device: "test_device".to_string(),
        name: "test_name".to_string(),
        state: PropertyState::OK,
        timestamp: Some(test_timestamp),
        message: Some("test_message".to_string()),
        blobs: vec![blob],
    };

    assert_eq!(blob_vector.device, "test_device");
    assert_eq!(blob_vector.name, "test_name");
    assert_eq!(blob_vector.state, PropertyState::OK);
    assert_eq!(blob_vector.timestamp.unwrap().to_string(), "2024-01-01T00:00:00");
    assert_eq!(blob_vector.message, Some("test_message".to_string()));
    assert_eq!(blob_vector.blobs.len(), 1);

    let blob = &blob_vector.blobs[0];
    assert_eq!(blob.name, "test_blob");
    assert_eq!(blob.size, 100);
    assert_eq!(blob.format, ".fits");
    assert_eq!(blob.data, "base64encodeddata");
}

#[test]
fn test_get_properties_optional_fields() {
    let props = GetProperties { device: None, name: None };

    assert!(props.device.is_none());
    assert!(props.name.is_none());

    let props_with_device = GetProperties { device: Some("test_device".to_string()), name: None };

    assert_eq!(props_with_device.device, Some("test_device".to_string()));
    assert!(props_with_device.name.is_none());
}

#[test]
fn test_del_property() {
    let del = DelProperty {
        device: "test_device".to_string(),
        name: None,
        timestamp: None,
        message: None,
    };

    assert_eq!(del.device, "test_device");
    assert!(del.name.is_none());
    assert!(del.timestamp.is_none());
    assert!(del.message.is_none());

    let timestamp = INDITimestamp::from_str("2024-01-01T12:34:56.7").unwrap();
    let del_with_name = DelProperty {
        device: "test_device".to_string(),
        name: Some("test_property".to_string()),
        timestamp: Some(timestamp.clone()),
        message: Some("Property removed".to_string()),
    };

    assert_eq!(del_with_name.device, "test_device");
    assert_eq!(del_with_name.name.unwrap(), "test_property");
    assert_eq!(del_with_name.timestamp.unwrap(), timestamp);
    assert_eq!(del_with_name.message.unwrap(), "Property removed");
}

#[test]
fn test_def_switch() {
    let switch = DefSwitch {
        name: "test_switch".to_string(),
        label: Some("Test Switch".to_string()),
        value: SwitchState::Off,
    };

    assert_eq!(switch.name, "test_switch");
    assert_eq!(switch.label.unwrap(), "Test Switch");
    assert_eq!(switch.value, SwitchState::Off);
}

#[test]
fn test_one_switch() {
    let switch = OneSwitch { name: "test_switch".to_string(), value: SwitchState::On };

    assert_eq!(switch.name, "test_switch");
    assert_eq!(switch.value, SwitchState::On);
}

#[test]
fn test_def_text() {
    let text = DefText {
        name: "test_text".to_string(),
        label: Some("Test Text".to_string()),
        value: "test value".to_string(),
    };

    assert_eq!(text.name, "test_text");
    assert_eq!(text.label.unwrap(), "Test Text");
    assert_eq!(text.value, "test value");
}

#[test]
fn test_one_text() {
    let text = OneText { name: "text1".to_string(), value: "test value".to_string() };

    assert_eq!(text.name, "text1");
    assert_eq!(text.value, "test value");
}

#[test]
fn test_new_switch_vector() {
    let timestamp = INDITimestamp::from_str("2024-01-01T12:34:56.7").unwrap();
    let vector = NewSwitchVector {
        device: "test_device".to_string(),
        name: "test_name".to_string(),
        timestamp: Some(timestamp.clone()),
        switches: vec![OneSwitch { name: "switch1".to_string(), value: SwitchState::On }],
    };

    assert_eq!(vector.device, "test_device");
    assert_eq!(vector.name, "test_name");
    assert_eq!(vector.timestamp.unwrap().to_string(), "2024-01-01T12:34:56.7");
    assert_eq!(vector.switches.len(), 1);
    assert_eq!(vector.switches[0].name, "switch1");
    assert_eq!(vector.switches[0].value, SwitchState::On);
}

#[test]
fn test_new_text_vector() {
    let vector = NewTextVector {
        device: "test_device".to_string(),
        name: "test_name".to_string(),
        timestamp: None,
        texts: vec![OneText { name: "text1".to_string(), value: "value1".to_string() }],
    };

    assert_eq!(vector.device, "test_device");
    assert_eq!(vector.name, "test_name");
    assert!(vector.timestamp.is_none());
    assert_eq!(vector.texts.len(), 1);
    assert_eq!(&vector.texts[0].name, "text1");
    assert_eq!(&vector.texts[0].value, "value1");
}

#[test]
fn test_new_text_vector_with_timestamp() {
    let timestamp = INDITimestamp::from_str("2024-01-01T12:34:56.7").unwrap();
    let vector = NewTextVector {
        device: "test_device".to_string(),
        name: "test_name".to_string(),
        timestamp: Some(timestamp.clone()),
        texts: vec![OneText { name: "text1".to_string(), value: "value1".to_string() }],
    };

    assert_eq!(vector.device, "test_device");
    assert_eq!(vector.name, "test_name");
    assert_eq!(vector.timestamp.unwrap().to_string(), "2024-01-01T12:34:56.7");
    assert_eq!(vector.texts.len(), 1);
    assert_eq!(&vector.texts[0].name, "text1");
    assert_eq!(&vector.texts[0].value, "value1");
}

#[test]
fn test_light_vector_optional_fields() {
    let vector = DefLightVector {
        device: "test_device".to_string(),
        name: "test_name".to_string(),
        label: None,
        group: None,
        state: PropertyState::Idle,
        timestamp: None,
        message: None,
        lights: vec![],
    };

    assert!(vector.label.is_none());
    assert!(vector.group.is_none());
    assert!(vector.timestamp.is_none());
    assert!(vector.message.is_none());
}

#[test]
fn light_and_blob_definitions_hold_their_fields() {
    let light = DefLight { name: "RAIN".to_string(), label: Some("Rain".to_string()), state: PropertyState::Alert };
    assert_eq!(light.state, PropertyState::Alert);
    let blob = DefBLOB { name: "CCD1".to_string(), label: None };
    assert_eq!(blob.name, "CCD1");
}

fn def_switch(name: &str, value: SwitchState) -> DefSwitch {
    DefSwitch { name: name.to_string(), label: Some(name.to_string()), value }
}

#[test]
fn test_switch_vector_validation() {
    let mut switches = vec![def_switch("switch1", SwitchState::On), def_switch("switch2", SwitchState::Off)];
    assert!(validate_switches(SwitchRule::OneOfMany, &switches).is_ok());
    switches[1].value = SwitchState::On;
    match validate_switches(SwitchRule::OneOfMany, &switches) {
        Err(Error::InvalidSwitchState(m)) => assert_eq!(m, "OneOfMany rule violated: more than one switch is ON"),
        _ => panic!("expected a rule violation"),
    }
    match validate_switches(SwitchRule::AtMostOne, &switches) {
        Err(Error::InvalidSwitchState(m)) => assert_eq!(m, "AtMostOne rule violated: more than one switch is ON"),
        _ => panic!("expected a rule violation"),
    }
    switches[0].value = SwitchState::Off;
    assert!(validate_switches(SwitchRule::AtMostOne, &switches).is_ok());
    switches[0].value = SwitchState::On;
    assert!(validate_switches(SwitchRule::AnyOfMany, &switches).is_ok());
    match validate_rule(SwitchRule::OneOfMany, &[SwitchState::Off, SwitchState::Off]) {
        Err(Error::InvalidSwitchState(m)) => assert_eq!(m, "OneOfMany rule violated: no switch is ON"),
        _ => panic!("expected a rule violation"),
    }
    assert!(validate_rule(SwitchRule::AtMostOne, &[SwitchState::Off, SwitchState::Off]).is_ok());
}

fn element(name: &str, value: &str) -> SwitchElement {
    SwitchElement { name: name.to_string(), label: name.to_string(), value: value.to_string() }
}

fn switch_vector(rule: SwitchRule, switches: Vec<SwitchElement>) -> DefSwitchVector {
    DefSwitchVector {
        device: "Telescope Simulator".to_string(),
        name: "CONNECTION".to_string(),
        label: "Connection".to_string(),
        group: "Main Control".to_string(),
        state: PropertyState::Idle,
        perm: "rw".to_string(),
        rule,
        timeout: 60,
        timestamp: "2025-02-14T00:42:55".to_string(),
        switches,
    }
}

#[test]
fn switch_vector_validation_counts_on_switches() {
    let ok = switch_vector(SwitchRule::OneOfMany, vec![element("CONNECT", "Off"), element("DISCONNECT", "On")]);
    assert!(ok.validate().is_ok());
    let none = switch_vector(SwitchRule::OneOfMany, vec![element("CONNECT", "Off"), element("DISCONNECT", "Off")]);
    match none.validate() {
        Err(Error::Property(m)) => assert_eq!(m, "OneOfMany rule requires exactly one switch to be On, found 0"),
        _ => panic!("expected a rule violation"),
    }
    let two = switch_vector(SwitchRule::AtMostOne, vec![element("A", "On"), element("B", "On"), element("C", "On")]);
    match two.validate() {
        Err(Error::Property(m)) => assert_eq!(m, "AtMostOne rule allows at most one switch to be On, found 3"),
        _ => panic!("expected a rule violation"),
    }
    let padded = switch_vector(SwitchRule::AtMostOne, vec![element("A", " On ")]);
    assert!(padded.validate().is_ok());
    let any = switch_vector(SwitchRule::AnyOfMany, vec![element("A", "On"), element("B", "On")]);
    assert!(any.validate().is_ok());
}

#[test]
fn get_properties_message_holds_its_fields() {
    match Message::get_properties("1.7".to_string(), Some("CCD Simulator".to_string()), None) {
        Message::GetProperties { version, device, name } => {
            assert_eq!(version, "1.7");
            assert_eq!(device.as_deref(), Some("CCD Simulator"));
            assert!(name.is_none());
        }
        _ => panic!("expected GetProperties"),
    }
}

#[test]
fn device_messages() {
    let m = DeviceMessage::new("hello".to_string());
    assert!(m.device.is_none());
    assert_eq!(m.message.as_deref(), Some("hello"));
    let ts = INDITimestamp::from_str("2024-01-01T00:00:00").unwrap();
    let m = DeviceMessage::new_for_device("CCD".to_string(), "ready".to_string()).with_timestamp(ts.clone());
    assert_eq!(m.device.as_deref(), Some("CCD"));
    assert_eq!(m.timestamp, Some(ts));
}

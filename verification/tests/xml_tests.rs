use indi_rs::property::{PropertyPerm, PropertyState, PropertyValue, SwitchState};
use indi_rs::xml::{parse_attribute, parse_element_content, parse_element_content_with_attr, parse_property};

#[test]
fn attributes_are_read_up_to_the_closing_quote() {
    let xml = r#"<defSwitchVector device="CCD Simulator" name="CONNECTION" state="Ok">"#;
    assert_eq!(parse_attribute(xml, "device").as_deref(), Some("CCD Simulator"));
    assert_eq!(parse_attribute(xml, "name").as_deref(), Some("CONNECTION"));
    assert_eq!(parse_attribute(xml, "perm"), None);
    assert_eq!(parse_attribute(r#"<a b="unterminated>"#, "b"), None);
    assert_eq!(parse_attribute(r#"<a b="">"#, "b").as_deref(), Some(""));
}

#[test]
fn element_content_is_trimmed() {
    assert_eq!(parse_element_content("<oneText>  hello </oneText>", "oneText").as_deref(), Some("hello"));
    assert_eq!(parse_element_content("<oneText>rest of text", "oneText").as_deref(), Some("rest of text"));
    assert_eq!(parse_element_content("<other>x</other>", "oneText"), None);
    let xml = r#"<oneSwitch name="DISCONNECT">Off</oneSwitch><oneSwitch name="CONNECT"> On </oneSwitch>"#;
    assert_eq!(parse_element_content_with_attr(xml, "oneSwitch", "name", "CONNECT").as_deref(), Some("On"));
    assert_eq!(parse_element_content_with_attr(xml, "oneSwitch", "name", "PARK"), None);
}

#[test]
fn properties_from_xml() {
    let xml = r#"<newTextVector device="Mount" name="SITE" state="Busy" perm="ro"><oneText>Paris</oneText></newTextVector>"#;
    let p = parse_property(xml).unwrap();
    assert_eq!(p.device, "Mount");
    assert_eq!(p.name, "SITE");
    assert_eq!(p.state, PropertyState::Busy);
    assert_eq!(p.perm, PropertyPerm::Ro);
    assert_eq!(p.value, PropertyValue::Text("Paris".to_string()));

    let xml = r#"<newSwitchVector device="CCD" name="CONNECTION"><oneSwitch name="DISCONNECT">On</oneSwitch><oneSwitch name="CONNECT">Off</oneSwitch></newSwitchVector>"#;
    let p = parse_property(xml).unwrap();
    assert_eq!(p.value, PropertyValue::Switch(SwitchState::Off));
    assert_eq!(p.state, PropertyState::Idle);
    assert_eq!(p.perm, PropertyPerm::Rw);

    let xml = r#"<newNumberVector device="CCD" name="EXPOSURE"><oneNumber> 1.5 </oneNumber></newNumberVector>"#;
    let p = parse_property(xml).unwrap();
    assert!(matches!(p.value, PropertyValue::Number(ref n, None) if n == "1.5"));

    let xml = r#"<newNumberVector device="CCD" name="EXPOSURE"><oneNumber>abc</oneNumber></newNumberVector>"#;
    assert!(parse_property(xml).is_none());

    let xml = r#"<setLightVector device="W" name="STATUS" state="Bogus"><oneLight>Alert</oneLight></setLightVector>"#;
    let p = parse_property(xml).unwrap();
    assert_eq!(p.value, PropertyValue::Light(PropertyState::Alert));
    assert_eq!(p.state, PropertyState::Idle);

    assert!(parse_property(r#"<x name="n"/>"#).is_none());
    let p = parse_property(r#"<x device="d" name="n"/>"#).unwrap();
    assert_eq!(p.value, PropertyValue::Text(String::new()));
}

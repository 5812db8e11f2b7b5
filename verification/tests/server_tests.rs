use indi_rs::error::Error;
use indi_rs::property::{Property, PropertyPerm, PropertyState, PropertyValue, SwitchState};
use indi_rs::server::reader::{xml_attribute, xml_content};
use indi_rs::server::{ElementContents, ServerState, DEFAULT_PORT};

fn prop(device: &str, name: &str) -> Property {
    Property::new(
        device.to_string(),
        name.to_string(),
        PropertyValue::Text("initial".to_string()),
        PropertyState::Idle,
        PropertyPerm::Rw,
        "t".to_string(),
    )
}

fn contents(text: Option<&str>, number: Option<&str>, switch: Option<&str>, light: Option<&str>) -> ElementContents {
    ElementContents {
        text: text.map(|s| s.to_string()),
        number: number.map(|s| s.to_string()),
        switch: switch.map(|s| s.to_string()),
        light: light.map(|s| s.to_string()),
    }
}

#[test]
fn default_port() {
    assert_eq!(DEFAULT_PORT, 7624);
}

#[test]
fn new_properties_are_stored_and_listed() {
    let mut state = ServerState::default();
    state.handle_new_property(prop("CCD", "A")).unwrap();
    state.handle_new_property(prop("CCD", "B")).unwrap();
    state.handle_new_property(prop("Mount", "C")).unwrap();
    assert_eq!(state.handle_get_properties("<getProperties version=\"1.7\"/>").len(), 3);
    assert_eq!(state.handle_get_properties("<getProperties version=\"1.7\" device=\"*\"/>").len(), 3);
    let ccd = state.handle_get_properties("<getProperties version=\"1.7\" device=\"CCD\"/>");
    let mut names: Vec<&str> = ccd.iter().map(|p| p.name.as_str()).collect();
    names.sort();
    assert_eq!(names, vec!["A", "B"]);
    assert!(state.handle_get_properties("<getProperties device='None'/>").is_empty());
}

#[test]
fn set_property_requests() {
    let mut state = ServerState::default();
    state.handle_new_property(prop("CCD", "A")).unwrap();

    match state.set_property_value(None, Some("A".to_string()), contents(Some("x"), None, None, None)) {
        Err(Error::ParseError(m)) => assert_eq!(m, "Missing device attribute"),
        _ => panic!("expected a parse error"),
    }
    match state.set_property_value(Some("CCD".to_string()), None, contents(Some("x"), None, None, None)) {
        Err(Error::ParseError(m)) => assert_eq!(m, "Missing name attribute"),
        _ => panic!("expected a parse error"),
    }
    assert!(state.set_property_value(Some("CCD".to_string()), Some("Z".to_string()), contents(None, None, None, None)).is_ok());
    match state.set_property_value(Some("CCD".to_string()), Some("A".to_string()), contents(None, Some("abc"), None, Some("Nope"))) {
        Err(Error::ParseError(m)) => assert_eq!(m, "Missing property value"),
        _ => panic!("expected a parse error"),
    }

    let set = |state: &mut ServerState, c: ElementContents| {
        state.set_property_value(Some("CCD".to_string()), Some("A".to_string()), c).unwrap();
        state.handle_get_properties("<getProperties device=\"CCD\"/>")[0].value.clone()
    };
    assert_eq!(set(&mut state, contents(Some("t"), Some("1"), None, None)), PropertyValue::Text("t".to_string()));
    assert_eq!(set(&mut state, contents(None, Some("1.5"), Some("On"), None)), PropertyValue::Number("1.5".to_string(), None));
    assert_eq!(set(&mut state, contents(None, Some("x"), Some("On"), None)), PropertyValue::Switch(SwitchState::On));
    assert_eq!(set(&mut state, contents(None, None, Some("on"), None)), PropertyValue::Switch(SwitchState::Off));
    assert_eq!(set(&mut state, contents(None, None, None, Some("Busy"))), PropertyValue::Light(PropertyState::Busy));
}

#[test]
fn set_property_requests_in_xml() {
    let mut state = ServerState::default();
    state.handle_new_property(prop("CCD", "A")).unwrap();
    let xml = r#"<setProperty device="CCD" name="A"><oneNumber> 2.5 </oneNumber></setProperty>"#;
    state.handle_set_property(xml).unwrap();
    let listed = state.handle_get_properties(r#"<getProperties device="CCD"/>"#);
    assert_eq!(listed[0].value, PropertyValue::Number("2.5".to_string(), None));
    let xml = r#"<setProperty device="CCD" name="A"><oneSwitch>On</oneSwitch></setProperty>"#;
    state.handle_set_property(xml).unwrap();
    let listed = state.handle_get_properties(r#"<getProperties device="CCD"/>"#);
    assert_eq!(listed[0].value, PropertyValue::Switch(SwitchState::On));
    match state.handle_set_property(r#"<setProperty name="A"><oneText>x</oneText></setProperty>"#) {
        Err(Error::ParseError(m)) => assert_eq!(m, "Missing device attribute"),
        _ => panic!("expected a parse error"),
    }
    match state.handle_set_property(r#"<setProperty device="CCD" name="A"/>"#) {
        Err(Error::ParseError(m)) => assert_eq!(m, "Missing property value"),
        _ => panic!("expected a parse error"),
    }
}

#[test]
fn xml_reader_searches() {
    let xml = r#"<a x="1"><b y="&lt;2&gt;"/><oneText>  hi  </oneText></a>"#;
    assert_eq!(xml_attribute(xml, "x").as_deref(), Some("1"));
    assert_eq!(xml_attribute(xml, "y").as_deref(), Some("<2>"));
    assert_eq!(xml_attribute(xml, "z"), None);
    assert_eq!(xml_content(xml, "oneText").as_deref(), Some("hi"));
    assert_eq!(xml_content(xml, "b"), None);
    assert_eq!(xml_content("<t></t><t>x</t>", "t").as_deref(), Some("x"));
}

#[test]
fn element_content_replaces_references() {
    assert_eq!(xml_content("<oneText>a &amp; b</oneText>", "oneText").as_deref(), Some("a & b"));
    assert_eq!(xml_content("<oneText> &#65;&lt;x&gt; </oneText>", "oneText").as_deref(), Some("A<x>"));
    assert_eq!(xml_content("<oneText>x &unknown; y</oneText>", "oneText"), None);
    assert_eq!(xml_content("<t> </t><t>y</t>", "t").as_deref(), Some("y"));
    assert_eq!(xml_content("<t>\n  <u/></t><t>z</t>", "t").as_deref(), Some("z"));
    let mut state = ServerState::default();
    state.handle_new_property(prop("CCD", "A")).unwrap();
    let xml = r#"<setProperty device="CCD" name="A"><oneText>a &amp; b</oneText></setProperty>"#;
    state.handle_set_property(xml).unwrap();
    let listed = state.handle_get_properties(r#"<getProperties device="CCD"/>"#);
    assert_eq!(listed[0].value, PropertyValue::Text("a & b".to_string()));
}

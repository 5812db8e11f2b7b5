use indi_rs::client::config::ClientConfig as HostConfig;
use indi_rs::client::requests::{
    define_switch_vector, get_properties, get_properties_request, new_property, set_number_vector, set_property, set_property_array,
    set_switch, set_switch_vector, set_text_vector, update_switch_vector,
};
use indi_rs::client::scan::{message_complete, parse_when_complete, XmlParseState};
use indi_rs::client::state::ClientState as VectorState;
use indi_rs::client::{ClientConfig, ClientState};
use indi_rs::error::Error;
use indi_rs::message::definition::{
    DefNumber as VDefNumber, DefNumberVector, DefSwitch as VDefSwitch, DefSwitchVector as VDefSwitchVector,
    DefText as VDefText, DefTextVector,
};
use indi_rs::message::{DefNumber, DefSwitchVector, DefText, Message, OneSwitch};
use indi_rs::property::{Property, PropertyPerm, PropertyState, PropertyValue, SwitchRule, SwitchState};

fn one(name: &str, label: &str, value: &str) -> OneSwitch {
    OneSwitch { name: name.to_string(), label: label.to_string(), value: value.to_string() }
}

fn connection(switches: Vec<OneSwitch>) -> DefSwitchVector {
    DefSwitchVector {
        device: "CCD Simulator".to_string(),
        name: "CONNECTION".to_string(),
        label: "Connection".to_string(),
        group: "Main Control".to_string(),
        state: PropertyState::Idle,
        perm: "rw".to_string(),
        rule: SwitchRule::OneOfMany,
        timeout: 60,
        timestamp: "2025-02-14T00:42:55".to_string(),
        switches,
    }
}

fn switch_of(v: &PropertyValue, name: &str) -> Option<SwitchState> {
    match v {
        PropertyValue::SwitchVector(es) => es.iter().find(|(n, _)| n == name).map(|(_, s)| *s),
        _ => panic!("Wrong property type"),
    }
}

#[test]
fn scan_complete_message() {
    let xml = r#"<defSwitchVector device="CCD Simulator" name="CONNECTION" state="Ok" perm="rw" rule="OneOfMany">
<oneSwitch name="CONNECT" label="Connect">On</oneSwitch>
<oneSwitch name="DISCONNECT" label="Disconnect">Off</oneSwitch>
</defSwitchVector>"#;
    assert!(message_complete(xml));
}

#[test]
fn scan_incomplete_message() {
    let xml = r#"<defSwitchVector device="CCD Simulator" name="CONNECTION" state="Ok" perm="rw" rule="OneOfMany">
<oneSwitch name="CONNECT" label="Connect">On</oneSwitch>"#;
    assert!(!message_complete(xml));
}

#[test]
fn scan_self_closing_tag() {
    assert!(message_complete(r#"<getProperties version="1.7" device="CCD Simulator"/>"#));
    assert!(message_complete("  <getProperties version=\"1.7\"/>\n"));
}

#[test]
fn scan_multiple_messages() {
    let xml = r#"<getProperties version="1.7" device="CCD Simulator"/>
<defSwitchVector device="CCD Simulator" name="CONNECTION" state="Ok" perm="rw" rule="OneOfMany">
<oneSwitch name="CONNECT" label="Connect">Off</oneSwitch>
<oneSwitch name="DISCONNECT" label="Disconnect">On</oneSwitch>
</defSwitchVector>"#;
    assert!(message_complete(xml));
    let pos = xml.find("<defSwitchVector").unwrap();
    assert!(message_complete(&xml[pos..]));
}

#[test]
fn scan_edge_cases() {
    assert!(!message_complete(""));
    assert!(!message_complete("   \n\t "));
    // A declaration closes at its `>`, leaving the nesting at zero.
    assert!(message_complete("<?xml version=\"1.0\"?>"));
    assert!(message_complete("<?xml version=\"1.0\"?><a>"));
    assert!(!message_complete("<?xml version=\"1.0\""));
    assert!(message_complete("<a><b/></a>"));
    assert!(!message_complete("<a><b /></a>"));
    assert!(message_complete("text"));
}

#[test]
fn parsed_message_comes_with_complete_flag() {
    let echo = |t: String| Some(t);
    assert_eq!(parse_when_complete("  <a>x</a>\n", echo), (Some("<a>x</a>".to_string()), true));
    assert_eq!(parse_when_complete("<a>x", echo), (None, false));
    assert_eq!(parse_when_complete("   ", echo), (None, false));
    let refuse = |_t: String| None::<String>;
    assert_eq!(parse_when_complete("<a/>", refuse), (None, true));
}

#[test]
fn scanner_steps() {
    let mut s = XmlParseState::new();
    for c in "<a>".chars() {
        s.process_char(c);
    }
    assert_eq!(s.depth, 1);
    assert!(!s.is_complete());
    for c in "</a>".chars() {
        s.process_char(c);
    }
    assert_eq!(s.depth, 0);
    assert!(s.is_complete());
    assert_eq!(s.prev_char, Some('>'));
}

#[test]
fn definitions_update_the_state() {
    let mut state = ClientState::new();
    state.update_at(
        Message::DefSwitchVector(connection(vec![one("CONNECT", "Connect", " On\n"), one("DISCONNECT", "Disconnect", "Off")])),
        "now".to_string(),
    );
    let prop = state.devices.get("CCD Simulator", "CONNECTION").unwrap();
    assert_eq!(switch_of(&prop.value, "CONNECT"), Some(SwitchState::On));
    assert_eq!(switch_of(&prop.value, "DISCONNECT"), Some(SwitchState::Off));
    assert_eq!(prop.timestamp, "2025-02-14T00:42:55");
    assert_eq!(prop.perm, PropertyPerm::Rw);

    state.update_at(
        Message::DefTextVector {
            device: "CCD Simulator".to_string(),
            name: "DRIVER_INFO".to_string(),
            label: "Driver Info".to_string(),
            group: "General Info".to_string(),
            state: PropertyState::OK,
            perm: "ro".to_string(),
            timeout: 60,
            timestamp: "2025-02-21T22:05:32".to_string(),
            texts: vec![
                DefText { name: "DRIVER_NAME".to_string(), label: "Name".to_string(), value: "QHY".to_string() },
                DefText { name: "DRIVER_NAME".to_string(), label: "Name".to_string(), value: "QHY CCD".to_string() },
            ],
        },
        "2025-03-01T00:00:00".to_string(),
    );
    let prop = state.devices.get("CCD Simulator", "DRIVER_INFO").unwrap();
    assert_eq!(prop.value, PropertyValue::TextVector(vec![("DRIVER_NAME".to_string(), "QHY CCD".to_string())]));
    assert_eq!(prop.timestamp, "2025-03-01T00:00:00");
    assert_eq!(prop.perm, PropertyPerm::Ro);

    state.update_at(
        Message::DefNumberVector {
            device: "Telescope".to_string(),
            name: "EQUATORIAL_EOD_COORD".to_string(),
            label: "Eq".to_string(),
            group: "Main".to_string(),
            state: PropertyState::Busy,
            perm: "bogus".to_string(),
            timeout: 60,
            timestamp: String::new(),
            numbers: vec![
                DefNumber {
                    name: "RA".to_string(),
                    label: "RA".to_string(),
                    format: "%10.6m".to_string(),
                    min: "0".to_string(),
                    max: "24".to_string(),
                    step: "0".to_string(),
                    value: "12.5".to_string(),
                },
                DefNumber {
                    name: "DEC".to_string(),
                    label: "DEC".to_string(),
                    format: "%10.6m".to_string(),
                    min: "-90".to_string(),
                    max: "90".to_string(),
                    step: "0".to_string(),
                    value: "-12:30".to_string(),
                },
            ],
        },
        "t".to_string(),
    );
    let prop = state.devices.get("Telescope", "EQUATORIAL_EOD_COORD").unwrap();
    assert_eq!(prop.perm, PropertyPerm::Rw);
    assert_eq!(prop.value.to_string(), "DEC=0,RA=12.5");

    let mut names = state.devices.device_names();
    names.sort();
    assert_eq!(names, vec!["CCD Simulator".to_string(), "Telescope".to_string()]);

    state.update_at(Message::DelProperty { device: "CCD Simulator".to_string() }, "t".to_string());
    assert!(state.devices.get("CCD Simulator", "CONNECTION").is_none());
    assert_eq!(state.devices.device_names(), vec!["Telescope".to_string()]);

    state.update_at(Message::SetProperty { content: "<x/>".to_string() }, "t".to_string());
    assert_eq!(state.devices.device_names(), vec!["Telescope".to_string()]);
}

#[test]
fn defined_property_reads_back() {
    let mut state = ClientState::new();
    let p = Property::new(
        "dev".to_string(),
        "prop".to_string(),
        PropertyValue::Text("v".to_string()),
        PropertyState::OK,
        PropertyPerm::Ro,
        "t".to_string(),
    );
    state.update(Message::DefProperty(p));
    let q = state.devices.get("dev", "prop").unwrap();
    assert_eq!(q.value, PropertyValue::Text("v".to_string()));
    assert!(state.devices.get("dev", "other").is_none());
}

#[test]
fn device_messages_parse_switches_strictly() {
    let mut state = ClientState::new();
    state
        .handle_device_message(Message::DefSwitchVector(connection(vec![
            one("CONNECT", "Connect", "Off"),
            one("DISCONNECT", "Disconnect", "On"),
        ])))
        .unwrap();
    let prop = state.devices.get("CCD Simulator", "CONNECTION").unwrap();
    match &prop.value {
        PropertyValue::SwitchVector(switches) => assert_eq!(switches.len(), 2),
        _ => panic!("Wrong property type"),
    }
    assert_eq!(switch_of(&prop.value, "CONNECT"), Some(SwitchState::Off));
    assert_eq!(switch_of(&prop.value, "DISCONNECT"), Some(SwitchState::On));

    state
        .handle_device_message(Message::DefSwitchVector(connection(vec![one("CONNECT", "Connect", " On")])))
        .unwrap();
    let prop = state.devices.get("CCD Simulator", "CONNECTION").unwrap();
    assert_eq!(switch_of(&prop.value, "CONNECT"), Some(SwitchState::Off));
    assert!(state.handle_device_message(Message::Message { content: String::new() }).is_ok());
}

#[test]
fn configs() {
    let c = ClientConfig { server_addr: "127.0.0.1:7624".to_string() };
    assert_eq!(c.server_addr, "127.0.0.1:7624");
    let h = HostConfig::new("localhost".to_string(), HostConfig::DEFAULT_PORT);
    assert_eq!(h.host, "localhost");
    assert_eq!(h.port, 7624);
}

#[test]
fn request_messages() {
    match get_properties(Some("CCD".to_string()), None) {
        Message::GetProperties { version, device, name } => {
            assert_eq!(version, "1.7");
            assert_eq!(device.as_deref(), Some("CCD"));
            assert!(name.is_none());
        }
        _ => panic!("expected GetProperties"),
    }
    match set_property("CCD", "EXPOSURE", PropertyValue::Number("1".to_string(), None), "t".to_string()) {
        Message::NewProperty(p) => {
            assert_eq!(p.state, PropertyState::Idle);
            assert_eq!(p.perm, PropertyPerm::Rw);
            assert_eq!(p.name, "EXPOSURE");
        }
        _ => panic!("expected NewProperty"),
    }
    match new_property("CCD".to_string(), "X".to_string(), PropertyValue::Switch(SwitchState::On), "t".to_string()) {
        Message::NewProperty(p) => assert_eq!(p.value, PropertyValue::Switch(SwitchState::On)),
        _ => panic!("expected NewProperty"),
    }
    match set_switch("CCD", "CONNECTION", "CONNECT", true, "t".to_string()) {
        Message::NewProperty(p) => {
            assert_eq!(p.value, PropertyValue::SwitchVector(vec![("CONNECT".to_string(), SwitchState::On)]));
            assert_eq!(p.state, PropertyState::OK);
        }
        _ => panic!("expected NewProperty"),
    }
    let texts = vec![DefText { name: "a".to_string(), label: "A".to_string(), value: "1".to_string() }];
    match set_text_vector("CCD", "T", texts, &PropertyState::Alert, "wo", "t".to_string()) {
        Message::NewProperty(p) => {
            assert_eq!(p.perm, PropertyPerm::Wo);
            assert_eq!(p.state, PropertyState::Alert);
            assert_eq!(p.value.to_string(), "a=1");
        }
        _ => panic!("expected NewProperty"),
    }
    let numbers = vec![DefNumber {
        name: "n".to_string(),
        label: "N".to_string(),
        format: "%g".to_string(),
        min: "0".to_string(),
        max: "1".to_string(),
        step: "0".to_string(),
        value: "1e3".to_string(),
    }];
    match set_number_vector("CCD", "N", numbers, &PropertyState::OK, "x", "t".to_string()) {
        Message::NewProperty(p) => {
            assert_eq!(p.perm, PropertyPerm::Rw);
            assert_eq!(p.value.to_string(), "n=1e3");
        }
        _ => panic!("expected NewProperty"),
    }
}

#[test]
fn switch_vector_requests() {
    match set_switch_vector("CCD Simulator", "CONNECTION", &[("CONNECT".to_string(), true), ("DISCONNECT".to_string(), false)], "t".to_string()) {
        Message::DefSwitchVector(d) => {
            assert_eq!(d.perm, "rw");
            assert_eq!(d.rule, SwitchRule::OneOfMany);
            assert_eq!(d.state, PropertyState::OK);
            assert_eq!(d.switches.len(), 2);
            assert_eq!(d.switches[0].value, "On");
            assert_eq!(d.switches[1].value, "Off");
            assert_eq!(d.switches[1].label, "DISCONNECT");
            assert_eq!(d.label, "");
        }
        _ => panic!("expected DefSwitchVector"),
    }
    match update_switch_vector("d".to_string(), "n".to_string(), PropertyState::Busy, vec![], "t".to_string()) {
        Message::DefSwitchVector(d) => {
            assert_eq!(d.perm, "rw");
            assert_eq!(d.timeout, 0);
        }
        _ => panic!("expected DefSwitchVector"),
    }
    match define_switch_vector("d".to_string(), "n".to_string(), PropertyState::Busy, "ro".to_string(), vec![], "t".to_string()) {
        Message::DefSwitchVector(d) => assert_eq!(d.perm, "ro"),
        _ => panic!("expected DefSwitchVector"),
    }
}

#[test]
fn property_array_requests() {
    let values = vec![
        ("CONNECT".to_string(), PropertyValue::Switch(SwitchState::On)),
        ("NOISE".to_string(), PropertyValue::Text("x".to_string())),
        ("CONNECT".to_string(), PropertyValue::Switch(SwitchState::Off)),
    ];
    match set_property_array("CCD", "CONNECTION", &values, "t".to_string()).unwrap() {
        Message::NewProperty(p) => {
            assert_eq!(p.value, PropertyValue::SwitchVector(vec![("CONNECT".to_string(), SwitchState::Off)]));
            assert_eq!(p.state, PropertyState::OK);
        }
        _ => panic!("expected NewProperty"),
    }
    match set_property_array("CCD", "UPLOAD_MODE", &values, "t".to_string()) {
        Err(Error::Property(m)) => assert_eq!(m, "Only switch properties are supported for array values"),
        _ => panic!("expected a refusal"),
    }
    let switches = vec![
        ("UPLOAD_CLIENT".to_string(), PropertyValue::Switch(SwitchState::On)),
        ("UPLOAD_LOCAL".to_string(), PropertyValue::Switch(SwitchState::Off)),
    ];
    match set_property_array("CCD", "UPLOAD_MODE", &switches, "t".to_string()).unwrap() {
        Message::NewProperty(p) => {
            assert_eq!(p.name, "");
            let es = p.elements.unwrap();
            assert_eq!(es.len(), 2);
            assert_eq!(es[0].name, "UPLOAD_CLIENT");
            assert_eq!(es[1].value, PropertyValue::Switch(SwitchState::Off));
        }
        _ => panic!("expected NewProperty"),
    }
}

#[test]
fn vector_definitions_update_the_state() {
    let mut state = VectorState::new();
    state
        .update_text_vector(DefTextVector {
            device: "d".to_string(),
            name: "t".to_string(),
            label: String::new(),
            group: String::new(),
            state: PropertyState::OK,
            perm: PropertyPerm::Ro,
            timeout: 0,
            timestamp: "ts".to_string(),
            texts: vec![
                VDefText { name: "a".to_string(), label: String::new(), value: "x".to_string() },
                VDefText { name: "b".to_string(), label: String::new(), value: "y".to_string() },
            ],
        })
        .unwrap();
    assert_eq!(state.get_property("d", "t").unwrap().value, PropertyValue::Text("x,y".to_string()));
    state
        .update_number_vector(DefNumberVector {
            device: "d".to_string(),
            name: "n".to_string(),
            label: String::new(),
            group: String::new(),
            state: PropertyState::OK,
            perm: PropertyPerm::Ro,
            timeout: 0,
            timestamp: "ts".to_string(),
            numbers: vec![],
        })
        .unwrap();
    assert_eq!(state.get_property("d", "n").unwrap().value, PropertyValue::Number("0".to_string(), None));
    state
        .update_number_vector(DefNumberVector {
            device: "d".to_string(),
            name: "n".to_string(),
            label: String::new(),
            group: String::new(),
            state: PropertyState::OK,
            perm: PropertyPerm::Ro,
            timeout: 0,
            timestamp: "ts".to_string(),
            numbers: vec![VDefNumber {
                name: "x".to_string(),
                label: String::new(),
                format: String::new(),
                min: String::new(),
                max: String::new(),
                step: String::new(),
                value: "4.5".to_string(),
            }],
        })
        .unwrap();
    assert_eq!(state.get_property("d", "n").unwrap().value, PropertyValue::Number("4.5".to_string(), None));
    state
        .update_switch_vector(VDefSwitchVector {
            device: "d".to_string(),
            name: "s".to_string(),
            label: String::new(),
            group: String::new(),
            state: PropertyState::OK,
            perm: PropertyPerm::Rw,
            rule: SwitchRule::AnyOfMany,
            timeout: 0,
            timestamp: "ts".to_string(),
            message: String::new(),
            switches: vec![VDefSwitch { name: "on".to_string(), label: String::new(), state: SwitchState::On }],
        })
        .unwrap();
    assert_eq!(state.get_property("d", "s").unwrap().value, PropertyValue::Switch(SwitchState::On));

    state.remove_property("d", Some("t"));
    assert!(state.get_property("d", "t").is_none());
    assert!(state.get_property("d", "n").is_some());
    state.remove_property("d", Some("n"));
    state.remove_property("d", Some("s"));
    assert!(state.properties.device_names().is_empty());
    state.update_switch_vector(VDefSwitchVector {
        device: "e".to_string(),
        name: "s".to_string(),
        label: String::new(),
        group: String::new(),
        state: PropertyState::OK,
        perm: PropertyPerm::Rw,
        rule: SwitchRule::AnyOfMany,
        timeout: 0,
        timestamp: "ts".to_string(),
        message: String::new(),
        switches: vec![],
    })
    .unwrap();
    assert_eq!(state.get_property("e", "s").unwrap().value, PropertyValue::Switch(SwitchState::Off));
    state.remove_property("e", None);
    assert!(state.get_property("e", "s").is_none());
}

#[test]
fn properties_request_text() {
    assert_eq!(get_properties_request(None, None), "<getProperties version='1.7'/>\n");
    assert_eq!(
        get_properties_request(Some("CCD Simulator"), Some("CONNECTION")),
        "<getProperties version='1.7' device='CCD Simulator' name='CONNECTION'/>\n"
    );
    assert_eq!(get_properties_request(None, Some("X")), "<getProperties version='1.7' name='X'/>\n");
}

#[test]
fn store_laws_on_examples() {
    let mut state = VectorState::new();
    let def = |value: &str| VDefSwitchVector {
        device: "dev".to_string(),
        name: "prop".to_string(),
        label: String::new(),
        group: String::new(),
        state: PropertyState::Idle,
        perm: PropertyPerm::Rw,
        rule: SwitchRule::AnyOfMany,
        timeout: 0,
        timestamp: value.to_string(),
        message: String::new(),
        switches: vec![],
    };
    state.update_switch_vector(def("a")).unwrap();
    state.update_switch_vector(def("a")).unwrap();
    assert_eq!(state.properties.select(None).len(), 1);
    assert_eq!(state.get_property("dev", "prop").unwrap().timestamp, "a");
    state.update_switch_vector(def("b")).unwrap();
    assert_eq!(state.get_property("dev", "prop").unwrap().timestamp, "b");
    state.remove_property("dev", Some("prop"));
    assert!(state.properties.device_names().is_empty());
}

#[test]
fn complete_messages_stay_complete() {
    let first = "  <getProperties version=\"1.7\"/>";
    assert!(message_complete(first));
    for more in ["", "\n", "<defSwitchVector device=\"CCD\">", " text", "</x>"] {
        assert!(message_complete(&format!("{}{}", first, more)));
    }
}

use hkserver::render::{print_accessory, print_characteristic, print_service, print_trigger};
use hkserver::schema::{
    Accessory, ActivationState, Category, Characteristic, CharacteristicProperty, DurationEvent, EntityRef, Event,
    Format, Metadata, Number, Profile, SampledValue, Service, ServiceType, Trigger, TriggerKind, Units,
};

fn power() -> Characteristic {
    Characteristic {
        uuid: "c-1".to_string(),
        description: "Power State".to_string(),
        properties: vec![CharacteristicProperty::Readable, CharacteristicProperty::Writable],
        characteristic_type: 37,
        metadata: Some(Metadata {
            manufacturer_description: "On".to_string(),
            valid_values: vec![SampledValue::Bool(false), SampledValue::Bool(true)],
            minimum_value: Some(Number::UnsignedInteger(0)),
            maximum_value: Some(Number::UnsignedInteger(1)),
            step_value: None,
            format: Format::Bool,
            units: Units::Unitless,
        }),
        value: Some(SampledValue::Bool(true)),
    }
}

#[test]
fn characteristic_lines_with_metadata() {
    let lines = print_characteristic(&power(), 2);
    assert_eq!(
        lines,
        vec![
            "  Characteristic: c-1",
            "    Description: Power State",
            "    Properties: Readable, Writable",
            "    Type: 37",
            "    Metadata:",
            "      Manufacturer Description: On",
            "      Valid Values: (2)",
            "        false",
            "        true",
            "      Minimum: 0",
            "      Maximum: 1",
            "      Format: Bool",
            "      Units: Unitless",
            "    Last Value: true",
        ]
    );
}

#[test]
fn service_lines_nest_characteristics() {
    let s = Service {
        uuid: "s-1".to_string(),
        name: "Light".to_string(),
        is_primary: true,
        is_interactive: false,
        service_type: ServiceType::LightBulb,
        associated_service_type: String::new(),
        characteristics: vec![power()],
    };
    let lines = print_service(&s, 2);
    assert_eq!(lines[0], "  Service: Light");
    assert_eq!(lines[4], "    Service Type: LightBulb");
    assert_eq!(lines[6], "    Characteristics: (1)");
    assert_eq!(lines[7], "      Characteristic: c-1");
    assert_eq!(lines.len(), 7 + 14);
}

#[test]
fn bridge_lists_bridged_accessories() {
    let a = Accessory {
        uuid: "a-1".to_string(),
        name: "Hub".to_string(),
        room: None,
        category: Category::Bridge,
        model: "H1".to_string(),
        manufacturer: "Acme".to_string(),
        firmware_version: "2.0".to_string(),
        is_reachable: true,
        is_blocked: false,
        is_bridged: false,
        supports_identify: true,
        profiles: vec![Profile {
            uuid: "p-1".to_string(),
            is_network_access_restricted: false,
            services: vec![EntityRef { uuid: "s-1".to_string(), name: "Light".to_string() }],
        }],
        services: vec![],
        bridged_accessory_uuids: vec!["u1".to_string(), "u2".to_string()],
    };
    let lines = print_accessory(&a);
    assert_eq!(lines[1], "    Room: None");
    assert_eq!(lines[3], "    Category: Bridge");
    assert_eq!(lines[11], "    Profiles: (1)");
    assert_eq!(lines[15], "        Services: (1)");
    assert_eq!(lines[16], "          Service: Light (s-1)");
    assert_eq!(lines[17], "    Services: (0)");
    assert_eq!(&lines[18..], &["    Bridged Accessories: (2)", "      UUID: u1", "      UUID: u2"]);
    let mut plain = a.clone();
    plain.category = Category::LightBulb;
    plain.bridged_accessory_uuids = vec![];
    assert_eq!(print_accessory(&plain).len(), 18);
}

#[test]
fn timer_and_event_trigger_lines() {
    let t = Trigger {
        uuid: "t-1".to_string(),
        name: "Morning".to_string(),
        is_enabled: true,
        last_fire_date: 0,
        action_sets: vec![EntityRef { uuid: "as-1".to_string(), name: "Wake".to_string() }],
        kind: TriggerKind::Timer { fire_date: 86400, recurrence: 86400 },
    };
    assert_eq!(
        print_trigger(&t),
        vec![
            "  Trigger: Morning",
            "    UUID: t-1",
            "    Type: Timer",
            "    Is Enabled: true",
            "    Last Fire Date (UTC): 1970-01-01 00:00:00",
            "    Next Fire Date (UTC): 1970-01-02 00:00:00",
            "    Recurrence: PT86400S",
            "    Action Sets: (1)",
            "      Action Set: Wake (as-1)",
        ]
    );
    let e = Trigger {
        uuid: "t-2".to_string(),
        name: "Away".to_string(),
        is_enabled: false,
        last_fire_date: 0,
        action_sets: vec![],
        kind: TriggerKind::Event {
            activation_state: ActivationState::Enabled,
            executes_once: true,
            events: vec![Event::Duration(DurationEvent { uuid: "e-1".to_string(), duration: 60 })],
            end_events: vec![],
        },
    };
    let lines = print_trigger(&e);
    assert_eq!(lines[2], "    Type: Event");
    assert_eq!(lines[5], "    Activation State: Enabled");
    assert_eq!(lines[7], "    Events: (1)");
    assert_eq!(lines[8], "      Event: e-1");
    assert_eq!(lines[10], "        Duration: PT60S");
    assert_eq!(lines[11], "    End Events: (0)");
    assert_eq!(lines[12], "    Action Sets: (0)");
    assert_eq!(lines.len(), 13);
}

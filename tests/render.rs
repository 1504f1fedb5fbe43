use hkserver::render::{number_string, print_event, value_string};
use hkserver::schema::{
    CalendarEvent, CharacteristicEvent, CharacteristicThresholdRangeEvent, DurationEvent, EntityRef, Event,
    LocationEvent, Number, PresenceEvent, PresenceEventType, PresenceEventUserType, Region, SampledValue,
    SignificantTimeEvent,
};

#[test]
fn number_texts() {
    assert_eq!(number_string(Number::SignedInteger(-42)), "-42");
    assert_eq!(number_string(Number::UnsignedInteger(18446744073709551615)), "18446744073709551615");
    assert_eq!(number_string(Number::FloatBits(1.0f32.to_bits())), "f32:0x3f800000");
    assert_eq!(number_string(Number::DoubleBits(1.0f64.to_bits())), "f64:0x3ff0000000000000");
}

#[test]
fn value_texts() {
    assert_eq!(value_string(&SampledValue::Bool(false)), "false");
    assert_eq!(value_string(&SampledValue::Text("on".to_string())), "on");
    assert_eq!(value_string(&SampledValue::Data(vec![1, 171])), "{2, b'01ab'}");
    assert_eq!(value_string(&SampledValue::Num(Number::UnsignedInteger(7))), "7");
}

#[test]
fn calendar_event_lines() {
    let e = Event::Calendar(CalendarEvent { uuid: "e-1".to_string(), fire_date: 1431648000 });
    assert_eq!(print_event(&e), vec!["      Event: e-1", "        Type: Calendar", "        Fire Date: 2015-05-15 00:00:00"]);
}

#[test]
fn duration_and_offset_lines() {
    let e = Event::Duration(DurationEvent { uuid: "e-2".to_string(), duration: 3600 });
    assert_eq!(print_event(&e)[2], "        Duration: PT3600S");
    let e = Event::SignificantTime(SignificantTimeEvent { uuid: "e-3".to_string(), significant_event: "sunset".to_string(), offset: 0 });
    assert_eq!(print_event(&e)[3], "        Offset: None");
    let e = Event::SignificantTime(SignificantTimeEvent { uuid: "e-3".to_string(), significant_event: "sunset".to_string(), offset: -60 });
    assert_eq!(print_event(&e)[2], "        Significant Event: sunset");
    assert_eq!(print_event(&e)[3], "        Offset: -PT60S");
}

#[test]
fn characteristic_event_lines() {
    let c = EntityRef { uuid: "c-1".to_string(), name: "Power".to_string() };
    let e = Event::Characteristic(CharacteristicEvent { uuid: "e-4".to_string(), characteristic: c.clone(), trigger_value: None });
    let lines = print_event(&e);
    assert_eq!(lines[2], "        Characteristic: Power (c-1)");
    assert_eq!(lines[3], "        Trigger Value: Any Change");
    let e = Event::Characteristic(CharacteristicEvent { uuid: "e-4".to_string(), characteristic: c.clone(), trigger_value: Some(SampledValue::Bool(true)) });
    assert_eq!(print_event(&e)[3], "        Trigger Value: true");
    let e = Event::CharacteristicThresholdRange(CharacteristicThresholdRangeEvent {
        uuid: "e-5".to_string(),
        characteristic: c,
        min_value: Some(Number::SignedInteger(10)),
        max_value: None,
    });
    let lines = print_event(&e);
    assert_eq!(lines[1], "        Type: Characteristic Threshold Range");
    assert_eq!(lines[3], "        Min: 10");
    assert_eq!(lines[4], "        Max: None");
}

#[test]
fn location_and_presence_lines() {
    let e = Event::Location(LocationEvent {
        uuid: "e-6".to_string(),
        notify_on_entry: true,
        notify_on_exit: false,
        region: Some(Region { latitude_bits: 0, longitude_bits: 1.0f64.to_bits(), radius_bits: 0 }),
    });
    let lines = print_event(&e);
    assert_eq!(lines.len(), 7);
    assert_eq!(lines[2], "        Notify On Entry: true");
    assert_eq!(lines[5], "          Center: (f64:0x0000000000000000, f64:0x3ff0000000000000)");
    let e = Event::Presence(PresenceEvent {
        uuid: "e-7".to_string(),
        presence_event: PresenceEventType::FirstEntry,
        presence_user: PresenceEventUserType::HomeUsers,
    });
    assert_eq!(print_event(&e), vec!["      Event: e-7", "        Type: Presence", "        Event Type: FirstEntry", "        Users: HomeUsers"]);
}


use vstd::prelude::*;
use crate::dispatch::text_views;
use crate::schema::{
    Accessory, Category, Profile,
    ActivationState, Characteristic, CharacteristicProperty, EntityRef, Format, Metadata, Service,
    ServiceType, Trigger, TriggerKind, Units,
    CalendarEvent, CharacteristicEvent, CharacteristicThresholdRangeEvent, DurationEvent, Event,
    LocationEvent, Number, PresenceEvent, PresenceEventType, PresenceEventUserType, SampledValue,
    SampledValueView, SignificantTimeEvent,
};

verus! {

/// The decimal digit `d`.
pub open spec fn digit(d: nat) -> char {
    seq!['0', '1', '2', '3', '4', '5', '6', '7', '8', '9'][d as int]
}

/// The decimal text of `n`, without leading zeros.
pub open spec fn decimal(n: nat) -> Seq<char>
    decreases n,
{
    if n < 10 {
        seq![digit(n)]
    } else {
        decimal(n / 10).push(digit(n % 10))
    }
}

/// The decimal text of `n`, with a minus sign when negative.
pub open spec fn signed_decimal(n: int) -> Seq<char> {
    if n < 0 {
        seq!['-'] + decimal((-n) as nat)
    } else {
        decimal(n as nat)
    }
}

/// Relies on the `Display` of `u64`, which writes the decimal digits.
#[verifier::external_body]
pub(crate) fn u64_text(n: u64) -> (r: String)
    ensures
        r@ == decimal(n as nat),
{
    n.to_string()
}

/// Relies on the `Display` of `i64`, which writes a minus sign for a
/// negative value, then the decimal digits.
#[verifier::external_body]
fn i64_text(n: i64) -> (r: String)
    ensures
        r@ == signed_decimal(n as int),
{
    n.to_string()
}

/// The lowercase hexadecimal digit `d`.
pub open spec fn hex_digit(d: nat) -> char {
    seq!['0', '1', '2', '3', '4', '5', '6', '7', '8', '9', 'a', 'b', 'c', 'd', 'e', 'f'][d as int]
}

/// Two lowercase hexadecimal digits for each byte.
pub open spec fn hex_of(b: Seq<u8>) -> Seq<char>
    decreases b.len(),
{
    if b.len() == 0 {
        Seq::empty()
    } else {
        hex_of(b.drop_last()) + seq![hex_digit((b.last() / 16) as nat), hex_digit((b.last() % 16) as nat)]
    }
}

/// Relies on hex::encode: two lowercase digits for each byte, in order.
#[verifier::external_body]
fn hex_text(b: &Vec<u8>) -> (r: String)
    ensures
        r@ == hex_of(b@),
{
    hex::encode(b)
}

/// What chrono writes for the UTC date and time `secs` seconds after the
/// Unix epoch, when chrono can represent it.
pub uninterp spec fn utc_date_text(secs: int) -> Option<Seq<char>>;

/// Relies on chrono::DateTime::from_timestamp, which has no value for a time
/// out of its range, and on the `Display` of NaiveDateTime.
#[verifier::external_body]
fn date_text(secs: i64) -> (r: Option<String>)
    ensures
        match r {
            Some(s) => utc_date_text(secs as int) == Some(s@),
            None => utc_date_text(secs as int) is None,
        },
{
    chrono::DateTime::from_timestamp(secs, 0).map(|d| d.naive_utc().to_string())
}

/// What chrono writes, in ISO 8601, for a span of `secs` seconds, when
/// chrono can represent it.
pub uninterp spec fn iso_duration_text(secs: int) -> Option<Seq<char>>;

/// Relies on chrono::TimeDelta::try_seconds, which has no value beyond its
/// range, and on the `Display` of TimeDelta.
#[verifier::external_body]
fn duration_text(secs: i64) -> (r: Option<String>)
    ensures
        match r {
            Some(s) => iso_duration_text(secs as int) == Some(s@),
            None => iso_duration_text(secs as int) is None,
        },
{
    chrono::TimeDelta::try_seconds(secs).map(|d| d.to_string())
}

/// The text shown for a time that cannot be represented.
pub open spec fn out_of_range() -> Seq<char> {
    "<out of range>"@
}

/// The UTC date and time of a Unix timestamp.
pub open spec fn date_of(secs: int) -> Seq<char> {
    if i64::MIN <= secs <= i64::MAX && utc_date_text(secs) is Some {
        utc_date_text(secs)->Some_0
    } else {
        out_of_range()
    }
}

/// A span of seconds, in ISO 8601.
pub open spec fn duration_of(secs: int) -> Seq<char> {
    if i64::MIN <= secs <= i64::MAX && iso_duration_text(secs) is Some {
        iso_duration_text(secs)->Some_0
    } else {
        out_of_range()
    }
}

fn date_line(prefix: &str, secs: u64) -> (r: String)
    ensures
        r@ == prefix@ + date_of(secs as int),
{
    let t = if secs <= i64::MAX as u64 {
        match date_text(secs as i64) {
            Some(t) => t,
            None => "<out of range>".to_owned(),
        }
    } else {
        "<out of range>".to_owned()
    };
    cat(prefix, t.as_str())
}

fn duration_line(prefix: &str, secs: i64) -> (r: String)
    ensures
        r@ == prefix@ + duration_of(secs as int),
{
    let t = match duration_text(secs) {
        Some(t) => t,
        None => "<out of range>".to_owned(),
    };
    cat(prefix, t.as_str())
}

fn cat(a: &str, b: &str) -> (r: String)
    ensures
        r@ == a@ + b@,
{
    let mut s = a.to_owned();
    s.append(b);
    s
}

/// `true` or `false`.
pub open spec fn bool_text(b: bool) -> Seq<char> {
    if b { "true"@ } else { "false"@ }
}

fn bool_str(b: bool) -> (r: &'static str)
    ensures
        r@ == bool_text(b),
{
    if b { "true" } else { "false" }
}

/// The four bytes of `v`, most significant first.
pub open spec fn be_bytes_u32(v: u32) -> Seq<u8> {
    seq![(v >> 24) as u8, (v >> 16) as u8, (v >> 8) as u8, v as u8]
}

/// The eight bytes of `v`, most significant first.
pub open spec fn be_bytes_u64(v: u64) -> Seq<u8> {
    seq![(v >> 56) as u8, (v >> 48) as u8, (v >> 40) as u8, (v >> 32) as u8,
         (v >> 24) as u8, (v >> 16) as u8, (v >> 8) as u8, v as u8]
}

/// The text of a number: integers in decimal; a floating-point value as its
/// exact bit pattern in hexadecimal, after its width.
pub open spec fn number_text(n: Number) -> Seq<char> {
    match n {
        Number::SignedInteger(v) => signed_decimal(v as int),
        Number::UnsignedInteger(v) => decimal(v as nat),
        Number::FloatBits(b) => "f32:0x"@ + hex_of(be_bytes_u32(b)),
        Number::DoubleBits(b) => "f64:0x"@ + hex_of(be_bytes_u64(b)),
    }
}

fn bits_text(prefix: &str, b: Vec<u8>) -> (r: String)
    ensures
        r@ == prefix@ + hex_of(b@),
{
    let h = hex_text(&b);
    cat(prefix, h.as_str())
}

/// The text of a number.
pub fn number_string(n: Number) -> (r: String)
    ensures
        r@ == number_text(n),
{
    match n {
        Number::SignedInteger(v) => i64_text(v),
        Number::UnsignedInteger(v) => u64_text(v),
        Number::FloatBits(b) => {
            let mut v: Vec<u8> = Vec::new();
            v.push((b >> 24) as u8);
            v.push((b >> 16) as u8);
            v.push((b >> 8) as u8);
            v.push(b as u8);
            assert(v@ =~= be_bytes_u32(b));
            bits_text("f32:0x", v)
        },
        Number::DoubleBits(b) => {
            let mut v: Vec<u8> = Vec::new();
            v.push((b >> 56) as u8);
            v.push((b >> 48) as u8);
            v.push((b >> 40) as u8);
            v.push((b >> 32) as u8);
            v.push((b >> 24) as u8);
            v.push((b >> 16) as u8);
            v.push((b >> 8) as u8);
            v.push(b as u8);
            assert(v@ =~= be_bytes_u64(b));
            bits_text("f64:0x", v)
        },
    }
}

/// The text of a sampled value; raw bytes show their count and their
/// hexadecimal digits.
pub open spec fn value_text(v: SampledValueView) -> Seq<char> {
    match v {
        SampledValueView::Bool(b) => bool_text(b),
        SampledValueView::Text(s) => s,
        SampledValueView::Num(n) => number_text(n),
        SampledValueView::Data(d) => "{"@ + decimal(d.len()) + ", b'"@ + hex_of(d) + "'}"@,
    }
}

/// The text of a sampled value.
pub fn value_string(v: &SampledValue) -> (r: String)
    ensures
        r@ == value_text(v@),
{
    match v {
        SampledValue::Bool(b) => bool_str(*b).to_owned(),
        SampledValue::Text(s) => s.clone(),
        SampledValue::Num(n) => number_string(*n),
        SampledValue::Data(d) => {
            let count = u64_text(d.len() as u64);
            let h = hex_text(d);
            let mut s = "{".to_owned();
            s.append(count.as_str());
            s.append(", b'");
            s.append(h.as_str());
            s.append("'}");
            s
        },
    }
}

/// The name of a presence event type.
pub open spec fn presence_type_text(t: PresenceEventType) -> Seq<char> {
    match t {
        PresenceEventType::Invalid => "Invalid"@,
        PresenceEventType::EveryEntry => "EveryEntry"@,
        PresenceEventType::EveryExit => "EveryExit"@,
        PresenceEventType::FirstEntry => "FirstEntry"@,
        PresenceEventType::LastExit => "LastExit"@,
    }
}

/// The name of a presence user type.
pub open spec fn presence_user_text(t: PresenceEventUserType) -> Seq<char> {
    match t {
        PresenceEventUserType::Invalid => "Invalid"@,
        PresenceEventUserType::CurrentUser => "CurrentUser"@,
        PresenceEventUserType::HomeUsers => "HomeUsers"@,
        PresenceEventUserType::CustomUsers => "CustomUsers"@,
    }
}

impl PresenceEventType {
    /// The name of this presence event type.
    pub fn name(&self) -> (r: &'static str)
        ensures
            r@ == presence_type_text(*self),
    {
        match self {
            PresenceEventType::Invalid => "Invalid",
            PresenceEventType::EveryEntry => "EveryEntry",
            PresenceEventType::EveryExit => "EveryExit",
            PresenceEventType::FirstEntry => "FirstEntry",
            PresenceEventType::LastExit => "LastExit",
        }
    }
}

impl PresenceEventUserType {
    /// The name of this presence user type.
    pub fn name(&self) -> (r: &'static str)
        ensures
            r@ == presence_user_text(*self),
    {
        match self {
            PresenceEventUserType::Invalid => "Invalid",
            PresenceEventUserType::CurrentUser => "CurrentUser",
            PresenceEventUserType::HomeUsers => "HomeUsers",
            PresenceEventUserType::CustomUsers => "CustomUsers",
        }
    }
}

/// The text of a double's bit pattern.
pub open spec fn double_text(bits: u64) -> Seq<char> {
    number_text(Number::DoubleBits(bits))
}

/// The lines that show a location event.
pub open spec fn location_lines(e: LocationEvent) -> Seq<Seq<char>> {
    let head = seq![
        "      Event: "@ + e.uuid@,
        "        Type: Location"@,
        "        Notify On Entry: "@ + bool_text(e.notify_on_entry),
        "        Notify On Exit: "@ + bool_text(e.notify_on_exit),
    ];
    match e.region {
        Some(r) => head + seq![
            "        Region:"@,
            "          Center: ("@ + double_text(r.latitude_bits) + ", "@ + double_text(r.longitude_bits) + ")"@,
            "          Radius: "@ + double_text(r.radius_bits),
        ],
        None => head,
    }
}

/// The lines that show a calendar event.
pub open spec fn calendar_lines(e: CalendarEvent) -> Seq<Seq<char>> {
    seq![
        "      Event: "@ + e.uuid@,
        "        Type: Calendar"@,
        "        Fire Date: "@ + date_of(e.fire_date as int),
    ]
}

/// The lines that show a significant-time event; a zero offset shows as
/// none.
pub open spec fn significant_time_lines(e: SignificantTimeEvent) -> Seq<Seq<char>> {
    seq![
        "      Event: "@ + e.uuid@,
        "        Type: Significant Time"@,
        "        Significant Event: "@ + e.significant_event@,
        if e.offset == 0 { "        Offset: None"@ } else { "        Offset: "@ + duration_of(e.offset as int) },
    ]
}

/// The lines that show a duration event.
pub open spec fn duration_lines(e: DurationEvent) -> Seq<Seq<char>> {
    seq![
        "      Event: "@ + e.uuid@,
        "        Type: Duration"@,
        "        Duration: "@ + duration_of(e.duration as int),
    ]
}

/// The lines that show a characteristic event; no trigger value means any
/// change.
pub open spec fn characteristic_lines(e: CharacteristicEvent) -> Seq<Seq<char>> {
    seq![
        "      Event: "@ + e.uuid@,
        "        Type: Characteristic Event"@,
        "        Characteristic: "@ + e.characteristic.name@ + " ("@ + e.characteristic.uuid@ + ")"@,
        match e.trigger_value {
            Some(v) => "        Trigger Value: "@ + value_text(v@),
            None => "        Trigger Value: Any Change"@,
        },
    ]
}

/// The lines that show a characteristic threshold-range event.
pub open spec fn threshold_lines(e: CharacteristicThresholdRangeEvent) -> Seq<Seq<char>> {
    seq![
        "      Event: "@ + e.uuid@,
        "        Type: Characteristic Threshold Range"@,
        "        Characteristic: "@ + e.characteristic.name@ + " ("@ + e.characteristic.uuid@ + ")"@,
        match e.min_value {
            Some(n) => "        Min: "@ + number_text(n),
            None => "        Min: None"@,
        },
        match e.max_value {
            Some(n) => "        Max: "@ + number_text(n),
            None => "        Max: None"@,
        },
    ]
}

/// The lines that show a presence event.
pub open spec fn presence_lines(e: PresenceEvent) -> Seq<Seq<char>> {
    seq![
        "      Event: "@ + e.uuid@,
        "        Type: Presence"@,
        "        Event Type: "@ + presence_type_text(e.presence_event),
        "        Users: "@ + presence_user_text(e.presence_user),
    ]
}

/// The lines that show an event, by its kind.
pub open spec fn event_lines(e: Event) -> Seq<Seq<char>> {
    match e {
        Event::Location(x) => location_lines(x),
        Event::Calendar(x) => calendar_lines(x),
        Event::SignificantTime(x) => significant_time_lines(x),
        Event::Duration(x) => duration_lines(x),
        Event::Characteristic(x) => characteristic_lines(x),
        Event::CharacteristicThresholdRange(x) => threshold_lines(x),
        Event::Presence(x) => presence_lines(x),
    }
}

fn double_string(bits: u64) -> (r: String)
    ensures
        r@ == double_text(bits),
{
    number_string(Number::DoubleBits(bits))
}

/// The lines that show a location event.
pub fn print_location_event(e: &LocationEvent) -> (r: Vec<String>)
    ensures
        text_views(r@) == location_lines(*e),
{
    let mut r: Vec<String> = Vec::new();
    r.push(cat("      Event: ", e.uuid.as_str()));
    r.push("        Type: Location".to_owned());
    r.push(cat("        Notify On Entry: ", bool_str(e.notify_on_entry)));
    r.push(cat("        Notify On Exit: ", bool_str(e.notify_on_exit)));
    if let Some(region) = e.region {
        r.push("        Region:".to_owned());
        let mut c = "          Center: (".to_owned();
        c.append(double_string(region.latitude_bits).as_str());
        c.append(", ");
        c.append(double_string(region.longitude_bits).as_str());
        c.append(")");
        r.push(c);
        r.push(cat("          Radius: ", double_string(region.radius_bits).as_str()));
    }
    assert(text_views(r@) =~= location_lines(*e));
    r
}

/// The lines that show a calendar event.
pub fn print_calendar_event(e: &CalendarEvent) -> (r: Vec<String>)
    ensures
        text_views(r@) == calendar_lines(*e),
{
    let mut r: Vec<String> = Vec::new();
    r.push(cat("      Event: ", e.uuid.as_str()));
    r.push("        Type: Calendar".to_owned());
    r.push(date_line("        Fire Date: ", e.fire_date));
    assert(text_views(r@) =~= calendar_lines(*e));
    r
}

/// The lines that show a significant-time event.
pub fn print_significant_time_event(e: &SignificantTimeEvent) -> (r: Vec<String>)
    ensures
        text_views(r@) == significant_time_lines(*e),
{
    let mut r: Vec<String> = Vec::new();
    r.push(cat("      Event: ", e.uuid.as_str()));
    r.push("        Type: Significant Time".to_owned());
    r.push(cat("        Significant Event: ", e.significant_event.as_str()));
    if e.offset == 0 {
        r.push("        Offset: None".to_owned());
    } else {
        r.push(duration_line("        Offset: ", e.offset));
    }
    assert(text_views(r@) =~= significant_time_lines(*e));
    r
}

/// The lines that show a duration event.
pub fn print_duration_event(e: &DurationEvent) -> (r: Vec<String>)
    ensures
        text_views(r@) == duration_lines(*e),
{
    let mut r: Vec<String> = Vec::new();
    r.push(cat("      Event: ", e.uuid.as_str()));
    r.push("        Type: Duration".to_owned());
    let line = if e.duration <= i64::MAX as u64 {
        duration_line("        Duration: ", e.duration as i64)
    } else {
        cat("        Duration: ", "<out of range>")
    };
    r.push(line);
    assert(text_views(r@) =~= duration_lines(*e));
    r
}

fn characteristic_line(name: &String, uuid: &String) -> (r: String)
    ensures
        r@ == "        Characteristic: "@ + name@ + " ("@ + uuid@ + ")"@,
{
    let mut s = cat("        Characteristic: ", name.as_str());
    s.append(" (");
    s.append(uuid.as_str());
    s.append(")");
    s
}

/// The lines that show a characteristic event.
pub fn print_characteristic_event(e: &CharacteristicEvent) -> (r: Vec<String>)
    ensures
        text_views(r@) == characteristic_lines(*e),
{
    let mut r: Vec<String> = Vec::new();
    r.push(cat("      Event: ", e.uuid.as_str()));
    r.push("        Type: Characteristic Event".to_owned());
    r.push(characteristic_line(&e.characteristic.name, &e.characteristic.uuid));
    match &e.trigger_value {
        Some(v) => r.push(cat("        Trigger Value: ", value_string(v).as_str())),
        None => r.push("        Trigger Value: Any Change".to_owned()),
    }
    assert(text_views(r@) =~= characteristic_lines(*e));
    r
}

/// The lines that show a characteristic threshold-range event.
pub fn print_characteristic_threshold_range_event(e: &CharacteristicThresholdRangeEvent) -> (r: Vec<String>)
    ensures
        text_views(r@) == threshold_lines(*e),
{
    let mut r: Vec<String> = Vec::new();
    r.push(cat("      Event: ", e.uuid.as_str()));
    r.push("        Type: Characteristic Threshold Range".to_owned());
    r.push(characteristic_line(&e.characteristic.name, &e.characteristic.uuid));
    match e.min_value {
        Some(n) => r.push(cat("        Min: ", number_string(n).as_str())),
        None => r.push("        Min: None".to_owned()),
    }
    match e.max_value {
        Some(n) => r.push(cat("        Max: ", number_string(n).as_str())),
        None => r.push("        Max: None".to_owned()),
    }
    assert(text_views(r@) =~= threshold_lines(*e));
    r
}

/// The lines that show a presence event.
pub fn print_presence_event(e: &PresenceEvent) -> (r: Vec<String>)
    ensures
        text_views(r@) == presence_lines(*e),
{
    let mut r: Vec<String> = Vec::new();
    r.push(cat("      Event: ", e.uuid.as_str()));
    r.push("        Type: Presence".to_owned());
    r.push(cat("        Event Type: ", e.presence_event.name()));
    r.push(cat("        Users: ", e.presence_user.name()));
    assert(text_views(r@) =~= presence_lines(*e));
    r
}

/// The lines that show an event.
pub fn print_event(e: &Event) -> (r: Vec<String>)
    ensures
        text_views(r@) == event_lines(*e),
{
    match e {
        Event::Location(x) => print_location_event(x),
        Event::Calendar(x) => print_calendar_event(x),
        Event::SignificantTime(x) => print_significant_time_event(x),
        Event::Duration(x) => print_duration_event(x),
        Event::Characteristic(x) => print_characteristic_event(x),
        Event::CharacteristicThresholdRange(x) => print_characteristic_threshold_range_event(x),
        Event::Presence(x) => print_presence_event(x),
    }
}


/// The lines of a run of events, one event after the other.
pub open spec fn events_lines(es: Seq<Event>) -> Seq<Seq<char>>
    decreases es.len(),
{
    if es.len() == 0 {
        Seq::empty()
    } else {
        events_lines(es.drop_last()) + event_lines(es.last())
    }
}

/// The line that shows an action set of a trigger.
pub open spec fn action_set_line(e: (Seq<char>, Seq<char>)) -> Seq<char> {
    "      Action Set: "@ + e.1 + " ("@ + e.0 + ")"@
}

/// The name of an activation state.
pub open spec fn activation_text(a: ActivationState) -> Seq<char> {
    match a {
        ActivationState::Disabled => "Disabled"@,
        ActivationState::Disconnected => "Disconnected"@,
        ActivationState::NoCompatibleHome => "NoCompatibleHome"@,
        ActivationState::Enabled => "Enabled"@,
    }
}

impl ActivationState {
    /// The name of this activation state.
    pub fn name(&self) -> (r: &'static str)
        ensures
            r@ == activation_text(*self),
    {
        match self {
            ActivationState::Disabled => "Disabled",
            ActivationState::Disconnected => "Disconnected",
            ActivationState::NoCompatibleHome => "NoCompatibleHome",
            ActivationState::Enabled => "Enabled",
        }
    }
}

/// The lines that show what a trigger's kind adds to its header.
pub open spec fn trigger_kind_lines(t: Trigger) -> Seq<Seq<char>> {
    match t.kind {
        TriggerKind::Timer { fire_date, recurrence } => seq![
            "    Type: Timer"@,
            "    Is Enabled: "@ + bool_text(t.is_enabled),
            "    Last Fire Date (UTC): "@ + date_of(t.last_fire_date as int),
            "    Next Fire Date (UTC): "@ + date_of(fire_date as int),
            "    Recurrence: "@ + duration_of(recurrence as int),
        ],
        TriggerKind::Event { activation_state, executes_once, events, end_events } => seq![
            "    Type: Event"@,
            "    Is Enabled: "@ + bool_text(t.is_enabled),
            "    Last Fire Date (UTC): "@ + date_of(t.last_fire_date as int),
            "    Activation State: "@ + activation_text(activation_state),
            "    Executes Once: "@ + bool_text(executes_once),
            "    Events: ("@ + decimal(events@.len()) + ")"@,
        ] + events_lines(events@) + seq!["    End Events: ("@ + decimal(end_events@.len()) + ")"@]
            + events_lines(end_events@),
    }
}

/// The lines that list a trigger's action sets.
pub open spec fn action_sets_lines(sets: Seq<EntityRef>) -> Seq<Seq<char>> {
    seq!["    Action Sets: ("@ + decimal(sets.len()) + ")"@] + sets.map_values(|e: EntityRef| action_set_line(e@))
}

/// The lines that show a trigger: its header, what its kind adds, then its
/// action sets.
pub open spec fn trigger_lines(t: Trigger) -> Seq<Seq<char>> {
    seq!["  Trigger: "@ + t.name@, "    UUID: "@ + t.uuid@] + trigger_kind_lines(t) + action_sets_lines(t.action_sets@)
}

fn push_events(r: &mut Vec<String>, es: &Vec<Event>)
    ensures
        text_views(final(r)@) == text_views(old(r)@) + events_lines(es@),
{
    let ghost start = text_views(r@);
    let mut i: usize = 0;
    while i < es.len()
        invariant
            i <= es@.len(),
            text_views(r@) == start + events_lines(es@.subrange(0, i as int)),
        decreases es@.len() - i,
    {
        let lines = print_event(&es[i]);
        let ghost before = text_views(r@);
        let mut k: usize = 0;
        while k < lines.len()
            invariant
                k <= lines@.len(),
                text_views(r@) == before + text_views(lines@.subrange(0, k as int)),
            decreases lines@.len() - k,
        {
            let ghost b2 = text_views(r@);
            r.push(lines[k].clone());
            k = k + 1;
            assert(text_views(r@) =~= before + text_views(lines@.subrange(0, k as int))) by {
                assert(text_views(r@) =~= b2.push(lines@[k - 1]@));
                assert(text_views(lines@.subrange(0, k as int)) =~= text_views(lines@.subrange(0, k - 1)).push(lines@[k - 1]@));
            }
        }
        assert(lines@.subrange(0, k as int) =~= lines@);
        proof {
            let s = es@.subrange(0, i + 1);
            assert(s.drop_last() =~= es@.subrange(0, i as int));
            assert(s.last() == es@[i as int]);
        }
        i = i + 1;
        assert(text_views(r@) =~= start + events_lines(es@.subrange(0, i as int)));
    }
    assert(es@.subrange(0, i as int) =~= es@);
}

fn count_line(prefix: &str, n: usize) -> (r: String)
    ensures
        r@ == prefix@ + decimal(n as nat) + ")"@,
{
    let mut s = cat(prefix, u64_text(n as u64).as_str());
    s.append(")");
    s
}

fn push_action_sets(r: &mut Vec<String>, sets: &Vec<EntityRef>)
    ensures
        text_views(final(r)@) == text_views(old(r)@) + action_sets_lines(sets@),
{
    let ghost start = text_views(r@);
    r.push(count_line("    Action Sets: (", sets.len()));
    let mut i: usize = 0;
    while i < sets.len()
        invariant
            i <= sets@.len(),
            text_views(r@) == start + (seq!["    Action Sets: ("@ + decimal(sets@.len()) + ")"@]
                + sets@.subrange(0, i as int).map_values(|e: EntityRef| action_set_line(e@))),
        decreases sets@.len() - i,
    {
        let mut line = cat("      Action Set: ", sets[i].name.as_str());
        line.append(" (");
        line.append(sets[i].uuid.as_str());
        line.append(")");
        assert(line@ == action_set_line(sets@[i as int]@));
        let ghost b = text_views(r@);
        r.push(line);
        assert(text_views(r@) =~= b.push(line@));
        assert(sets@.subrange(0, i + 1).map_values(|e: EntityRef| action_set_line(e@))
            =~= sets@.subrange(0, i as int).map_values(|e: EntityRef| action_set_line(e@)).push(line@));
        i = i + 1;
        assert(text_views(r@) =~= start + (seq!["    Action Sets: ("@ + decimal(sets@.len()) + ")"@]
            + sets@.subrange(0, i as int).map_values(|e: EntityRef| action_set_line(e@))));
    }
    assert(sets@.subrange(0, i as int) =~= sets@);
}

/// The lines that show a timer or event trigger.
pub fn print_trigger(t: &Trigger) -> (r: Vec<String>)
    ensures
        text_views(r@) == trigger_lines(*t),
{
    let mut r: Vec<String> = Vec::new();
    r.push(cat("  Trigger: ", t.name.as_str()));
    r.push(cat("    UUID: ", t.uuid.as_str()));
    let ghost head = text_views(r@);
    assert(head =~= seq!["  Trigger: "@ + t.name@, "    UUID: "@ + t.uuid@]);
    match &t.kind {
        TriggerKind::Timer { fire_date, recurrence } => {
            r.push("    Type: Timer".to_owned());
            r.push(cat("    Is Enabled: ", bool_str(t.is_enabled)));
            r.push(date_line("    Last Fire Date (UTC): ", t.last_fire_date));
            r.push(date_line("    Next Fire Date (UTC): ", *fire_date));
            let line = if *recurrence <= i64::MAX as u64 {
                duration_line("    Recurrence: ", *recurrence as i64)
            } else {
                cat("    Recurrence: ", "<out of range>")
            };
            r.push(line);
            assert(text_views(r@) =~= head + trigger_kind_lines(*t));
        },
        TriggerKind::Event { activation_state, executes_once, events, end_events } => {
            r.push("    Type: Event".to_owned());
            r.push(cat("    Is Enabled: ", bool_str(t.is_enabled)));
            r.push(date_line("    Last Fire Date (UTC): ", t.last_fire_date));
            r.push(cat("    Activation State: ", activation_state.name()));
            r.push(cat("    Executes Once: ", bool_str(*executes_once)));
            r.push(count_line("    Events: (", events.len()));
            let ghost a = text_views(r@);
            push_events(&mut r, events);
            let ghost b = text_views(r@);
            r.push(count_line("    End Events: (", end_events.len()));
            let ghost c = text_views(r@);
            push_events(&mut r, end_events);
            proof {
                let six = seq![
                    "    Type: Event"@,
                    "    Is Enabled: "@ + bool_text(t.is_enabled),
                    "    Last Fire Date (UTC): "@ + date_of(t.last_fire_date as int),
                    "    Activation State: "@ + activation_text(*activation_state),
                    "    Executes Once: "@ + bool_text(*executes_once),
                    "    Events: ("@ + decimal(events@.len()) + ")"@,
                ];
                assert(a =~= head + six);
                let end_line = seq!["    End Events: ("@ + decimal(end_events@.len()) + ")"@];
                assert(c =~= b + end_line);
                assert(text_views(r@) =~= head + (six + events_lines(events@) + end_line + events_lines(end_events@)));
            }
        },
    }
    let ghost before = text_views(r@);
    push_action_sets(&mut r, &t.action_sets);
    assert(text_views(r@) =~= trigger_lines(*t));
    r
}

/// The name of a service type.
pub open spec fn service_type_text(t: ServiceType) -> Seq<char> {
    match t {
        ServiceType::InvalidServiceType => "InvalidServiceType"@,
        ServiceType::LightBulb => "LightBulb"@,
        ServiceType::LightSensor => "LightSensor"@,
        ServiceType::Switch => "Switch"@,
        ServiceType::Battery => "Battery"@,
        ServiceType::Outlet => "Outlet"@,
        ServiceType::StatefulProgrammableSwitch => "StatefulProgrammableSwitch"@,
        ServiceType::StatelessProgrammableSwitch => "StatelessProgrammableSwitch"@,
        ServiceType::AirPurifier => "AirPurifier"@,
        ServiceType::AirQualitySensor => "AirQualitySensor"@,
        ServiceType::CarbonDioxideSensor => "CarbonDioxideSensor"@,
        ServiceType::CarbonMonoxideSensor => "CarbonMonoxideSensor"@,
        ServiceType::SmokeSensor => "SmokeSensor"@,
        ServiceType::HeaterCooler => "HeaterCooler"@,
        ServiceType::TemperatureSensor => "TemperatureSensor"@,
        ServiceType::Thermostat => "Thermostat"@,
        ServiceType::Fan => "Fan"@,
        ServiceType::FilterMaintenance => "FilterMaintenance"@,
        ServiceType::HumidifierDehumidifier => "HumidifierDehumidifier"@,
        ServiceType::HumiditySensor => "HumiditySensor"@,
        ServiceType::VentilationFan => "VentilationFan"@,
        ServiceType::Window => "Window"@,
        ServiceType::WindowCovering => "WindowCovering"@,
        ServiceType::Slats => "Slats"@,
        ServiceType::Faucet => "Faucet"@,
        ServiceType::Valve => "Valve"@,
        ServiceType::IrrigationSystem => "IrrigationSystem"@,
        ServiceType::LeakSensor => "LeakSensor"@,
        ServiceType::Door => "Door"@,
        ServiceType::Doorbell => "Doorbell"@,
        ServiceType::GarageDoorOpener => "GarageDoorOpener"@,
        ServiceType::LockManagement => "LockManagement"@,
        ServiceType::LockMechanism => "LockMechanism"@,
        ServiceType::MotionSensor => "MotionSensor"@,
        ServiceType::OccupancySensor => "OccupancySensor"@,
        ServiceType::SecuritySystem => "SecuritySystem"@,
        ServiceType::ContactSensor => "ContactSensor"@,
        ServiceType::CameraControl => "CameraControl"@,
        ServiceType::CameraRtpStreamManagement => "CameraRtpStreamManagement"@,
        ServiceType::Microphone => "Microphone"@,
        ServiceType::Speaker => "Speaker"@,
        ServiceType::Label => "Label"@,
        ServiceType::AccessoryInformation => "AccessoryInformation"@,
    }
}

impl ServiceType {
    /// The name of this value.
    pub fn name(&self) -> (r: &'static str)
        ensures
            r@ == service_type_text(*self),
    {
        match self {
            ServiceType::InvalidServiceType => "InvalidServiceType",
            ServiceType::LightBulb => "LightBulb",
            ServiceType::LightSensor => "LightSensor",
            ServiceType::Switch => "Switch",
            ServiceType::Battery => "Battery",
            ServiceType::Outlet => "Outlet",
            ServiceType::StatefulProgrammableSwitch => "StatefulProgrammableSwitch",
            ServiceType::StatelessProgrammableSwitch => "StatelessProgrammableSwitch",
            ServiceType::AirPurifier => "AirPurifier",
            ServiceType::AirQualitySensor => "AirQualitySensor",
            ServiceType::CarbonDioxideSensor => "CarbonDioxideSensor",
            ServiceType::CarbonMonoxideSensor => "CarbonMonoxideSensor",
            ServiceType::SmokeSensor => "SmokeSensor",
            ServiceType::HeaterCooler => "HeaterCooler",
            ServiceType::TemperatureSensor => "TemperatureSensor",
            ServiceType::Thermostat => "Thermostat",
            ServiceType::Fan => "Fan",
            ServiceType::FilterMaintenance => "FilterMaintenance",
            ServiceType::HumidifierDehumidifier => "HumidifierDehumidifier",
            ServiceType::HumiditySensor => "HumiditySensor",
            ServiceType::VentilationFan => "VentilationFan",
            ServiceType::Window => "Window",
            ServiceType::WindowCovering => "WindowCovering",
            ServiceType::Slats => "Slats",
            ServiceType::Faucet => "Faucet",
            ServiceType::Valve => "Valve",
            ServiceType::IrrigationSystem => "IrrigationSystem",
            ServiceType::LeakSensor => "LeakSensor",
            ServiceType::Door => "Door",
            ServiceType::Doorbell => "Doorbell",
            ServiceType::GarageDoorOpener => "GarageDoorOpener",
            ServiceType::LockManagement => "LockManagement",
            ServiceType::LockMechanism => "LockMechanism",
            ServiceType::MotionSensor => "MotionSensor",
            ServiceType::OccupancySensor => "OccupancySensor",
            ServiceType::SecuritySystem => "SecuritySystem",
            ServiceType::ContactSensor => "ContactSensor",
            ServiceType::CameraControl => "CameraControl",
            ServiceType::CameraRtpStreamManagement => "CameraRtpStreamManagement",
            ServiceType::Microphone => "Microphone",
            ServiceType::Speaker => "Speaker",
            ServiceType::Label => "Label",
            ServiceType::AccessoryInformation => "AccessoryInformation",
        }
    }
}

/// The name of a value format.
pub open spec fn format_text(t: Format) -> Seq<char> {
    match t {
        Format::Invalid => "Invalid"@,
        Format::Bool => "Bool"@,
        Format::Int => "Int"@,
        Format::Float => "Float"@,
        Format::String => "String"@,
        Format::Array => "Array"@,
        Format::Dictionary => "Dictionary"@,
        Format::UInt8 => "UInt8"@,
        Format::UInt16 => "UInt16"@,
        Format::UInt32 => "UInt32"@,
        Format::UInt64 => "UInt64"@,
        Format::Data => "Data"@,
        Format::Tlv8 => "Tlv8"@,
    }
}

impl Format {
    /// The name of this value.
    pub fn name(&self) -> (r: &'static str)
        ensures
            r@ == format_text(*self),
    {
        match self {
            Format::Invalid => "Invalid",
            Format::Bool => "Bool",
            Format::Int => "Int",
            Format::Float => "Float",
            Format::String => "String",
            Format::Array => "Array",
            Format::Dictionary => "Dictionary",
            Format::UInt8 => "UInt8",
            Format::UInt16 => "UInt16",
            Format::UInt32 => "UInt32",
            Format::UInt64 => "UInt64",
            Format::Data => "Data",
            Format::Tlv8 => "Tlv8",
        }
    }
}

/// The name of a unit.
pub open spec fn units_text(t: Units) -> Seq<char> {
    match t {
        Units::Unitless => "Unitless"@,
        Units::Celsius => "Celsius"@,
        Units::Fahrenheit => "Fahrenheit"@,
        Units::Percentage => "Percentage"@,
        Units::ArcDegrees => "ArcDegrees"@,
        Units::Seconds => "Seconds"@,
        Units::Lux => "Lux"@,
        Units::PartsPerMillion => "PartsPerMillion"@,
        Units::MicrogramsPerCubicMeter => "MicrogramsPerCubicMeter"@,
    }
}

impl Units {
    /// The name of this value.
    pub fn name(&self) -> (r: &'static str)
        ensures
            r@ == units_text(*self),
    {
        match self {
            Units::Unitless => "Unitless",
            Units::Celsius => "Celsius",
            Units::Fahrenheit => "Fahrenheit",
            Units::Percentage => "Percentage",
            Units::ArcDegrees => "ArcDegrees",
            Units::Seconds => "Seconds",
            Units::Lux => "Lux",
            Units::PartsPerMillion => "PartsPerMillion",
            Units::MicrogramsPerCubicMeter => "MicrogramsPerCubicMeter",
        }
    }
}

/// The name of a characteristic property.
pub open spec fn property_text(t: CharacteristicProperty) -> Seq<char> {
    match t {
        CharacteristicProperty::Readable => "Readable"@,
        CharacteristicProperty::Writable => "Writable"@,
        CharacteristicProperty::SupportsNotification => "SupportsNotification"@,
        CharacteristicProperty::Hidden => "Hidden"@,
    }
}

impl CharacteristicProperty {
    /// The name of this value.
    pub fn name(&self) -> (r: &'static str)
        ensures
            r@ == property_text(*self),
    {
        match self {
            CharacteristicProperty::Readable => "Readable",
            CharacteristicProperty::Writable => "Writable",
            CharacteristicProperty::SupportsNotification => "SupportsNotification",
            CharacteristicProperty::Hidden => "Hidden",
        }
    }
}

/// `n` spaces.
pub open spec fn spaces(n: nat) -> Seq<char> {
    Seq::new(n, |i: int| ' ')
}

fn indentation(n: usize) -> (r: String)
    ensures
        r@ == spaces(n as nat),
{
    let mut s = String::new();
    let mut i: usize = 0;
    while i < n
        invariant
            i <= n,
            s@ == spaces(i as nat),
        decreases n - i,
    {
        s.append(" ");
        i = i + 1;
        proof {
            reveal_strlit(" ");
        }
        assert(s@ =~= spaces(i as nat));
    }
    s
}

/// The names of properties, separated by commas.
pub open spec fn properties_text(ps: Seq<CharacteristicProperty>) -> Seq<char>
    decreases ps.len(),
{
    if ps.len() == 0 {
        Seq::empty()
    } else if ps.len() == 1 {
        property_text(ps[0])
    } else {
        properties_text(ps.drop_last()) + ", "@ + property_text(ps.last())
    }
}

fn properties_string(ps: &Vec<CharacteristicProperty>) -> (r: String)
    ensures
        r@ == properties_text(ps@),
{
    let mut s = String::new();
    let mut i: usize = 0;
    while i < ps.len()
        invariant
            i <= ps@.len(),
            s@ == properties_text(ps@.subrange(0, i as int)),
        decreases ps@.len() - i,
    {
        if i > 0 {
            s.append(", ");
        }
        s.append(ps[i].name());
        proof {
            let t = ps@.subrange(0, i + 1);
            assert(t.drop_last() =~= ps@.subrange(0, i as int));
            assert(t.last() == ps@[i as int]);
            if i == 0 {
                assert(s@ =~= property_text(t[0]));
            }
        }
        i = i + 1;
    }
    assert(ps@.subrange(0, i as int) =~= ps@);
    s
}

/// The lines that list valid values; none when there are none.
pub open spec fn valid_values_lines(vs: Seq<SampledValue>, p: Seq<char>) -> Seq<Seq<char>> {
    if vs.len() == 0 {
        Seq::empty()
    } else {
        seq![p + "    Valid Values: ("@ + decimal(vs.len()) + ")"@] + vs.map_values(|v: SampledValue| p + "      "@ + value_text(v@))
    }
}

/// One line for a number that is there, none otherwise.
pub open spec fn optional_number_lines(o: Option<Number>, p: Seq<char>, label: Seq<char>) -> Seq<Seq<char>> {
    match o {
        Some(n) => seq![p + label + number_text(n)],
        None => Seq::empty(),
    }
}

/// The lines that show a characteristic's metadata.
pub open spec fn metadata_lines(m: Metadata, p: Seq<char>) -> Seq<Seq<char>> {
    seq![p + "  Metadata:"@, p + "    Manufacturer Description: "@ + m.manufacturer_description@]
        + valid_values_lines(m.valid_values@, p)
        + optional_number_lines(m.minimum_value, p, "    Minimum: "@)
        + optional_number_lines(m.maximum_value, p, "    Maximum: "@)
        + optional_number_lines(m.step_value, p, "    Step: "@)
        + seq![p + "    Format: "@ + format_text(m.format), p + "    Units: "@ + units_text(m.units)]
}

fn push_valid_values(r: &mut Vec<String>, vs: &Vec<SampledValue>, p: &String)
    ensures
        text_views(final(r)@) == text_views(old(r)@) + valid_values_lines(vs@, p@),
{
    let ghost start = text_views(r@);
    if vs.len() == 0 {
        assert(text_views(r@) =~= start + valid_values_lines(vs@, p@));
        return;
    }
    let mut head = line2(p, "    Valid Values: (", u64_text(vs.len() as u64).as_str());
    head.append(")");
    push_line(r, head);
    let ghost mark_b = text_views(r@);
    let mut i: usize = 0;
    while i < vs.len()
        invariant
            i <= vs@.len(),
            text_views(r@) == mark_b + vs@.subrange(0, i as int).map_values(|v: SampledValue| p@ + "      "@ + value_text(v@)),
        decreases vs@.len() - i,
    {
        let l = line2(p, "      ", value_string(&vs[i]).as_str());
        push_line(r, l);
        assert(vs@.subrange(0, i + 1).map_values(|v: SampledValue| p@ + "      "@ + value_text(v@))
            =~= vs@.subrange(0, i as int).map_values(|v: SampledValue| p@ + "      "@ + value_text(v@)).push(l@));
        i = i + 1;
    }
    assert(vs@.subrange(0, i as int) =~= vs@);
    assert(text_views(r@) =~= start + valid_values_lines(vs@, p@));
}

fn push_optional_number(r: &mut Vec<String>, o: Option<Number>, p: &String, label: &str)
    ensures
        text_views(final(r)@) == text_views(old(r)@) + optional_number_lines(o, p@, label@),
{
    let ghost start = text_views(r@);
    if let Some(n) = o {
        push_line(r, line2(p, label, number_string(n).as_str()));
    }
    assert(text_views(r@) =~= start + optional_number_lines(o, p@, label@));
}

fn push_metadata(r: &mut Vec<String>, m: &Metadata, p: &String)
    ensures
        text_views(final(r)@) == text_views(old(r)@) + metadata_lines(*m, p@),
{
    let ghost start = text_views(r@);
    push_line(r, line(p, "  Metadata:"));
    push_line(r, line2(p, "    Manufacturer Description: ", m.manufacturer_description.as_str()));
    let ghost mark_a = text_views(r@);
    push_valid_values(r, &m.valid_values, p);
    let ghost mark_b = text_views(r@);
    push_optional_number(r, m.minimum_value, p, "    Minimum: ");
    let ghost mark_c = text_views(r@);
    push_optional_number(r, m.maximum_value, p, "    Maximum: ");
    let ghost mark_d = text_views(r@);
    push_optional_number(r, m.step_value, p, "    Step: ");
    let ghost mark_e = text_views(r@);
    push_line(r, line2(p, "    Format: ", m.format.name()));
    push_line(r, line2(p, "    Units: ", m.units.name()));
    assert(text_views(r@) =~= start + metadata_lines(*m, p@));
}

/// The lines that show a characteristic, each after the prefix `p`.
pub open spec fn characteristic_info_lines(c: Characteristic, p: Seq<char>) -> Seq<Seq<char>> {
    seq![
        p + "Characteristic: "@ + c.uuid@,
        p + "  Description: "@ + c.description@,
        p + "  Properties: "@ + properties_text(c.properties@),
        p + "  Type: "@ + decimal(c.characteristic_type as nat),
    ]
        + (match c.metadata { Some(m) => metadata_lines(m, p), None => Seq::empty() })
        + (match c.value { Some(v) => seq![p + "  Last Value: "@ + value_text(v@)], None => Seq::empty() })
}

fn line(p: &String, rest: &str) -> (r: String)
    ensures
        r@ == p@ + rest@,
{
    cat(p.as_str(), rest)
}

fn line2(p: &String, a: &str, b: &str) -> (r: String)
    ensures
        r@ == p@ + a@ + b@,
{
    let mut s = cat(p.as_str(), a);
    s.append(b);
    s
}

fn push_line(r: &mut Vec<String>, l: String)
    ensures
        text_views(final(r)@) == text_views(old(r)@).push(l@),
{
    r.push(l);
    assert(text_views(final(r)@) =~= text_views(old(r)@).push(l@));
}

/// The lines that show a characteristic, indented by `indent` spaces.
pub fn print_characteristic(c: &Characteristic, indent: usize) -> (r: Vec<String>)
    ensures
        text_views(r@) == characteristic_info_lines(*c, spaces(indent as nat)),
{
    let p = indentation(indent);
    let mut r: Vec<String> = Vec::new();
    push_line(&mut r, line2(&p, "Characteristic: ", c.uuid.as_str()));
    push_line(&mut r, line2(&p, "  Description: ", c.description.as_str()));
    push_line(&mut r, line2(&p, "  Properties: ", properties_string(&c.properties).as_str()));
    push_line(&mut r, line2(&p, "  Type: ", u64_text(c.characteristic_type as u64).as_str()));
    let ghost mark_a = text_views(r@);
    if let Some(m) = &c.metadata {
        push_metadata(&mut r, m, &p);
    }
    let ghost mark_b = text_views(r@);
    if let Some(v) = &c.value {
        push_line(&mut r, line2(&p, "  Last Value: ", value_string(v).as_str()));
    }
    proof {
        let mdl = match &c.metadata { Some(m) => metadata_lines(*m, p@), None => Seq::<Seq<char>>::empty() };
        assert(mark_b =~= mark_a + mdl);
    }
    assert(text_views(r@) =~= characteristic_info_lines(*c, spaces(indent as nat)));
    r
}

/// The lines of a run of characteristics, one after the other.
pub open spec fn characteristics_lines(cs: Seq<Characteristic>, p: Seq<char>) -> Seq<Seq<char>>
    decreases cs.len(),
{
    if cs.len() == 0 {
        Seq::empty()
    } else {
        characteristics_lines(cs.drop_last(), p) + characteristic_info_lines(cs.last(), p)
    }
}

/// The lines that show a service, then its characteristics four spaces
/// further in.
pub open spec fn service_lines(s: Service, indent: nat) -> Seq<Seq<char>> {
    let p = spaces(indent);
    seq![
        p + "Service: "@ + s.name@,
        p + "  UUID: "@ + s.uuid@,
        p + "  Is Primary: "@ + bool_text(s.is_primary),
        p + "  Is Interactive: "@ + bool_text(s.is_interactive),
        p + "  Service Type: "@ + service_type_text(s.service_type),
        p + "  Associated Service Type: "@ + s.associated_service_type@,
        p + "  Characteristics: ("@ + decimal(s.characteristics@.len()) + ")"@,
    ] + characteristics_lines(s.characteristics@, spaces(indent + 4))
}

/// The lines that show a service, indented by `indent` spaces.
pub fn print_service(s: &Service, indent: usize) -> (r: Vec<String>)
    requires
        indent + 4 <= usize::MAX,
    ensures
        text_views(r@) == service_lines(*s, indent as nat),
{
    let p = indentation(indent);
    let mut r: Vec<String> = Vec::new();
    push_line(&mut r, line2(&p, "Service: ", s.name.as_str()));
    push_line(&mut r, line2(&p, "  UUID: ", s.uuid.as_str()));
    push_line(&mut r, line2(&p, "  Is Primary: ", bool_str(s.is_primary)));
    push_line(&mut r, line2(&p, "  Is Interactive: ", bool_str(s.is_interactive)));
    push_line(&mut r, line2(&p, "  Service Type: ", s.service_type.name()));
    push_line(&mut r, line2(&p, "  Associated Service Type: ", s.associated_service_type.as_str()));
    let mut head = line2(&p, "  Characteristics: (", u64_text(s.characteristics.len() as u64).as_str());
    head.append(")");
    push_line(&mut r, head);
    let ghost start = text_views(r@);
    let mut i: usize = 0;
    while i < s.characteristics.len()
        invariant
            i <= s.characteristics@.len(),
            indent + 4 <= usize::MAX,
            text_views(r@) == start + characteristics_lines(s.characteristics@.subrange(0, i as int), spaces((indent + 4) as nat)),
        decreases s.characteristics@.len() - i,
    {
        let lines = print_characteristic(&s.characteristics[i], indent + 4);
        let ghost before = text_views(r@);
        let mut k: usize = 0;
        while k < lines.len()
            invariant
                k <= lines@.len(),
                text_views(r@) == before + text_views(lines@.subrange(0, k as int)),
            decreases lines@.len() - k,
        {
            let ghost b2 = text_views(r@);
            r.push(lines[k].clone());
            k = k + 1;
            assert(text_views(r@) =~= before + text_views(lines@.subrange(0, k as int))) by {
                assert(text_views(r@) =~= b2.push(lines@[k - 1]@));
                assert(text_views(lines@.subrange(0, k as int)) =~= text_views(lines@.subrange(0, k - 1)).push(lines@[k - 1]@));
            }
        }
        assert(lines@.subrange(0, k as int) =~= lines@);
        proof {
            let t = s.characteristics@.subrange(0, i + 1);
            assert(t.drop_last() =~= s.characteristics@.subrange(0, i as int));
            assert(t.last() == s.characteristics@[i as int]);
        }
        i = i + 1;
        assert(text_views(r@) =~= start + characteristics_lines(s.characteristics@.subrange(0, i as int), spaces((indent + 4) as nat)));
    }
    assert(s.characteristics@.subrange(0, i as int) =~= s.characteristics@);
    assert(text_views(r@) =~= service_lines(*s, indent as nat));
    r
}

/// The name of an accessory category.
pub open spec fn category_text(c: Category) -> Seq<char> {
    match c {
        Category::Invalid => "Invalid"@,
        Category::Other => "Other"@,
        Category::SecuritySystem => "SecuritySystem"@,
        Category::Bridge => "Bridge"@,
        Category::Door => "Door"@,
        Category::DoorLock => "DoorLock"@,
        Category::Fan => "Fan"@,
        Category::GarageDoorOpener => "GarageDoorOpener"@,
        Category::IpCamera => "IpCamera"@,
        Category::LightBulb => "LightBulb"@,
        Category::Outlet => "Outlet"@,
        Category::ProgrammableSwitch => "ProgrammableSwitch"@,
        Category::RangeExtender => "RangeExtender"@,
        Category::Sensor => "Sensor"@,
        Category::Switch => "Switch"@,
        Category::Thermostat => "Thermostat"@,
        Category::VideoDoorbell => "VideoDoorbell"@,
        Category::Window => "Window"@,
        Category::WindowCovering => "WindowCovering"@,
        Category::AirPurifier => "AirPurifier"@,
        Category::AirHeater => "AirHeater"@,
        Category::AirConditioner => "AirConditioner"@,
        Category::AirHumidifier => "AirHumidifier"@,
        Category::AirDehumidifier => "AirDehumidifier"@,
        Category::Sprinkler => "Sprinkler"@,
        Category::Faucet => "Faucet"@,
        Category::ShowerHead => "ShowerHead"@,
    }
}

impl Category {
    /// The name of this value.
    pub fn name(&self) -> (r: &'static str)
        ensures
            r@ == category_text(*self),
    {
        match self {
            Category::Invalid => "Invalid",
            Category::Other => "Other",
            Category::SecuritySystem => "SecuritySystem",
            Category::Bridge => "Bridge",
            Category::Door => "Door",
            Category::DoorLock => "DoorLock",
            Category::Fan => "Fan",
            Category::GarageDoorOpener => "GarageDoorOpener",
            Category::IpCamera => "IpCamera",
            Category::LightBulb => "LightBulb",
            Category::Outlet => "Outlet",
            Category::ProgrammableSwitch => "ProgrammableSwitch",
            Category::RangeExtender => "RangeExtender",
            Category::Sensor => "Sensor",
            Category::Switch => "Switch",
            Category::Thermostat => "Thermostat",
            Category::VideoDoorbell => "VideoDoorbell",
            Category::Window => "Window",
            Category::WindowCovering => "WindowCovering",
            Category::AirPurifier => "AirPurifier",
            Category::AirHeater => "AirHeater",
            Category::AirConditioner => "AirConditioner",
            Category::AirHumidifier => "AirHumidifier",
            Category::AirDehumidifier => "AirDehumidifier",
            Category::Sprinkler => "Sprinkler",
            Category::Faucet => "Faucet",
            Category::ShowerHead => "ShowerHead",
        }
    }
}

/// The lines that show a profile.
pub open spec fn profile_lines(pr: Profile) -> Seq<Seq<char>> {
    seq![
        "      Profile:"@,
        "        UUID: "@ + pr.uuid@,
        "        Network Restricted: "@ + bool_text(pr.is_network_access_restricted),
        "        Services: ("@ + decimal(pr.services@.len()) + ")"@,
    ] + pr.services@.map_values(|e: EntityRef| "          Service: "@ + e.name@ + " ("@ + e.uuid@ + ")"@)
}

/// The lines of a run of profiles.
pub open spec fn profiles_lines(ps: Seq<Profile>) -> Seq<Seq<char>>
    decreases ps.len(),
{
    if ps.len() == 0 {
        Seq::empty()
    } else {
        profiles_lines(ps.drop_last()) + profile_lines(ps.last())
    }
}

/// The lines of a run of services, six spaces in.
pub open spec fn services_lines(ss: Seq<Service>) -> Seq<Seq<char>>
    decreases ss.len(),
{
    if ss.len() == 0 {
        Seq::empty()
    } else {
        services_lines(ss.drop_last()) + service_lines(ss.last(), 6)
    }
}

/// The lines that show an accessory; a bridge also lists the accessories it
/// bridges.
pub open spec fn accessory_lines(a: Accessory) -> Seq<Seq<char>> {
    seq![
        "  Accessory: "@ + a.name@,
        match a.room {
            Some(r) => "    Room: "@ + r.name@ + " ("@ + r.uuid@ + ")"@,
            None => "    Room: None"@,
        },
        "    UUID: "@ + a.uuid@,
        "    Category: "@ + category_text(a.category),
        "    Model: "@ + a.model@,
        "    Manufacturer: "@ + a.manufacturer@,
        "    Firmware Version: "@ + a.firmware_version@,
        "    Is Reachable: "@ + bool_text(a.is_reachable),
        "    Is Blocked: "@ + bool_text(a.is_blocked),
        "    Is Bridged: "@ + bool_text(a.is_bridged),
        "    Supports Identify: "@ + bool_text(a.supports_identify),
        "    Profiles: ("@ + decimal(a.profiles@.len()) + ")"@,
    ] + profiles_lines(a.profiles@)
        + seq!["    Services: ("@ + decimal(a.services@.len()) + ")"@] + services_lines(a.services@)
        + (if a.category == Category::Bridge {
            seq!["    Bridged Accessories: ("@ + decimal(a.bridged_accessory_uuids@.len()) + ")"@]
                + a.bridged_accessory_uuids@.map_values(|u: String| "      UUID: "@ + u@)
        } else {
            Seq::empty()
        })
}

fn push_all(r: &mut Vec<String>, lines: &Vec<String>)
    ensures
        text_views(final(r)@) == text_views(old(r)@) + text_views(lines@),
{
    let ghost before = text_views(r@);
    let mut k: usize = 0;
    while k < lines.len()
        invariant
            k <= lines@.len(),
            text_views(r@) == before + text_views(lines@.subrange(0, k as int)),
        decreases lines@.len() - k,
    {
        let ghost b2 = text_views(r@);
        r.push(lines[k].clone());
        k = k + 1;
        assert(text_views(r@) =~= before + text_views(lines@.subrange(0, k as int))) by {
            assert(text_views(r@) =~= b2.push(lines@[k - 1]@));
            assert(text_views(lines@.subrange(0, k as int)) =~= text_views(lines@.subrange(0, k - 1)).push(lines@[k - 1]@));
        }
    }
    assert(lines@.subrange(0, k as int) =~= lines@);
}

fn push_profile(r: &mut Vec<String>, pr: &Profile)
    ensures
        text_views(final(r)@) == text_views(old(r)@) + profile_lines(*pr),
{
    let ghost start = text_views(r@);
    push_line(r, "      Profile:".to_owned());
    push_line(r, cat("        UUID: ", pr.uuid.as_str()));
    push_line(r, cat("        Network Restricted: ", bool_str(pr.is_network_access_restricted)));
    push_line(r, count_line("        Services: (", pr.services.len()));
    let ghost mark_a = text_views(r@);
    let mut i: usize = 0;
    while i < pr.services.len()
        invariant
            i <= pr.services@.len(),
            text_views(r@) == mark_a + pr.services@.subrange(0, i as int).map_values(
                |e: EntityRef| "          Service: "@ + e.name@ + " ("@ + e.uuid@ + ")"@),
        decreases pr.services@.len() - i,
    {
        let mut l = cat("          Service: ", pr.services[i].name.as_str());
        l.append(" (");
        l.append(pr.services[i].uuid.as_str());
        l.append(")");
        push_line(r, l);
        assert(pr.services@.subrange(0, i + 1).map_values(|e: EntityRef| "          Service: "@ + e.name@ + " ("@ + e.uuid@ + ")"@)
            =~= pr.services@.subrange(0, i as int).map_values(|e: EntityRef| "          Service: "@ + e.name@ + " ("@ + e.uuid@ + ")"@).push(l@));
        i = i + 1;
    }
    assert(pr.services@.subrange(0, i as int) =~= pr.services@);
    assert(text_views(r@) =~= start + profile_lines(*pr));
}

fn push_profiles(r: &mut Vec<String>, ps: &Vec<Profile>)
    ensures
        text_views(final(r)@) == text_views(old(r)@) + profiles_lines(ps@),
{
    let ghost start = text_views(r@);
    let mut i: usize = 0;
    while i < ps.len()
        invariant
            i <= ps@.len(),
            text_views(r@) == start + profiles_lines(ps@.subrange(0, i as int)),
        decreases ps@.len() - i,
    {
        push_profile(r, &ps[i]);
        proof {
            let t = ps@.subrange(0, i + 1);
            assert(t.drop_last() =~= ps@.subrange(0, i as int));
            assert(t.last() == ps@[i as int]);
        }
        i = i + 1;
        assert(text_views(r@) =~= start + profiles_lines(ps@.subrange(0, i as int)));
    }
    assert(ps@.subrange(0, i as int) =~= ps@);
}

fn push_services(r: &mut Vec<String>, ss: &Vec<Service>)
    ensures
        text_views(final(r)@) == text_views(old(r)@) + services_lines(ss@),
{
    let ghost start = text_views(r@);
    let mut i: usize = 0;
    while i < ss.len()
        invariant
            i <= ss@.len(),
            text_views(r@) == start + services_lines(ss@.subrange(0, i as int)),
        decreases ss@.len() - i,
    {
        let lines = print_service(&ss[i], 6);
        push_all(r, &lines);
        proof {
            let t = ss@.subrange(0, i + 1);
            assert(t.drop_last() =~= ss@.subrange(0, i as int));
            assert(t.last() == ss@[i as int]);
        }
        i = i + 1;
        assert(text_views(r@) =~= start + services_lines(ss@.subrange(0, i as int)));
    }
    assert(ss@.subrange(0, i as int) =~= ss@);
}

fn push_bridged(r: &mut Vec<String>, a: &Accessory)
    ensures
        text_views(final(r)@) == text_views(old(r)@) + (if a.category == Category::Bridge {
            seq!["    Bridged Accessories: ("@ + decimal(a.bridged_accessory_uuids@.len()) + ")"@]
                + a.bridged_accessory_uuids@.map_values(|u: String| "      UUID: "@ + u@)
        } else {
            Seq::empty()
        }),
{
    let ghost start = text_views(r@);
    if a.category == Category::Bridge {
        push_line(r, count_line("    Bridged Accessories: (", a.bridged_accessory_uuids.len()));
        let ghost mark_a = text_views(r@);
        let us = &a.bridged_accessory_uuids;
        let mut i: usize = 0;
        while i < us.len()
            invariant
                i <= us@.len(),
                text_views(r@) == mark_a + us@.subrange(0, i as int).map_values(|u: String| "      UUID: "@ + u@),
            decreases us@.len() - i,
        {
            let l = cat("      UUID: ", us[i].as_str());
            push_line(r, l);
            assert(us@.subrange(0, i + 1).map_values(|u: String| "      UUID: "@ + u@)
                =~= us@.subrange(0, i as int).map_values(|u: String| "      UUID: "@ + u@).push(l@));
            i = i + 1;
        }
        assert(us@.subrange(0, i as int) =~= us@);
    }
    assert(text_views(r@) =~= start + (if a.category == Category::Bridge {
        seq!["    Bridged Accessories: ("@ + decimal(a.bridged_accessory_uuids@.len()) + ")"@]
            + a.bridged_accessory_uuids@.map_values(|u: String| "      UUID: "@ + u@)
    } else {
        Seq::empty()
    }));
}

/// The lines that show an accessory with its profiles, its services and
/// their characteristics, and, for a bridge, the accessories it bridges.
pub fn print_accessory(a: &Accessory) -> (r: Vec<String>)
    ensures
        text_views(r@) == accessory_lines(*a),
{
    let mut r: Vec<String> = Vec::new();
    push_line(&mut r, cat("  Accessory: ", a.name.as_str()));
    match &a.room {
        Some(room) => {
            let mut l = cat("    Room: ", room.name.as_str());
            l.append(" (");
            l.append(room.uuid.as_str());
            l.append(")");
            push_line(&mut r, l);
        },
        None => push_line(&mut r, "    Room: None".to_owned()),
    }
    push_line(&mut r, cat("    UUID: ", a.uuid.as_str()));
    push_line(&mut r, cat("    Category: ", a.category.name()));
    push_line(&mut r, cat("    Model: ", a.model.as_str()));
    push_line(&mut r, cat("    Manufacturer: ", a.manufacturer.as_str()));
    push_line(&mut r, cat("    Firmware Version: ", a.firmware_version.as_str()));
    push_line(&mut r, cat("    Is Reachable: ", bool_str(a.is_reachable)));
    push_line(&mut r, cat("    Is Blocked: ", bool_str(a.is_blocked)));
    push_line(&mut r, cat("    Is Bridged: ", bool_str(a.is_bridged)));
    push_line(&mut r, cat("    Supports Identify: ", bool_str(a.supports_identify)));
    push_line(&mut r, count_line("    Profiles: (", a.profiles.len()));
    push_profiles(&mut r, &a.profiles);
    push_line(&mut r, count_line("    Services: (", a.services.len()));
    push_services(&mut r, &a.services);
    push_bridged(&mut r, a);
    assert(text_views(r@) =~= accessory_lines(*a));
    r
}

} // verus!

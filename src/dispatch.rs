use vstd::prelude::*;
use crate::schema::{Code, EnabledFilter, Operation, ServiceType};

verus! {

/// `s` and `lit` are the same text.
fn text_is(s: &str, lit: &str) -> (r: bool)
    ensures
        r == (s@ == lit@),
{
    s.to_owned() == lit.to_owned()
}

/// The service type that a command-line type name stands for; a name that
/// is not a known type stands for `InvalidServiceType`.
pub open spec fn service_type_named(s: Seq<char>) -> ServiceType {
    if s == "LightBulb"@ { ServiceType::LightBulb }
    else if s == "LightSensor"@ { ServiceType::LightSensor }
    else if s == "Switch"@ { ServiceType::Switch }
    else if s == "Battery"@ { ServiceType::Battery }
    else if s == "Outlet"@ { ServiceType::Outlet }
    else if s == "StatefulProgrammableSwitch"@ { ServiceType::StatefulProgrammableSwitch }
    else if s == "StatelessProgrammableSwitch"@ { ServiceType::StatelessProgrammableSwitch }
    else if s == "AirPurifier"@ { ServiceType::AirPurifier }
    else if s == "AirQualitySensor"@ { ServiceType::AirQualitySensor }
    else if s == "CarbonDioxideSensor"@ { ServiceType::CarbonDioxideSensor }
    else if s == "CarbonMonoxideSensor"@ { ServiceType::CarbonMonoxideSensor }
    else if s == "SmokeSensor"@ { ServiceType::SmokeSensor }
    else if s == "HeaterCooler"@ { ServiceType::HeaterCooler }
    else if s == "TemperatureSensor"@ { ServiceType::TemperatureSensor }
    else if s == "Thermostat"@ { ServiceType::Thermostat }
    else if s == "Fan"@ { ServiceType::Fan }
    else if s == "FilterMaintenance"@ { ServiceType::FilterMaintenance }
    else if s == "HumidifierDehumidifier"@ { ServiceType::HumidifierDehumidifier }
    else if s == "HumiditySensor"@ { ServiceType::HumiditySensor }
    else if s == "VentilationFan"@ { ServiceType::VentilationFan }
    else if s == "Window"@ { ServiceType::Window }
    else if s == "WindowCovering"@ { ServiceType::WindowCovering }
    else if s == "Slats"@ { ServiceType::Slats }
    else if s == "Faucet"@ { ServiceType::Faucet }
    else if s == "Valve"@ { ServiceType::Valve }
    else if s == "IrrigationSystem"@ { ServiceType::IrrigationSystem }
    else if s == "LeakSensor"@ { ServiceType::LeakSensor }
    else if s == "Door"@ { ServiceType::Door }
    else if s == "Doorbell"@ { ServiceType::Doorbell }
    else if s == "GarageDoorOpener"@ { ServiceType::GarageDoorOpener }
    else if s == "LockManagement"@ { ServiceType::LockManagement }
    else if s == "LockMechanism"@ { ServiceType::LockMechanism }
    else if s == "MotionSensor"@ { ServiceType::MotionSensor }
    else if s == "OccupancySensor"@ { ServiceType::OccupancySensor }
    else if s == "SecuritySystem"@ { ServiceType::SecuritySystem }
    else if s == "ContactSensor"@ { ServiceType::ContactSensor }
    else if s == "CameraControl"@ { ServiceType::CameraControl }
    else if s == "CameraRtpStreamManagement"@ { ServiceType::CameraRtpStreamManagement }
    else if s == "Microphone"@ { ServiceType::Microphone }
    else if s == "Speaker"@ { ServiceType::Speaker }
    else if s == "Label"@ { ServiceType::Label }
    else if s == "AccessoryInformation"@ { ServiceType::AccessoryInformation }
    else { ServiceType::InvalidServiceType }
}

/// The service type named `s`.
pub fn servicetype_from_str(s: &str) -> (r: ServiceType)
    ensures
        r == service_type_named(s@),
{
    if text_is(s, "LightBulb") { ServiceType::LightBulb }
    else if text_is(s, "LightSensor") { ServiceType::LightSensor }
    else if text_is(s, "Switch") { ServiceType::Switch }
    else if text_is(s, "Battery") { ServiceType::Battery }
    else if text_is(s, "Outlet") { ServiceType::Outlet }
    else if text_is(s, "StatefulProgrammableSwitch") { ServiceType::StatefulProgrammableSwitch }
    else if text_is(s, "StatelessProgrammableSwitch") { ServiceType::StatelessProgrammableSwitch }
    else if text_is(s, "AirPurifier") { ServiceType::AirPurifier }
    else if text_is(s, "AirQualitySensor") { ServiceType::AirQualitySensor }
    else if text_is(s, "CarbonDioxideSensor") { ServiceType::CarbonDioxideSensor }
    else if text_is(s, "CarbonMonoxideSensor") { ServiceType::CarbonMonoxideSensor }
    else if text_is(s, "SmokeSensor") { ServiceType::SmokeSensor }
    else if text_is(s, "HeaterCooler") { ServiceType::HeaterCooler }
    else if text_is(s, "TemperatureSensor") { ServiceType::TemperatureSensor }
    else if text_is(s, "Thermostat") { ServiceType::Thermostat }
    else if text_is(s, "Fan") { ServiceType::Fan }
    else if text_is(s, "FilterMaintenance") { ServiceType::FilterMaintenance }
    else if text_is(s, "HumidifierDehumidifier") { ServiceType::HumidifierDehumidifier }
    else if text_is(s, "HumiditySensor") { ServiceType::HumiditySensor }
    else if text_is(s, "VentilationFan") { ServiceType::VentilationFan }
    else if text_is(s, "Window") { ServiceType::Window }
    else if text_is(s, "WindowCovering") { ServiceType::WindowCovering }
    else if text_is(s, "Slats") { ServiceType::Slats }
    else if text_is(s, "Faucet") { ServiceType::Faucet }
    else if text_is(s, "Valve") { ServiceType::Valve }
    else if text_is(s, "IrrigationSystem") { ServiceType::IrrigationSystem }
    else if text_is(s, "LeakSensor") { ServiceType::LeakSensor }
    else if text_is(s, "Door") { ServiceType::Door }
    else if text_is(s, "Doorbell") { ServiceType::Doorbell }
    else if text_is(s, "GarageDoorOpener") { ServiceType::GarageDoorOpener }
    else if text_is(s, "LockManagement") { ServiceType::LockManagement }
    else if text_is(s, "LockMechanism") { ServiceType::LockMechanism }
    else if text_is(s, "MotionSensor") { ServiceType::MotionSensor }
    else if text_is(s, "OccupancySensor") { ServiceType::OccupancySensor }
    else if text_is(s, "SecuritySystem") { ServiceType::SecuritySystem }
    else if text_is(s, "ContactSensor") { ServiceType::ContactSensor }
    else if text_is(s, "CameraControl") { ServiceType::CameraControl }
    else if text_is(s, "CameraRtpStreamManagement") { ServiceType::CameraRtpStreamManagement }
    else if text_is(s, "Microphone") { ServiceType::Microphone }
    else if text_is(s, "Speaker") { ServiceType::Speaker }
    else if text_is(s, "Label") { ServiceType::Label }
    else if text_is(s, "AccessoryInformation") { ServiceType::AccessoryInformation }
    else { ServiceType::InvalidServiceType }
}

impl Operation {
    /// `add` adds a room; `rm` and `remove` remove one; anything else is an
    /// `InvalidArgument`.
    pub fn from_str(s: &str) -> (r: Result<Operation, Code>)
        ensures
            s@ == "add"@ ==> r == Ok::<Operation, Code>(Operation::Add),
            (s@ == "rm"@ || s@ == "remove"@) ==> r == Ok::<Operation, Code>(Operation::Remove),
            !(s@ == "add"@ || s@ == "rm"@ || s@ == "remove"@) ==> r == Err::<Operation, Code>(Code::InvalidArgument),
    {
        proof {
            reveal_strlit("add");
            reveal_strlit("rm");
            reveal_strlit("remove");
            assert("add"@.len() != "rm"@.len() && "add"@.len() != "remove"@.len());
        }
        if text_is(s, "add") {
            Ok(Operation::Add)
        } else if text_is(s, "rm") || text_is(s, "remove") {
            Ok(Operation::Remove)
        } else {
            Err(Code::InvalidArgument)
        }
    }
}

/// Reads the `enabled` option: absent or `either` sets no filter, `true`
/// keeps enabled triggers, `false` disabled ones; anything else is an
/// `InvalidArgument`.
pub fn enabled_filter_from_str(s: Option<&str>) -> (r: Result<EnabledFilter, Code>)
    ensures
        s is None ==> r == Ok::<EnabledFilter, Code>(EnabledFilter::NoFilter),
        s matches Some(t) ==> r == (if t@ == "either"@ {
            Ok::<EnabledFilter, Code>(EnabledFilter::NoFilter)
        } else if t@ == "true"@ {
            Ok(EnabledFilter::EnabledOnly)
        } else if t@ == "false"@ {
            Ok(EnabledFilter::DisabledOnly)
        } else {
            Err(Code::InvalidArgument)
        }),
{
    match s {
        None => Ok(EnabledFilter::NoFilter),
        Some(t) => if text_is(t, "either") {
            Ok(EnabledFilter::NoFilter)
        } else if text_is(t, "true") {
            Ok(EnabledFilter::EnabledOnly)
        } else if text_is(t, "false") {
            Ok(EnabledFilter::DisabledOnly)
        } else {
            Err(Code::InvalidArgument)
        },
    }
}

/// The layout of a command-line timestamp, in UTC.
pub const TIMESTAMP_FORMAT: &'static str = "%Y-%m-%d %H:%M:%S";

/// What chrono's `NaiveDateTime::parse_from_str` reads from a text in a
/// layout, as seconds since the Unix epoch taken in UTC.
pub uninterp spec fn parsed_timestamp(s: Seq<char>, layout: Seq<char>) -> Option<int>;

/// Relies on chrono::NaiveDateTime::parse_from_str, read as a UTC time with
/// NaiveDateTime::and_utc and DateTime::timestamp: the result depends on
/// the text and the layout alone.
#[verifier::external_body]
fn parse_utc(s: &str, layout: &str) -> (r: Option<i64>)
    ensures
        match r {
            Some(v) => parsed_timestamp(s@, layout@) == Some(v as int),
            None => parsed_timestamp(s@, layout@) is None,
        },
{
    chrono::NaiveDateTime::parse_from_str(s, layout).ok().map(|dt| dt.and_utc().timestamp())
}

/// The bound that a parsed timestamp gives: a time before the epoch or a
/// text that did not parse is an `InvalidArgument`.
pub open spec fn bound_of(parsed: Option<int>) -> Result<u64, Code> {
    match parsed {
        Some(v) => if 0 <= v <= u64::MAX { Ok(v as u64) } else { Err(Code::InvalidArgument) },
        None => Err(Code::InvalidArgument),
    }
}

/// Turns the result of parsing a timestamp into a time bound.
pub fn timestamp_bound(parsed: Option<i64>) -> (r: Result<u64, Code>)
    ensures
        r == bound_of(match parsed { Some(v) => Some(v as int), None => None }),
{
    match parsed {
        Some(v) => if v >= 0 { Ok(v as u64) } else { Err(Code::InvalidArgument) },
        None => Err(Code::InvalidArgument),
    }
}

/// Reads a `before` or `after` option: absent gives 0, no bound; otherwise
/// the timestamp in `TIMESTAMP_FORMAT`.
pub fn parse_timestamp(s: Option<&str>) -> (r: Result<u64, Code>)
    ensures
        s is None ==> r == Ok::<u64, Code>(0),
        s matches Some(t) ==> r == bound_of(parsed_timestamp(t@, TIMESTAMP_FORMAT@)),
{
    match s {
        None => Ok(0),
        Some(t) => timestamp_bound(parse_utc(t, TIMESTAMP_FORMAT)),
    }
}


/// The client's subcommands.
#[derive(PartialEq, Eq, Structural, Clone, Copy, Debug)]
pub enum Subcommand {
    Homes,
    Rooms,
    Zones,
    Accessories,
    Services,
    ServiceGroups,
    ActionSets,
    Triggers,
    Room,
}

/// The options that the argument parser read; `None` where an option was
/// not given.
pub struct Config {
    pub home: Option<String>,
    pub name: Option<String>,
    pub room: Option<String>,
    pub zone: Option<String>,
    pub types: Vec<String>,
    pub enabled: Option<String>,
    pub before: Option<String>,
    pub after: Option<String>,
    pub operation: Option<String>,
    pub accessories: Vec<String>,
}

/// A request of the service, one variant per operation.
pub enum Request {
    EnumerateHomes { name_filter: String },
    EnumerateRooms { home: String, name_filter: String },
    EnumerateZones { home: String, room_filter: String, name_filter: String },
    EnumerateAccessories { home: String, zone_filter: String, room_filter: String, name_filter: String },
    EnumerateServices { home: String, types: Vec<ServiceType>, name_filter: String },
    EnumerateServiceGroups { home: String, name_filter: String },
    EnumerateActionSets { home: String, name_filter: String },
    EnumerateTriggers { home: String, name_filter: String, enabled_filter: EnabledFilter, before: u64, after: u64 },
    AddRemoveRoom { home: String, name: String, accessories: Vec<String>, operation: Operation },
}

/// The text of an option, or the empty text when it was not given.
pub open spec fn text_or_empty(o: Option<String>) -> Seq<char> {
    match o {
        Some(s) => s@,
        None => Seq::empty(),
    }
}

/// The view of each text, in order.
pub open spec fn text_views(v: Seq<String>) -> Seq<Seq<char>> {
    v.map_values(|s: String| s@)
}

fn text_of(o: &Option<String>) -> (r: String)
    ensures
        r@ == text_or_empty(*o),
{
    match o {
        Some(s) => s.clone(),
        None => String::new(),
    }
}

fn copy_texts(v: &Vec<String>) -> (r: Vec<String>)
    ensures
        text_views(r@) == text_views(v@),
{
    let mut r: Vec<String> = Vec::new();
    let mut i: usize = 0;
    while i < v.len()
        invariant
            i <= v@.len(),
            text_views(r@) == text_views(v@.subrange(0, i as int)),
        decreases v@.len() - i,
    {
        let ghost old_r = r@;
        r.push(v[i].clone());
        proof {
            assert(text_views(r@) =~= text_views(old_r).push(v@[i as int]@));
            assert(text_views(v@.subrange(0, i + 1)) =~= text_views(v@.subrange(0, i as int)).push(v@[i as int]@));
        }
        i = i + 1;
    }
    assert(v@.subrange(0, i as int) =~= v@);
    r
}

fn service_types(v: &Vec<String>) -> (r: Vec<ServiceType>)
    ensures
        r@ == v@.map_values(|s: String| service_type_named(s@)),
{
    let mut r: Vec<ServiceType> = Vec::new();
    let mut i: usize = 0;
    while i < v.len()
        invariant
            i <= v@.len(),
            r@ == v@.subrange(0, i as int).map_values(|s: String| service_type_named(s@)),
        decreases v@.len() - i,
    {
        r.push(servicetype_from_str(v[i].as_str()));
        i = i + 1;
        assert(r@ =~= v@.subrange(0, i as int).map_values(|s: String| service_type_named(s@)));
    }
    assert(v@.subrange(0, i as int) =~= v@);
    r
}

/// The enabled filter that an `enabled` option gives.
pub open spec fn enabled_of(o: Option<String>) -> Result<EnabledFilter, Code> {
    match o {
        None => Ok(EnabledFilter::NoFilter),
        Some(t) => if t@ == "either"@ {
            Ok(EnabledFilter::NoFilter)
        } else if t@ == "true"@ {
            Ok(EnabledFilter::EnabledOnly)
        } else if t@ == "false"@ {
            Ok(EnabledFilter::DisabledOnly)
        } else {
            Err(Code::InvalidArgument)
        },
    }
}

/// The time bound that a `before` or `after` option gives.
pub open spec fn time_bound_of(o: Option<String>) -> Result<u64, Code> {
    match o {
        None => Ok(0),
        Some(t) => bound_of(parsed_timestamp(t@, TIMESTAMP_FORMAT@)),
    }
}

/// The operation that an `operation` option names.
pub open spec fn operation_of(o: Option<String>) -> Result<Operation, Code> {
    match o {
        Some(t) => if t@ == "add"@ {
            Ok(Operation::Add)
        } else if t@ == "rm"@ || t@ == "remove"@ {
            Ok(Operation::Remove)
        } else {
            Err(Code::InvalidArgument)
        },
        None => Err(Code::InvalidArgument),
    }
}

/// Builds the request of a subcommand from the options given. Each filter
/// and name carries its option's text, or the empty text when the option
/// was not given; `homes` lists every home. A malformed `enabled`, `before`,
/// `after` or `operation` option, or a missing `operation`, is an
/// `InvalidArgument`.
pub fn build_request(cmd: Subcommand, cfg: &Config) -> (r: Result<Request, Code>)
    ensures
        match cmd {
            Subcommand::Homes => r matches Ok(Request::EnumerateHomes { name_filter }) && name_filter@.len() == 0,
            Subcommand::Rooms => r matches Ok(Request::EnumerateRooms { home, name_filter })
                && home@ == text_or_empty(cfg.home) && name_filter@ == text_or_empty(cfg.name),
            Subcommand::Zones => r matches Ok(Request::EnumerateZones { home, room_filter, name_filter })
                && home@ == text_or_empty(cfg.home) && room_filter@ == text_or_empty(cfg.room)
                && name_filter@ == text_or_empty(cfg.name),
            Subcommand::Accessories => r matches Ok(Request::EnumerateAccessories { home, zone_filter, room_filter, name_filter })
                && home@ == text_or_empty(cfg.home) && zone_filter@ == text_or_empty(cfg.zone)
                && room_filter@ == text_or_empty(cfg.room) && name_filter@ == text_or_empty(cfg.name),
            Subcommand::Services => r matches Ok(Request::EnumerateServices { home, types, name_filter })
                && home@ == text_or_empty(cfg.home) && name_filter@ == text_or_empty(cfg.name)
                && types@ == cfg.types@.map_values(|s: String| service_type_named(s@)),
            Subcommand::ServiceGroups => r matches Ok(Request::EnumerateServiceGroups { home, name_filter })
                && home@ == text_or_empty(cfg.home) && name_filter@ == text_or_empty(cfg.name),
            Subcommand::ActionSets => r matches Ok(Request::EnumerateActionSets { home, name_filter })
                && home@ == text_or_empty(cfg.home) && name_filter@ == text_or_empty(cfg.name),
            Subcommand::Triggers => match (enabled_of(cfg.enabled), time_bound_of(cfg.before), time_bound_of(cfg.after)) {
                (Ok(f), Ok(b), Ok(a)) => r matches Ok(Request::EnumerateTriggers { home, name_filter, enabled_filter, before, after })
                    && home@ == text_or_empty(cfg.home) && name_filter@ == text_or_empty(cfg.name)
                    && enabled_filter == f && before == b && after == a,
                _ => r == Err::<Request, Code>(Code::InvalidArgument),
            },
            Subcommand::Room => match operation_of(cfg.operation) {
                Ok(op) => r matches Ok(Request::AddRemoveRoom { home, name, accessories, operation })
                    && home@ == text_or_empty(cfg.home) && name@ == text_or_empty(cfg.name)
                    && text_views(accessories@) == text_views(cfg.accessories@) && operation == op,
                Err(c) => r == Err::<Request, Code>(c),
            },
        },
{
    match cmd {
        Subcommand::Homes => Ok(Request::EnumerateHomes { name_filter: String::new() }),
        Subcommand::Rooms => Ok(Request::EnumerateRooms { home: text_of(&cfg.home), name_filter: text_of(&cfg.name) }),
        Subcommand::Zones => Ok(Request::EnumerateZones {
            home: text_of(&cfg.home),
            room_filter: text_of(&cfg.room),
            name_filter: text_of(&cfg.name),
        }),
        Subcommand::Accessories => Ok(Request::EnumerateAccessories {
            home: text_of(&cfg.home),
            zone_filter: text_of(&cfg.zone),
            room_filter: text_of(&cfg.room),
            name_filter: text_of(&cfg.name),
        }),
        Subcommand::Services => Ok(Request::EnumerateServices {
            home: text_of(&cfg.home),
            types: service_types(&cfg.types),
            name_filter: text_of(&cfg.name),
        }),
        Subcommand::ServiceGroups => Ok(Request::EnumerateServiceGroups { home: text_of(&cfg.home), name_filter: text_of(&cfg.name) }),
        Subcommand::ActionSets => Ok(Request::EnumerateActionSets { home: text_of(&cfg.home), name_filter: text_of(&cfg.name) }),
        Subcommand::Triggers => {
            let enabled = match &cfg.enabled {
                Some(t) => enabled_filter_from_str(Some(t.as_str())),
                None => enabled_filter_from_str(None),
            };
            let before = match &cfg.before {
                Some(t) => parse_timestamp(Some(t.as_str())),
                None => parse_timestamp(None),
            };
            let after = match &cfg.after {
                Some(t) => parse_timestamp(Some(t.as_str())),
                None => parse_timestamp(None),
            };
            match (enabled, before, after) {
                (Ok(f), Ok(b), Ok(a)) => Ok(Request::EnumerateTriggers {
                    home: text_of(&cfg.home),
                    name_filter: text_of(&cfg.name),
                    enabled_filter: f,
                    before: b,
                    after: a,
                }),
                _ => Err(Code::InvalidArgument),
            }
        },
        Subcommand::Room => {
            let op = match &cfg.operation {
                Some(t) => Operation::from_str(t.as_str()),
                None => Err(Code::InvalidArgument),
            };
            proof {
                reveal_strlit("add");
                reveal_strlit("rm");
                reveal_strlit("remove");
                assert("add"@.len() != "rm"@.len() && "add"@.len() != "remove"@.len());
            }
            match op {
                Ok(o) => Ok(Request::AddRemoveRoom {
                    home: text_of(&cfg.home),
                    name: text_of(&cfg.name),
                    accessories: copy_texts(&cfg.accessories),
                    operation: o,
                }),
                Err(c) => Err(c),
            }
        },
    }
}

} // verus!

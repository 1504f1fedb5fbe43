use vstd::prelude::*;

verus! {

/// Error kinds reported by the service and the client.
#[derive(PartialEq, Eq, Structural, Clone, Copy, Debug)]
pub enum Code {
    InvalidArgument,
    NotFound,
    AlreadyExists,
    FailedPrecondition,
    Unavailable,
    DeadlineExceeded,
    Internal,
    Transport,
}

/// A numeric payload. The tag is authoritative: the two floating-point
/// variants carry the IEEE-754 bit pattern of the value, so no value is ever
/// widened, narrowed or rounded.
#[derive(PartialEq, Eq, Structural, Clone, Copy, Debug)]
pub enum Number {
    SignedInteger(i64),
    UnsignedInteger(u64),
    FloatBits(u32),
    DoubleBits(u64),
}

/// A sampled characteristic value: exactly one of a boolean, a string, a
/// number or raw bytes.
#[derive(Clone, Debug)]
pub enum SampledValue {
    Bool(bool),
    Text(String),
    Num(Number),
    Data(Vec<u8>),
}

/// The mathematical value of a `SampledValue`.
pub enum SampledValueView {
    Bool(bool),
    Text(Seq<char>),
    Num(Number),
    Data(Seq<u8>),
}

impl View for SampledValue {
    type V = SampledValueView;

    open spec fn view(&self) -> SampledValueView {
        match self {
            SampledValue::Bool(b) => SampledValueView::Bool(*b),
            SampledValue::Text(s) => SampledValueView::Text(s@),
            SampledValue::Num(n) => SampledValueView::Num(*n),
            SampledValue::Data(d) => SampledValueView::Data(d@),
        }
    }
}


/// A minimal descriptor of another entity.
#[derive(Clone, Debug)]
pub struct EntityRef {
    pub uuid: String,
    pub name: String,
}

impl View for EntityRef {
    type V = (Seq<char>, Seq<char>);

    open spec fn view(&self) -> (Seq<char>, Seq<char>) {
        (self.uuid@, self.name@)
    }
}

#[derive(PartialEq, Eq, Structural, Clone, Copy, Debug)]
pub enum HubState {
    Invalid,
    Connected,
    Disconnected,
    NotAvailable,
}

#[derive(Clone, Debug)]
pub struct Home {
    pub uuid: String,
    pub name: String,
    pub is_primary: bool,
    pub hub_state: HubState,
}

#[derive(Clone, Debug)]
pub struct Room {
    pub uuid: String,
    pub name: String,
    pub accessories: Vec<EntityRef>,
}

#[derive(Clone, Debug)]
pub struct Zone {
    pub uuid: String,
    pub name: String,
    pub rooms: Vec<EntityRef>,
}

#[derive(PartialEq, Eq, Structural, Clone, Copy, Debug)]
pub enum Category {
    Invalid,
    Other,
    SecuritySystem,
    Bridge,
    Door,
    DoorLock,
    Fan,
    GarageDoorOpener,
    IpCamera,
    LightBulb,
    Outlet,
    ProgrammableSwitch,
    RangeExtender,
    Sensor,
    Switch,
    Thermostat,
    VideoDoorbell,
    Window,
    WindowCovering,
    AirPurifier,
    AirHeater,
    AirConditioner,
    AirHumidifier,
    AirDehumidifier,
    Sprinkler,
    Faucet,
    ShowerHead,
}

#[derive(PartialEq, Eq, Structural, Clone, Copy, Debug)]
pub enum ServiceType {
    InvalidServiceType,
    LightBulb,
    LightSensor,
    Switch,
    Battery,
    Outlet,
    StatefulProgrammableSwitch,
    StatelessProgrammableSwitch,
    AirPurifier,
    AirQualitySensor,
    CarbonDioxideSensor,
    CarbonMonoxideSensor,
    SmokeSensor,
    HeaterCooler,
    TemperatureSensor,
    Thermostat,
    Fan,
    FilterMaintenance,
    HumidifierDehumidifier,
    HumiditySensor,
    VentilationFan,
    Window,
    WindowCovering,
    Slats,
    Faucet,
    Valve,
    IrrigationSystem,
    LeakSensor,
    Door,
    Doorbell,
    GarageDoorOpener,
    LockManagement,
    LockMechanism,
    MotionSensor,
    OccupancySensor,
    SecuritySystem,
    ContactSensor,
    CameraControl,
    CameraRtpStreamManagement,
    Microphone,
    Speaker,
    Label,
    AccessoryInformation,
}

#[derive(PartialEq, Eq, Structural, Clone, Copy, Debug)]
pub enum CharacteristicProperty {
    Readable,
    Writable,
    SupportsNotification,
    Hidden,
}

#[derive(PartialEq, Eq, Structural, Clone, Copy, Debug)]
pub enum Format {
    Invalid,
    Bool,
    Int,
    Float,
    String,
    Array,
    Dictionary,
    UInt8,
    UInt16,
    UInt32,
    UInt64,
    Data,
    Tlv8,
}

#[derive(PartialEq, Eq, Structural, Clone, Copy, Debug)]
pub enum Units {
    Unitless,
    Celsius,
    Fahrenheit,
    Percentage,
    ArcDegrees,
    Seconds,
    Lux,
    PartsPerMillion,
    MicrogramsPerCubicMeter,
}

#[derive(Clone, Debug)]
pub struct Metadata {
    pub manufacturer_description: String,
    pub valid_values: Vec<SampledValue>,
    pub minimum_value: Option<Number>,
    pub maximum_value: Option<Number>,
    pub step_value: Option<Number>,
    pub format: Format,
    pub units: Units,
}

#[derive(Clone, Debug)]
pub struct Characteristic {
    pub uuid: String,
    pub description: String,
    pub properties: Vec<CharacteristicProperty>,
    /// The provider's numeric code for the kind of characteristic.
    pub characteristic_type: u32,
    pub metadata: Option<Metadata>,
    pub value: Option<SampledValue>,
}

#[derive(Clone, Debug)]
pub struct Service {
    pub uuid: String,
    pub name: String,
    pub is_primary: bool,
    pub is_interactive: bool,
    pub service_type: ServiceType,
    pub associated_service_type: String,
    pub characteristics: Vec<Characteristic>,
}

#[derive(Clone, Debug)]
pub struct Profile {
    pub uuid: String,
    pub is_network_access_restricted: bool,
    pub services: Vec<EntityRef>,
}

#[derive(Clone, Debug)]
pub struct Accessory {
    pub uuid: String,
    pub name: String,
    pub room: Option<EntityRef>,
    pub category: Category,
    pub model: String,
    pub manufacturer: String,
    pub firmware_version: String,
    pub is_reachable: bool,
    pub is_blocked: bool,
    pub is_bridged: bool,
    pub supports_identify: bool,
    pub profiles: Vec<Profile>,
    pub services: Vec<Service>,
    pub bridged_accessory_uuids: Vec<String>,
}

impl Accessory {
    /// Only a bridge lists bridged accessories.
    pub open spec fn bridge_consistent(&self) -> bool {
        self.category != Category::Bridge ==> self.bridged_accessory_uuids@.len() == 0
    }
}

#[derive(Clone, Debug)]
pub struct ServiceGroup {
    pub uuid: String,
    pub name: String,
    pub services: Vec<EntityRef>,
}

#[derive(PartialEq, Eq, Structural, Clone, Copy, Debug)]
pub enum ActionSetType {
    Unknown,
    User,
    HomeArrival,
    HomeDeparture,
    Sleep,
    WakeUp,
    TriggerOwned,
}

#[derive(Clone, Debug)]
pub enum Action {
    Generic { uuid: String },
    Characteristic { uuid: String, characteristic: Characteristic },
}

#[derive(Clone, Debug)]
pub struct ActionSet {
    pub uuid: String,
    pub name: String,
    pub action_set_type: ActionSetType,
    pub is_executing: bool,
    pub actions: Vec<Action>,
}

/// A circular region; the three values are IEEE-754 double bit patterns.
#[derive(PartialEq, Eq, Structural, Clone, Copy, Debug)]
pub struct Region {
    pub latitude_bits: u64,
    pub longitude_bits: u64,
    pub radius_bits: u64,
}

#[derive(Clone, Debug)]
pub struct LocationEvent {
    pub uuid: String,
    pub notify_on_entry: bool,
    pub notify_on_exit: bool,
    pub region: Option<Region>,
}

#[derive(Clone, Debug)]
pub struct CalendarEvent {
    pub uuid: String,
    pub fire_date: u64,
}

#[derive(Clone, Debug)]
pub struct SignificantTimeEvent {
    pub uuid: String,
    pub significant_event: String,
    pub offset: i64,
}

#[derive(Clone, Debug)]
pub struct DurationEvent {
    pub uuid: String,
    pub duration: u64,
}

#[derive(Clone, Debug)]
pub struct CharacteristicEvent {
    pub uuid: String,
    pub characteristic: EntityRef,
    /// `None` means any change.
    pub trigger_value: Option<SampledValue>,
}

#[derive(Clone, Debug)]
pub struct CharacteristicThresholdRangeEvent {
    pub uuid: String,
    pub characteristic: EntityRef,
    pub min_value: Option<Number>,
    pub max_value: Option<Number>,
}

#[derive(PartialEq, Eq, Structural, Clone, Copy, Debug)]
pub enum PresenceEventType {
    Invalid,
    EveryEntry,
    EveryExit,
    FirstEntry,
    LastExit,
}

#[derive(PartialEq, Eq, Structural, Clone, Copy, Debug)]
pub enum PresenceEventUserType {
    Invalid,
    CurrentUser,
    HomeUsers,
    CustomUsers,
}

#[derive(Clone, Debug)]
pub struct PresenceEvent {
    pub uuid: String,
    pub presence_event: PresenceEventType,
    pub presence_user: PresenceEventUserType,
}

#[derive(Clone, Debug)]
pub enum Event {
    Location(LocationEvent),
    Calendar(CalendarEvent),
    SignificantTime(SignificantTimeEvent),
    Duration(DurationEvent),
    Characteristic(CharacteristicEvent),
    CharacteristicThresholdRange(CharacteristicThresholdRangeEvent),
    Presence(PresenceEvent),
}

#[derive(PartialEq, Eq, Structural, Clone, Copy, Debug)]
pub enum ActivationState {
    Disabled,
    Disconnected,
    NoCompatibleHome,
    Enabled,
}

#[derive(Clone, Debug)]
pub enum TriggerKind {
    Event {
        activation_state: ActivationState,
        executes_once: bool,
        events: Vec<Event>,
        end_events: Vec<Event>,
    },
    Timer { fire_date: u64, recurrence: u64 },
}

#[derive(Clone, Debug)]
pub struct Trigger {
    pub uuid: String,
    pub name: String,
    pub is_enabled: bool,
    /// Seconds since the Unix epoch.
    pub last_fire_date: u64,
    pub action_sets: Vec<EntityRef>,
    pub kind: TriggerKind,
}

#[derive(PartialEq, Eq, Structural, Clone, Copy, Debug)]
pub enum EnabledFilter {
    NoFilter,
    EnabledOnly,
    DisabledOnly,
}

#[derive(PartialEq, Eq, Structural, Clone, Copy, Debug)]
pub enum Operation {
    Add,
    Remove,
}

} // verus!

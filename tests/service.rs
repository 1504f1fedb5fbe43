use hkserver::schema::{
    Accessory, Category, Code, EnabledFilter, EntityRef, Home, HubState, Room, Service, ServiceType,
    Trigger, TriggerKind, Zone,
};
use hkserver::service::{HomeContents, HKServer};
use hkserver::filter::{matches_folded, name_filter_matches};

fn home(uuid: &str, name: &str, primary: bool) -> Home {
    Home { uuid: uuid.to_string(), name: name.to_string(), is_primary: primary, hub_state: HubState::Connected }
}

fn eref(uuid: &str, name: &str) -> EntityRef {
    EntityRef { uuid: uuid.to_string(), name: name.to_string() }
}

fn room(uuid: &str, name: &str) -> Room {
    Room { uuid: uuid.to_string(), name: name.to_string(), accessories: vec![] }
}

fn service(uuid: &str, name: &str, t: ServiceType) -> Service {
    Service {
        uuid: uuid.to_string(),
        name: name.to_string(),
        is_primary: false,
        is_interactive: true,
        service_type: t,
        associated_service_type: String::new(),
        characteristics: vec![],
    }
}

fn accessory(uuid: &str, name: &str, room: Option<EntityRef>, category: Category, bridged: Vec<String>) -> Accessory {
    Accessory {
        uuid: uuid.to_string(),
        name: name.to_string(),
        room,
        category,
        model: "M".to_string(),
        manufacturer: "Acme".to_string(),
        firmware_version: "1.0".to_string(),
        is_reachable: true,
        is_blocked: false,
        is_bridged: false,
        supports_identify: true,
        profiles: vec![],
        services: vec![],
        bridged_accessory_uuids: bridged,
    }
}

fn trigger(uuid: &str, name: &str, enabled: bool, last: u64) -> Trigger {
    Trigger {
        uuid: uuid.to_string(),
        name: name.to_string(),
        is_enabled: enabled,
        last_fire_date: last,
        action_sets: vec![],
        kind: TriggerKind::Timer { fire_date: 0, recurrence: 0 },
    }
}

fn empty_contents() -> HomeContents {
    HomeContents { rooms: vec![], zones: vec![], accessories: vec![], service_groups: vec![], action_sets: vec![], triggers: vec![] }
}

fn main_and_cottage() -> HKServer {
    let mut main = empty_contents();
    main.rooms = vec![room("r-1", "Kitchen"), room("r-2", "Living Room")];
    let cottage = empty_contents();
    HKServer { homes: vec![home("h-main", "Main", true), home("h-cottage", "Cottage", false)], contents: vec![main, cottage] }
}

#[test]
fn primary_home_is_selected_by_empty_filter() {
    let p = main_and_cottage();
    let homes = p.enumerate_homes("");
    assert_eq!(homes.len(), 2);
    assert_eq!(homes.iter().filter(|h| h.is_primary).count(), 1);
    let (h, rooms) = p.enumerate_rooms("", "").unwrap();
    assert_eq!(h.name, "Main");
    assert_eq!(rooms.len(), 2);
}

#[test]
fn ambiguous_home_filter_is_invalid_argument() {
    let p = HKServer {
        homes: vec![home("h-a", "Home A", false), home("h-b", "Home B", false)],
        contents: vec![empty_contents(), empty_contents()],
    };
    assert_eq!(p.enumerate_rooms("Home", "").err(), Some(Code::InvalidArgument));
    assert_eq!(p.enumerate_rooms("Garage", "").err(), Some(Code::NotFound));
    assert_eq!(p.enumerate_rooms("", "").err(), Some(Code::NotFound));
    let (h, _) = p.enumerate_rooms("home b", "").unwrap();
    assert_eq!(h.uuid, "h-b");
    let (h, _) = p.enumerate_rooms("H-A", "").unwrap();
    assert_eq!(h.uuid, "h-a");
}

#[test]
fn name_filter_matches_uuid_or_name_ignoring_case() {
    assert!(name_filter_matches("", "u", "n"));
    assert!(name_filter_matches("KITCH", "r-1", "Kitchen"));
    assert!(name_filter_matches("R-1", "r-1", "Kitchen"));
    assert!(!name_filter_matches("r-", "r-1", "Kitchen"));
    assert!(!name_filter_matches("Bath", "r-1", "Kitchen"));
    assert!(matches_folded("itc", "x", "kitchen"));
    assert!(!matches_folded("ITC", "x", "kitchen"));
}

#[test]
fn rooms_are_filtered_by_name() {
    let p = main_and_cottage();
    let (_, rooms) = p.enumerate_rooms("main", "living").unwrap();
    assert_eq!(rooms.len(), 1);
    assert_eq!(rooms[0].uuid, "r-2");
    let (_, rooms) = p.enumerate_rooms("main", "nothing").unwrap();
    assert!(rooms.is_empty());
}

#[test]
fn add_then_remove_room_restores_rooms() {
    let mut p = main_and_cottage();
    let before: Vec<String> = p.enumerate_rooms("Main", "").unwrap().1.iter().map(|r| r.uuid.clone()).collect();
    let (h, r) = p.add_room("Main", "R2", &vec![], "r-new".to_string()).unwrap();
    assert_eq!(h.name, "Main");
    assert_eq!(r.name, "R2");
    assert_eq!(r.uuid, "r-new");
    assert_eq!(p.enumerate_rooms("Main", "").unwrap().1.len(), 3);
    let (_, removed) = p.remove_room("Main", "R2", &vec![]).unwrap();
    assert_eq!(removed.uuid, "r-new");
    let after: Vec<String> = p.enumerate_rooms("Main", "").unwrap().1.iter().map(|r| r.uuid.clone()).collect();
    assert_eq!(before, after);
}

#[test]
fn add_room_errors_leave_home_unchanged() {
    let mut p = main_and_cottage();
    assert_eq!(p.add_room("Main", "Kitchen", &vec![], "x".to_string()).err(), Some(Code::AlreadyExists));
    assert_eq!(p.add_room("Main", "Den", &vec!["nope".to_string()], "x".to_string()).err(), Some(Code::NotFound));
    assert_eq!(p.add_room("Nowhere", "Den", &vec![], "x".to_string()).err(), Some(Code::NotFound));
    assert_eq!(p.enumerate_rooms("Main", "").unwrap().1.len(), 2);
    assert_eq!(p.remove_room("Main", "Den", &vec![]).err(), Some(Code::NotFound));
}

#[test]
fn add_room_assigns_listed_accessories() {
    let mut p = main_and_cottage();
    p.contents[0].accessories = vec![
        accessory("a-1", "Lamp", None, Category::LightBulb, vec![]),
        accessory("a-2", "Fan", Some(eref("r-1", "Kitchen")), Category::Fan, vec![]),
    ];
    p.contents[0].rooms[0].accessories = vec![eref("a-2", "Fan")];
    let (_, r) = p.add_room("Main", "Study", &vec!["a-2".to_string()], "r-s".to_string()).unwrap();
    assert_eq!(r.accessories.len(), 1);
    assert_eq!(r.accessories[0].uuid, "a-2");
    assert!(p.contents[0].accessories[0].room.is_none());
    assert_eq!(p.contents[0].accessories[1].room.as_ref().unwrap().uuid, "r-s");
    assert!(p.contents[0].rooms[0].accessories.is_empty());
    assert_eq!(p.remove_room("Main", "Study", &vec!["a-1".to_string()]).err(), Some(Code::FailedPrecondition));
    let (_, r) = p.remove_room("Main", "r-s", &vec!["a-2".to_string()]).unwrap();
    assert!(r.accessories.is_empty());
    assert!(p.contents[0].accessories[1].room.is_none());
    assert_eq!(p.enumerate_rooms("Main", "").unwrap().1.len(), 3);
}

#[test]
fn trigger_time_window_keeps_only_middle_trigger() {
    let mut p = main_and_cottage();
    p.contents[0].triggers = vec![trigger("t-1", "One", true, 100), trigger("t-2", "Two", false, 200), trigger("t-3", "Three", true, 300)];
    let (_, ts) = p.enumerate_triggers("", "", EnabledFilter::NoFilter, 250, 150).unwrap();
    assert_eq!(ts.len(), 1);
    assert_eq!(ts[0].last_fire_date, 200);
    let (_, ts) = p.enumerate_triggers("", "", EnabledFilter::NoFilter, 0, 0).unwrap();
    assert_eq!(ts.len(), 3);
    let (_, ts) = p.enumerate_triggers("", "", EnabledFilter::NoFilter, 0, 200).unwrap();
    assert_eq!(ts.len(), 2);
    let (_, ts) = p.enumerate_triggers("", "", EnabledFilter::EnabledOnly, 0, 0).unwrap();
    assert_eq!(ts.len(), 2);
    let (_, ts) = p.enumerate_triggers("", "", EnabledFilter::DisabledOnly, 0, 0).unwrap();
    assert_eq!(ts[0].uuid, "t-2");
}

#[test]
fn invalid_service_type_matches_no_service() {
    let mut p = main_and_cottage();
    let mut lamp = accessory("a-1", "Lamp", None, Category::LightBulb, vec![]);
    lamp.services = vec![service("s-1", "Light", ServiceType::LightBulb), service("s-2", "Info", ServiceType::AccessoryInformation)];
    p.contents[0].accessories = vec![lamp];
    let (_, s) = p.enumerate_services("", &vec![ServiceType::InvalidServiceType], "").unwrap();
    assert!(s.is_empty());
    let (_, s) = p.enumerate_services("", &vec![], "").unwrap();
    assert_eq!(s.len(), 2);
    let (_, s) = p.enumerate_services("", &vec![ServiceType::LightBulb], "").unwrap();
    assert_eq!(s[0].uuid, "s-1");
}

#[test]
fn accessories_filtered_by_room_and_zone() {
    let mut p = main_and_cottage();
    p.contents[0].zones = vec![Zone { uuid: "z-1".to_string(), name: "Downstairs".to_string(), rooms: vec![eref("r-1", "Kitchen")] }];
    p.contents[0].accessories = vec![
        accessory("a-1", "Lamp", Some(eref("r-1", "Kitchen")), Category::LightBulb, vec![]),
        accessory("a-2", "Bridge", Some(eref("r-2", "Living Room")), Category::Bridge, vec!["u1".to_string(), "u2".to_string()]),
        accessory("a-3", "Plug", None, Category::Outlet, vec![]),
    ];
    let (_, a) = p.enumerate_accessories("", "", "", "").unwrap();
    assert_eq!(a.len(), 3);
    let (_, a) = p.enumerate_accessories("", "down", "", "").unwrap();
    assert_eq!(a.len(), 1);
    assert_eq!(a[0].uuid, "a-1");
    let (_, a) = p.enumerate_accessories("", "", "living", "").unwrap();
    assert_eq!(a[0].uuid, "a-2");
    assert_eq!(a[0].bridged_accessory_uuids.len(), 2);
    let (_, z) = p.enumerate_zones("", "kitchen", "").unwrap();
    assert_eq!(z.len(), 1);
    let (_, z) = p.enumerate_zones("", "living", "").unwrap();
    assert!(z.is_empty());
    for acc in p.contents[0].accessories.iter() {
        if acc.category != Category::Bridge {
            assert!(acc.bridged_accessory_uuids.is_empty());
        }
    }
}

#[test]
fn service_groups_and_action_sets_by_name() {
    let p = main_and_cottage();
    let (h, g) = p.enumerate_service_groups("cottage", "").unwrap();
    assert_eq!(h.uuid, "h-cottage");
    assert!(g.is_empty());
    let (_, a) = p.enumerate_action_sets("", "x").unwrap();
    assert!(a.is_empty());
}

#[test]
fn new_server_knows_no_home() {
    let p = HKServer::new();
    assert!(p.enumerate_homes("").is_empty());
    assert_eq!(p.enumerate_rooms("", "").err(), Some(Code::NotFound));
}

use hkserver::dispatch::Request;
use hkserver::schema::{Code, EntityRef, Home, HubState, Operation, Room};
use hkserver::service::{HKServer, HomeContents};
use hkserver::transport::Reply;

fn server() -> HKServer {
    let rooms = vec![Room {
        uuid: "r-1".to_string(),
        name: "Kitchen".to_string(),
        accessories: vec![EntityRef { uuid: "a-1".to_string(), name: "Lamp".to_string() }],
    }];
    HKServer {
        homes: vec![
            Home { uuid: "h-1".to_string(), name: "Main".to_string(), is_primary: true, hub_state: HubState::Connected },
            Home { uuid: "h-2".to_string(), name: "Cottage".to_string(), is_primary: false, hub_state: HubState::Invalid },
        ],
        contents: vec![
            HomeContents { rooms, zones: vec![], accessories: vec![], service_groups: vec![], action_sets: vec![], triggers: vec![] },
            HomeContents { rooms: vec![], zones: vec![], accessories: vec![], service_groups: vec![], action_sets: vec![], triggers: vec![] },
        ],
    }
}

fn lines(r: Option<Reply>) -> Vec<String> {
    match r {
        Some(Reply::Lines(l)) => l,
        _ => panic!("expected lines"),
    }
}

#[test]
fn homes_reply_marks_primary() {
    let l = lines(server().respond(&Request::EnumerateHomes { name_filter: String::new() }));
    assert_eq!(
        l,
        vec![
            "Home: Main (Primary)",
            "  UUID:      h-1",
            "  Hub State: Connected",
            "Home: Cottage",
            "  UUID:      h-2",
            "  Hub State: Unknown",
        ]
    );
}

#[test]
fn rooms_reply_lists_accessories() {
    let l = lines(server().respond(&Request::EnumerateRooms { home: String::new(), name_filter: String::new() }));
    assert_eq!(
        l,
        vec!["Home: Main", "Rooms:", "  Room: Kitchen", "    UUID:         r-1", "    Accessories: (1)", "      Accessory: Lamp", "        UUID: a-1"]
    );
}

#[test]
fn unknown_home_reply_is_not_found() {
    match server().respond(&Request::EnumerateZones { home: "Castle".to_string(), room_filter: String::new(), name_filter: String::new() }) {
        Some(Reply::Failure { code, message }) => {
            assert_eq!(code, Code::NotFound);
            assert_eq!(message, "not found");
        },
        _ => panic!("expected failure"),
    }
}

#[test]
fn room_change_replies() {
    let mut s = server();
    assert!(s.respond(&Request::AddRemoveRoom { home: String::new(), name: "X".to_string(), accessories: vec![], operation: Operation::Add }).is_none());
    match s.respond_room_change("", "Den", &vec![], Operation::Add, "r-9".to_string()) {
        Reply::Lines(l) => assert_eq!(l, vec!["Home: Main, Room Den"]),
        _ => panic!("expected lines"),
    }
    match s.respond_room_change("", "Den", &vec![], Operation::Add, "r-10".to_string()) {
        Reply::Failure { code, .. } => assert_eq!(code, Code::AlreadyExists),
        _ => panic!("expected failure"),
    }
    match s.respond_room_change("", "r-9", &vec![], Operation::Remove, String::new()) {
        Reply::Lines(l) => assert_eq!(l, vec!["Home: Main, Room Den"]),
        _ => panic!("expected lines"),
    }
    assert_eq!(s.contents[0].rooms.len(), 1);
}

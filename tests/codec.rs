use hkserver::dispatch::Request;
use hkserver::entities::{decode_home, decode_room, encode_home, encode_room};
use hkserver::schema::{Code, EntityRef, Home, HubState, Operation, Room, ServiceType};
use hkserver::transport::{decode_reply, decode_request, encode_reply, encode_request, Reply};
use hkserver::wire::{encode_fields, parse_fields};

#[test]
fn homes_round_trip() {
    let h = Home { uuid: "h-1".to_string(), name: "Main".to_string(), is_primary: true, hub_state: HubState::NotAvailable };
    let back = decode_home(&encode_home(&h).unwrap()).unwrap();
    assert_eq!(back.uuid, "h-1");
    assert_eq!(back.name, "Main");
    assert!(back.is_primary);
    assert_eq!(back.hub_state, HubState::NotAvailable);
}

#[test]
fn unknown_hub_state_decodes_as_invalid() {
    let fs = vec![(1u8, b"h".to_vec()), (2u8, b"n".to_vec()), (3u8, vec![0]), (4u8, vec![9])];
    let back = decode_home(&encode_fields(&fs).unwrap()).unwrap();
    assert_eq!(back.hub_state, HubState::Invalid);
    let fs = vec![(1u8, b"h".to_vec()), (2u8, b"n".to_vec()), (3u8, vec![0])];
    assert_eq!(decode_home(&encode_fields(&fs).unwrap()).err(), Some(Code::InvalidArgument));
}

#[test]
fn rooms_round_trip_with_accessories() {
    let r = Room {
        uuid: "r-1".to_string(),
        name: "Kitchen".to_string(),
        accessories: vec![
            EntityRef { uuid: "a-1".to_string(), name: "Lamp".to_string() },
            EntityRef { uuid: "a-2".to_string(), name: "Fan".to_string() },
        ],
    };
    let back = decode_room(&encode_room(&r).unwrap()).unwrap();
    assert_eq!(back.uuid, "r-1");
    assert_eq!(back.name, "Kitchen");
    assert_eq!(back.accessories.len(), 2);
    assert_eq!(back.accessories[1].uuid, "a-2");
    assert_eq!(back.accessories[1].name, "Fan");
}

#[test]
fn request_fields_in_order() {
    let req = Request::EnumerateServices {
        home: "Main".to_string(),
        types: vec![ServiceType::Fan, ServiceType::InvalidServiceType],
        name_filter: String::new(),
    };
    let fields = parse_fields(&encode_request(&req).unwrap()).unwrap();
    assert_eq!(fields, vec![(1, vec![4]), (2, b"Main".to_vec()), (6, vec![16]), (6, vec![0]), (3, vec![])]);
    let req = Request::AddRemoveRoom {
        home: String::new(),
        name: "R2".to_string(),
        accessories: vec!["a-1".to_string()],
        operation: Operation::Remove,
    };
    let fields = parse_fields(&encode_request(&req).unwrap()).unwrap();
    assert_eq!(fields, vec![(1, vec![8]), (2, vec![]), (3, b"R2".to_vec()), (11, vec![1]), (10, b"a-1".to_vec())]);
    let req = Request::EnumerateTriggers {
        home: String::new(),
        name_filter: String::new(),
        enabled_filter: hkserver::schema::EnabledFilter::DisabledOnly,
        before: 250,
        after: 150,
    };
    let fields = parse_fields(&encode_request(&req).unwrap()).unwrap();
    assert_eq!(fields[3], (7, vec![2]));
    assert_eq!(fields[4], (8, vec![250, 0, 0, 0, 0, 0, 0, 0]));
    assert_eq!(fields[5], (9, vec![150, 0, 0, 0, 0, 0, 0, 0]));
}

#[test]
fn replies_give_lines_or_failure() {
    let ok = encode_fields(&vec![(1u8, vec![0]), (3u8, b"Home: Main".to_vec()), (3u8, b"  UUID: h".to_vec())]).unwrap();
    match decode_reply(&ok) {
        Ok(Reply::Lines(lines)) => assert_eq!(lines, vec!["Home: Main".to_string(), "  UUID: h".to_string()]),
        _ => panic!("expected lines"),
    }
    let failed = encode_fields(&vec![(1u8, vec![2]), (2u8, b"no such home".to_vec())]).unwrap();
    match decode_reply(&failed) {
        Ok(Reply::Failure { code, message }) => {
            assert_eq!(code, Code::NotFound);
            assert_eq!(message, "no such home");
        },
        _ => panic!("expected failure"),
    }
    let bad = encode_fields(&vec![(1u8, vec![0]), (2u8, b"x".to_vec())]).unwrap();
    assert!(matches!(decode_reply(&bad), Err(Code::InvalidArgument)));
    let unknown = encode_fields(&vec![(1u8, vec![42]), (2u8, b"x".to_vec())]).unwrap();
    assert!(matches!(decode_reply(&unknown), Err(Code::InvalidArgument)));
}

#[test]
fn replies_round_trip() {
    let r = Reply::Lines(vec!["Home: Main".to_string(), String::new()]);
    match decode_reply(&encode_reply(&r).unwrap()) {
        Ok(Reply::Lines(lines)) => assert_eq!(lines, vec!["Home: Main".to_string(), String::new()]),
        _ => panic!("expected lines"),
    }
    let f = Reply::Failure { code: Code::AlreadyExists, message: "room exists".to_string() };
    match decode_reply(&encode_reply(&f).unwrap()) {
        Ok(Reply::Failure { code, message }) => {
            assert_eq!(code, Code::AlreadyExists);
            assert_eq!(message, "room exists");
        },
        _ => panic!("expected failure"),
    }
}

#[test]
fn requests_round_trip() {
    let reqs = vec![
        Request::EnumerateHomes { name_filter: String::new() },
        Request::EnumerateZones { home: "Main".to_string(), room_filter: "kit".to_string(), name_filter: String::new() },
        Request::EnumerateServices { home: String::new(), types: vec![ServiceType::Label, ServiceType::AccessoryInformation], name_filter: "x".to_string() },
        Request::EnumerateTriggers {
            home: String::new(),
            name_filter: String::new(),
            enabled_filter: hkserver::schema::EnabledFilter::EnabledOnly,
            before: u64::MAX,
            after: 1,
        },
        Request::AddRemoveRoom { home: "h".to_string(), name: "R2".to_string(), accessories: vec!["a".to_string(), "b".to_string()], operation: Operation::Add },
    ];
    for r in reqs {
        let back = decode_request(&encode_request(&r).unwrap()).unwrap();
        assert_eq!(encode_request(&back), encode_request(&r));
    }
    match decode_request(&encode_request(&Request::EnumerateRooms { home: "Main".to_string(), name_filter: String::new() }).unwrap()) {
        Ok(Request::EnumerateRooms { home, name_filter }) => {
            assert_eq!(home, "Main");
            assert_eq!(name_filter, "");
        },
        _ => panic!("expected rooms request"),
    }
    assert!(matches!(decode_request(&vec![]), Err(Code::InvalidArgument)));
    let bad_kind = encode_fields(&vec![(1u8, vec![9])]).unwrap();
    assert!(matches!(decode_request(&bad_kind), Err(Code::InvalidArgument)));
}

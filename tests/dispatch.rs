use hkserver::dispatch::{
    build_request, enabled_filter_from_str, parse_timestamp, servicetype_from_str, timestamp_bound, Config, Request,
    Subcommand,
};
use hkserver::schema::{Code, EnabledFilter, Operation, ServiceType};

fn config() -> Config {
    Config {
        home: None,
        name: None,
        room: None,
        zone: None,
        types: vec![],
        enabled: None,
        before: None,
        after: None,
        operation: None,
        accessories: vec![],
    }
}

#[test]
fn service_type_names() {
    assert_eq!(servicetype_from_str("LightBulb"), ServiceType::LightBulb);
    assert_eq!(servicetype_from_str("AccessoryInformation"), ServiceType::AccessoryInformation);
    assert_eq!(servicetype_from_str("Zzz"), ServiceType::InvalidServiceType);
    assert_eq!(servicetype_from_str("lightbulb"), ServiceType::InvalidServiceType);
}

#[test]
fn operation_names() {
    assert_eq!(Operation::from_str("add"), Ok(Operation::Add));
    assert_eq!(Operation::from_str("rm"), Ok(Operation::Remove));
    assert_eq!(Operation::from_str("remove"), Ok(Operation::Remove));
    assert_eq!(Operation::from_str("delete"), Err(Code::InvalidArgument));
}

#[test]
fn enabled_filter_names() {
    assert_eq!(enabled_filter_from_str(None), Ok(EnabledFilter::NoFilter));
    assert_eq!(enabled_filter_from_str(Some("either")), Ok(EnabledFilter::NoFilter));
    assert_eq!(enabled_filter_from_str(Some("true")), Ok(EnabledFilter::EnabledOnly));
    assert_eq!(enabled_filter_from_str(Some("false")), Ok(EnabledFilter::DisabledOnly));
    assert_eq!(enabled_filter_from_str(Some("yes")), Err(Code::InvalidArgument));
}

#[test]
fn timestamps_parse_in_utc() {
    assert_eq!(parse_timestamp(None), Ok(0));
    assert_eq!(parse_timestamp(Some("1970-01-01 00:01:40")), Ok(100));
    assert_eq!(parse_timestamp(Some("2015-05-15 00:00:00")), Ok(1431648000));
    assert_eq!(parse_timestamp(Some("2015-05-15")), Err(Code::InvalidArgument));
    assert_eq!(parse_timestamp(Some("1969-12-31 23:59:59")), Err(Code::InvalidArgument));
    assert_eq!(timestamp_bound(Some(5)), Ok(5));
    assert_eq!(timestamp_bound(Some(-1)), Err(Code::InvalidArgument));
    assert_eq!(timestamp_bound(None), Err(Code::InvalidArgument));
}

#[test]
fn unspecified_filters_become_empty() {
    let mut c = config();
    c.name = Some("lamp".to_string());
    match build_request(Subcommand::Accessories, &c) {
        Ok(Request::EnumerateAccessories { home, zone_filter, room_filter, name_filter }) => {
            assert_eq!(home, "");
            assert_eq!(zone_filter, "");
            assert_eq!(room_filter, "");
            assert_eq!(name_filter, "lamp");
        },
        _ => panic!("wrong request"),
    }
    match build_request(Subcommand::Homes, &c) {
        Ok(Request::EnumerateHomes { name_filter }) => assert_eq!(name_filter, ""),
        _ => panic!("wrong request"),
    }
}

#[test]
fn services_request_maps_type_names() {
    let mut c = config();
    c.home = Some("Main".to_string());
    c.types = vec!["Fan".to_string(), "Zzz".to_string()];
    match build_request(Subcommand::Services, &c) {
        Ok(Request::EnumerateServices { home, types, name_filter }) => {
            assert_eq!(home, "Main");
            assert_eq!(types, vec![ServiceType::Fan, ServiceType::InvalidServiceType]);
            assert_eq!(name_filter, "");
        },
        _ => panic!("wrong request"),
    }
}

#[test]
fn triggers_request_reads_bounds() {
    let mut c = config();
    c.after = Some("1970-01-01 00:02:30".to_string());
    c.enabled = Some("true".to_string());
    match build_request(Subcommand::Triggers, &c) {
        Ok(Request::EnumerateTriggers { before, after, enabled_filter, .. }) => {
            assert_eq!(before, 0);
            assert_eq!(after, 150);
            assert_eq!(enabled_filter, EnabledFilter::EnabledOnly);
        },
        _ => panic!("wrong request"),
    }
    c.before = Some("not a time".to_string());
    assert!(matches!(build_request(Subcommand::Triggers, &c), Err(Code::InvalidArgument)));
}

#[test]
fn room_request_needs_operation() {
    let mut c = config();
    c.name = Some("R2".to_string());
    assert!(matches!(build_request(Subcommand::Room, &c), Err(Code::InvalidArgument)));
    c.operation = Some("rm".to_string());
    c.accessories = vec!["a-1".to_string()];
    match build_request(Subcommand::Room, &c) {
        Ok(Request::AddRemoveRoom { home, name, accessories, operation }) => {
            assert_eq!(home, "");
            assert_eq!(name, "R2");
            assert_eq!(accessories, vec!["a-1".to_string()]);
            assert_eq!(operation, Operation::Remove);
        },
        _ => panic!("wrong request"),
    }
}

use canary::error::ErrorKindSer;
use canary::routes::{Entry, Routes, Switch};

#[test]
fn new_routes_hold_the_empty_global_route() {
    let r = Routes::new();
    assert_eq!(r.len(), 1);
    assert!(r.keys(0).is_empty());
    assert_eq!(r.get(0, "anything"), None);
}

#[test]
fn added_service_is_switched_to() {
    let mut r = Routes::new();
    r.add_service_at(0, "echo", 5).unwrap();
    assert_eq!(r.get(0, "echo"), Some(Entry::Service(5)));
    assert_eq!(r.switch_raw(0, "echo"), Switch::Delivered { service: 5, context: 0 });
    assert_eq!(r.switch_raw(0, "other"), Switch::NotFound);
}

#[test]
fn a_taken_name_is_addr_in_use_and_replaced() {
    let mut r = Routes::new();
    r.add_service_at(0, "echo", 5).unwrap();
    let e = r.add_service_at(0, "echo", 6).unwrap_err();
    assert_eq!(e.kind, ErrorKindSer::AddrInUse);
    assert_eq!(r.get(0, "echo"), Some(Entry::Service(6)));
}

#[test]
fn removed_service_is_not_found() {
    let mut r = Routes::new();
    r.add_service_at(0, "echo", 5).unwrap();
    r.remove_at(0, "echo").unwrap();
    assert_eq!(r.switch_raw(0, "echo"), Switch::NotFound);
    assert_eq!(r.remove_at(0, "echo").unwrap_err().kind, ErrorKindSer::NotFound);
}

#[test]
fn nested_routes_are_followed() {
    let mut r = Routes::new();
    let child = r.add_route_at(0, "api").unwrap();
    assert_eq!(child, 1);
    assert_eq!(r.len(), 2);
    r.add_service_at(child, "users", 9).unwrap();
    assert_eq!(r.switch_raw(0, "api/users"), Switch::Delivered { service: 9, context: 1 });
    assert_eq!(r.switch_raw(0, "api/none"), Switch::NotFound);
    // a path that ends on a route drops the channel
    assert_eq!(r.switch_raw(0, "api"), Switch::Dropped);
    assert_eq!(r.switch_raw(0, ""), Switch::Dropped);
}

#[test]
fn path_components_are_those_of_utf8_path() {
    let mut r = Routes::new();
    let child = r.add_route_at(0, "api").unwrap();
    r.add_service_at(child, "users", 9).unwrap();
    // empty and `.` components are skipped by the path iterator
    assert_eq!(r.switch_raw(0, "api//users"), Switch::Delivered { service: 9, context: 1 });
    assert_eq!(r.switch_raw(0, "api/./users"), Switch::Delivered { service: 9, context: 1 });
    assert_eq!(r.switch_raw(0, "api/users/"), Switch::Delivered { service: 9, context: 1 });
}

#[test]
fn service_ends_the_path_whatever_follows() {
    let mut r = Routes::new();
    r.add_service_at(0, "svc", 3).unwrap();
    assert_eq!(r.switch_raw(0, "svc/more"), Switch::Delivered { service: 3, context: 0 });
}

#[test]
fn existing_route_can_be_inserted_under_another_name() {
    let mut r = Routes::new();
    let child = r.add_route_at(0, "a").unwrap();
    r.add_service_at(child, "s", 1).unwrap();
    r.insert_route_at(0, "b", child).unwrap();
    assert_eq!(r.switch_raw(0, "b/s"), Switch::Delivered { service: 1, context: child });
    assert_eq!(r.insert_route_at(0, "a", child).unwrap_err().kind, ErrorKindSer::AddrInUse);
}

#[test]
fn add_route_at_a_taken_name_is_addr_in_use() {
    let mut r = Routes::new();
    r.add_service_at(0, "x", 1).unwrap();
    assert_eq!(r.add_route_at(0, "x").unwrap_err().kind, ErrorKindSer::AddrInUse);
    assert_eq!(r.get(0, "x"), Some(Entry::Route(1)));
}

#[test]
fn keys_list_the_names_of_a_route() {
    let mut r = Routes::new();
    r.add_service_at(0, "a", 1).unwrap();
    r.add_service_at(0, "b", 2).unwrap();
    let mut keys = r.keys(0);
    keys.sort();
    assert_eq!(keys, vec!["a".to_string(), "b".to_string()]);
}

#[test]
fn route_errors_name_the_entry() {
    let mut r = Routes::new();
    r.add_service_at(0, "echo", 1).unwrap();
    assert_eq!(r.add_service_at(0, "echo", 2).unwrap_err().message, "service `echo` already exists");
    assert_eq!(r.remove_at(0, "nope").unwrap_err().message, "service `nope` doesn't exist");
}

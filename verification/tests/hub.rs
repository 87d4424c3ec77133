use stocknet::InventoryReport;
use stocknet::Product;
use stocknet::ServiceError;
use stocknet::hub::AppState;

fn product(code: &str, name: &str, price_cents: u64, quantity: Option<u32>) -> Product {
    Product { code: String::from(code), name: String::from(name), price_cents, quantity }
}

fn hub() -> AppState {
    AppState::new(String::from("http://127.0.0.1:8080"))
}

#[test]
fn register_product_then_get_details() {
    let mut hub = hub();
    hub.register_product(product("laptop", "Laptop Pro", 350_000, None));
    let found = hub.get_product_details(&String::from("laptop")).unwrap();
    assert_eq!(found.name, "Laptop Pro");
    assert_eq!(found.price_cents, 350_000);
}

#[test]
fn get_details_of_unknown_code_fails_not_found() {
    let hub = hub();
    let r = hub.get_product_details(&String::from("mouse"));
    assert_eq!(r.unwrap_err(), ServiceError::NotFound);
}

#[test]
fn register_product_replaces_by_code() {
    let mut hub = hub();
    hub.register_product(product("laptop", "Laptop", 300_000, None));
    hub.register_product(product("laptop", "Laptop Pro", 350_000, None));
    let found = hub.get_product_details(&String::from("laptop")).unwrap();
    assert_eq!(found.name, "Laptop Pro");
    assert_eq!(found.price_cents, 350_000);
}

#[test]
fn who_has_with_no_registered_nodes_fails_not_found() {
    let hub = hub();
    let reports: Vec<InventoryReport> = Vec::new();
    let r = hub.who_has_product(&String::from("x"), 1, &reports);
    assert_eq!(r.unwrap_err(), ServiceError::NotFound);
}

#[test]
fn who_has_keeps_only_nodes_meeting_the_minimum() {
    let mut hub = hub();
    hub.register_product(product("pens", "Ballpoint Pens", 150, None));
    let reports = vec![
        InventoryReport {
            cd_id: String::from("cd_rich"),
            report: Some(product("pens", "Pens", 140, Some(20))),
        },
        InventoryReport {
            cd_id: String::from("cd_poor"),
            report: Some(product("pens", "Pens", 140, Some(3))),
        },
        InventoryReport { cd_id: String::from("cd_down"), report: None },
        InventoryReport {
            cd_id: String::from("cd_blank"),
            report: Some(product("pens", "Pens", 140, None)),
        },
    ];
    let list = hub.who_has_product(&String::from("pens"), 5, &reports).unwrap();
    assert_eq!(list.len(), 1);
    assert_eq!(list[0].cd_id, "cd_rich");
    assert_eq!(list[0].quantity_available, 20);
    for entry in &list {
        assert!(entry.quantity_available >= 5);
    }
}

#[test]
fn who_has_prefers_catalog_details_over_node_report() {
    let mut hub = hub();
    hub.register_product(product("pens", "Ballpoint Pens", 150, None));
    let reports = vec![InventoryReport {
        cd_id: String::from("cd_a"),
        report: Some(product("pens", "Any Pens", 999, Some(10))),
    }];
    let list = hub.who_has_product(&String::from("pens"), 5, &reports).unwrap();
    assert_eq!(list[0].product_info.name, "Ballpoint Pens");
    assert_eq!(list[0].product_info.price_cents, 150);
}

#[test]
fn who_has_falls_back_to_node_details_when_code_unlisted() {
    let hub = hub();
    let reports = vec![InventoryReport {
        cd_id: String::from("cd_a"),
        report: Some(product("pens", "Any Pens", 999, Some(10))),
    }];
    let list = hub.who_has_product(&String::from("pens"), 5, &reports).unwrap();
    assert_eq!(list[0].product_info.name, "Any Pens");
    assert_eq!(list[0].product_info.price_cents, 999);
}

#[test]
fn who_has_with_every_node_short_or_silent_fails_not_found() {
    let hub = hub();
    let reports = vec![
        InventoryReport {
            cd_id: String::from("cd_poor"),
            report: Some(product("pens", "Pens", 140, Some(3))),
        },
        InventoryReport { cd_id: String::from("cd_down"), report: None },
    ];
    let r = hub.who_has_product(&String::from("pens"), 5, &reports);
    assert_eq!(r.unwrap_err(), ServiceError::NotFound);
}

#[test]
fn who_has_keeps_registry_enumeration_order() {
    let hub = hub();
    let reports = vec![
        InventoryReport {
            cd_id: String::from("cd_b"),
            report: Some(product("pens", "Pens", 140, Some(6))),
        },
        InventoryReport {
            cd_id: String::from("cd_a"),
            report: Some(product("pens", "Pens", 140, Some(9))),
        },
    ];
    let list = hub.who_has_product(&String::from("pens"), 5, &reports).unwrap();
    assert_eq!(list.len(), 2);
    assert_eq!(list[0].cd_id, "cd_b");
    assert_eq!(list[1].cd_id, "cd_a");
}

#[test]
fn error_descriptions() {
    assert_eq!(ServiceError::NotFound.describe(), "not found");
    assert_eq!(ServiceError::InsufficientStock.describe(), "insufficient stock");
    assert_eq!(ServiceError::Unfulfilled.describe(), "request could not be fulfilled");
    assert_eq!(ServiceError::NetworkError.describe(), "network error");
    assert_eq!(ServiceError::MalformedResponse.describe(), "malformed response");
}

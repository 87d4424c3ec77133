use stocknet::Product;
use stocknet::ServiceError;
use stocknet::TransferRequest;
use stocknet::node::AcquireAction;
use stocknet::node::AcquireEvent;
use stocknet::node::AcquireState;
use stocknet::node::CdState;
use stocknet::node::TransferOutcome;

fn product(code: &str, name: &str, price_cents: u64, quantity: Option<u32>) -> Product {
    Product { code: String::from(code), name: String::from(name), price_cents, quantity }
}

fn node(id: &str) -> CdState {
    CdState::new(
        String::from(id),
        String::from("http://127.0.0.1:8080"),
        String::from("http://127.0.0.1:8082"),
    )
}

fn quantity_held(state: &CdState, code: &str) -> u32 {
    match state.get_product_inventory(&String::from(code)) {
        Ok(p) => p.quantity.unwrap_or(0),
        Err(_) => 0,
    }
}

fn transfer(code: &str, quantity: u32, requester: &str) -> TransferRequest {
    TransferRequest {
        product_code: String::from(code),
        quantity,
        requester_cd_id: String::from(requester),
    }
}

#[test]
fn inventory_lookup_reports_the_holding() {
    let mut node = node("cd_alpha");
    node.receive_product(&product("bottles", "Water Bottles", 250, Some(50)));
    let held = node.get_product_inventory(&String::from("bottles")).unwrap();
    assert_eq!(held.name, "Water Bottles");
    assert_eq!(held.quantity, Some(50));
    assert_eq!(
        node.get_product_inventory(&String::from("pens")).unwrap_err(),
        ServiceError::NotFound
    );
}

#[test]
fn receive_product_adds_to_an_existing_holding() {
    let mut node = node("cd_alpha");
    node.receive_product(&product("bottles", "Water Bottles", 250, Some(50)));
    node.receive_product(&product("bottles", "Other Name", 999, Some(7)));
    let held = node.get_product_inventory(&String::from("bottles")).unwrap();
    assert_eq!(held.quantity, Some(57));
    // An existing entry keeps its own details.
    assert_eq!(held.name, "Water Bottles");
    assert_eq!(held.price_cents, 250);
}

#[test]
fn transfer_debits_the_supplier() {
    let mut supplier = node("cd_gamma");
    supplier.receive_product(&product("phones", "Smartphones X", 120_000, Some(15)));
    let r = supplier.transfer_product(&transfer("phones", 2, "cd_alpha"));
    assert!(r.is_ok());
    assert_eq!(quantity_held(&supplier, "phones"), 13);
}

#[test]
fn transfer_of_unknown_code_fails_not_found() {
    let mut supplier = node("cd_gamma");
    let r = supplier.transfer_product(&transfer("phones", 2, "cd_alpha"));
    assert_eq!(r.unwrap_err(), ServiceError::NotFound);
}

#[test]
fn transfer_exceeding_stock_is_rejected_and_stock_unchanged() {
    let mut supplier = node("cd_gamma");
    supplier.receive_product(&product("phones", "Smartphones X", 120_000, Some(10)));
    let r = supplier.transfer_product(&transfer("phones", 11, "cd_alpha"));
    assert_eq!(r.unwrap_err(), ServiceError::InsufficientStock);
    assert_eq!(quantity_held(&supplier, "phones"), 10);
}

#[test]
fn racing_transfers_grant_exactly_one_of_two_oversubscribed_demands() {
    // Two concurrent 8-unit requests against a holding of 10: the
    // node's lock serializes them, so one order or the other runs;
    // either way exactly one succeeds and 2 units remain.
    let mut supplier = node("cd_gamma");
    supplier.receive_product(&product("phones", "Smartphones X", 120_000, Some(10)));
    let first = supplier.transfer_product(&transfer("phones", 8, "cd_alpha"));
    let second = supplier.transfer_product(&transfer("phones", 8, "cd_beta"));
    assert!(first.is_ok());
    assert_eq!(second.unwrap_err(), ServiceError::InsufficientStock);
    assert_eq!(quantity_held(&supplier, "phones"), 2);
}

#[test]
fn acquire_with_enough_stock_finishes_without_network_action() {
    // 50 bottles held, 30 requested: the very first step finishes
    // successfully; no query and no transfer is issued, and the
    // holding stays 50.
    let mut node = node("cd_alpha");
    node.receive_product(&product("bottles", "Water Bottles", 250, Some(50)));
    let (state, action) = node.request_product_from_system(
        &String::from("bottles"),
        30,
        AcquireState::Idle,
        AcquireEvent::Started,
    );
    assert!(matches!(state, AcquireState::Satisfied));
    assert!(matches!(action, AcquireAction::Finish { result: Ok(()) }));
    assert_eq!(quantity_held(&node, "bottles"), 50);
}

#[test]
fn acquire_shortfall_queries_the_hub_for_the_deficit() {
    let mut node = node("cd_alpha");
    node.receive_product(&product("phones", "Smartphones X", 120_000, Some(10)));
    let (_state, action) = node.request_product_from_system(
        &String::from("phones"),
        12,
        AcquireState::Idle,
        AcquireEvent::Started,
    );
    match action {
        AcquireAction::QueryHub { product_code, deficit } => {
            assert_eq!(product_code, "phones");
            assert_eq!(deficit, 2);
        }
        _ => panic!("expected a hub query"),
    }
}

#[test]
fn acquire_transfers_the_deficit_from_the_reported_supplier() {
    // Node A holds 10 phones and needs 12; the hub reports node B with
    // 15 available. The transfer of 2 succeeds: A ends at 12, B at 13.
    let code = String::from("phones");
    let mut a = node("cd_alpha");
    let mut b = node("cd_gamma");
    a.receive_product(&product("phones", "Smartphones X", 120_000, Some(10)));
    b.receive_product(&product("phones", "Smartphones X", 120_000, Some(15)));

    let (state, action) =
        a.request_product_from_system(&code, 12, AcquireState::Idle, AcquireEvent::Started);
    assert!(matches!(action, AcquireAction::QueryHub { .. }));

    let candidates = vec![stocknet::ProductAvailability {
        cd_id: String::from("cd_gamma"),
        quantity_available: 15,
        product_info: product("phones", "Smartphones X", 120_000, None),
    }];
    let (state, action) = a.request_product_from_system(
        &code,
        12,
        state,
        AcquireEvent::HubReplied { reply: Ok(candidates) },
    );
    let request = match action {
        AcquireAction::SendTransfer { supplier_id, request } => {
            assert_eq!(supplier_id, "cd_gamma");
            assert_eq!(request.quantity, 2);
            assert_eq!(request.requester_cd_id, "cd_alpha");
            request
        }
        _ => panic!("expected a transfer request"),
    };

    assert!(b.transfer_product(&request).is_ok());
    assert_eq!(quantity_held(&b, "phones"), 13);

    let (state, action) = a.request_product_from_system(
        &code,
        12,
        state,
        AcquireEvent::TransferReplied { outcome: TransferOutcome::Delivered },
    );
    assert!(matches!(state, AcquireState::Satisfied));
    assert!(matches!(action, AcquireAction::Finish { result: Ok(()) }));
    assert_eq!(quantity_held(&a, "phones"), 12);
}

#[test]
fn acquire_credits_a_new_holding_with_supplier_details() {
    let code = String::from("pens");
    let mut a = node("cd_beta");
    let (state, _action) =
        a.request_product_from_system(&code, 50, AcquireState::Idle, AcquireEvent::Started);
    let candidates = vec![stocknet::ProductAvailability {
        cd_id: String::from("cd_gamma"),
        quantity_available: 200,
        product_info: product("pens", "Ballpoint Pens", 150, None),
    }];
    let (state, _action) = a.request_product_from_system(
        &code,
        50,
        state,
        AcquireEvent::HubReplied { reply: Ok(candidates) },
    );
    let (_state, _action) = a.request_product_from_system(
        &code,
        50,
        state,
        AcquireEvent::TransferReplied { outcome: TransferOutcome::Delivered },
    );
    let held = a.get_product_inventory(&code).unwrap();
    assert_eq!(held.quantity, Some(50));
    assert_eq!(held.name, "Ballpoint Pens");
    assert_eq!(held.price_cents, 150);
}

#[test]
fn acquire_skips_undersized_candidates_and_falls_back_on_failure() {
    let code = String::from("phones");
    let mut a = node("cd_alpha");
    let (state, _action) =
        a.request_product_from_system(&code, 2, AcquireState::Idle, AcquireEvent::Started);
    let candidates = vec![
        stocknet::ProductAvailability {
            cd_id: String::from("cd_small"),
            quantity_available: 1,
            product_info: product("phones", "Smartphones X", 120_000, None),
        },
        stocknet::ProductAvailability {
            cd_id: String::from("cd_first"),
            quantity_available: 3,
            product_info: product("phones", "Smartphones X", 120_000, None),
        },
        stocknet::ProductAvailability {
            cd_id: String::from("cd_second"),
            quantity_available: 9,
            product_info: product("phones", "Smartphones X", 120_000, None),
        },
    ];
    // The undersized first candidate is skipped outright.
    let (state, action) = a.request_product_from_system(
        &code,
        2,
        state,
        AcquireEvent::HubReplied { reply: Ok(candidates) },
    );
    match &action {
        AcquireAction::SendTransfer { supplier_id, .. } => assert_eq!(supplier_id, "cd_first"),
        _ => panic!("expected a transfer request"),
    }
    // A failed attempt moves on to the next candidate that covers the
    // deficit.
    let (state, action) = a.request_product_from_system(
        &code,
        2,
        state,
        AcquireEvent::TransferReplied { outcome: TransferOutcome::Failed },
    );
    match &action {
        AcquireAction::SendTransfer { supplier_id, .. } => assert_eq!(supplier_id, "cd_second"),
        _ => panic!("expected a transfer request"),
    }
    // With every candidate exhausted the acquisition is unfulfilled.
    let (_state, action) = a.request_product_from_system(
        &code,
        2,
        state,
        AcquireEvent::TransferReplied { outcome: TransferOutcome::Failed },
    );
    assert!(matches!(
        action,
        AcquireAction::Finish { result: Err(ServiceError::Unfulfilled) }
    ));
}

#[test]
fn acquire_maps_hub_not_found_to_unfulfilled() {
    let code = String::from("pens");
    let mut a = node("cd_alpha");
    let (state, _action) =
        a.request_product_from_system(&code, 5, AcquireState::Idle, AcquireEvent::Started);
    let (state, action) = a.request_product_from_system(
        &code,
        5,
        state,
        AcquireEvent::HubReplied { reply: Err(ServiceError::NotFound) },
    );
    assert!(matches!(state, AcquireState::Failed { error: ServiceError::Unfulfilled }));
    assert!(matches!(
        action,
        AcquireAction::Finish { result: Err(ServiceError::Unfulfilled) }
    ));
}

#[test]
fn acquire_propagates_hub_network_errors() {
    let code = String::from("pens");
    let mut a = node("cd_alpha");
    let (state, _action) =
        a.request_product_from_system(&code, 5, AcquireState::Idle, AcquireEvent::Started);
    let (_state, action) = a.request_product_from_system(
        &code,
        5,
        state,
        AcquireEvent::HubReplied { reply: Err(ServiceError::NetworkError) },
    );
    assert!(matches!(
        action,
        AcquireAction::Finish { result: Err(ServiceError::NetworkError) }
    ));
}

#[test]
fn acquire_falls_back_when_a_supplier_cannot_be_resolved() {
    // One candidate unreachable or unresolvable never aborts the
    // acquisition: the next candidate is tried, and only exhaustion
    // fails it.
    let code = String::from("pens");
    let mut a = node("cd_alpha");
    let (state, _action) =
        a.request_product_from_system(&code, 5, AcquireState::Idle, AcquireEvent::Started);
    let candidates = vec![
        stocknet::ProductAvailability {
            cd_id: String::from("cd_gone"),
            quantity_available: 8,
            product_info: product("pens", "Pens", 150, None),
        },
        stocknet::ProductAvailability {
            cd_id: String::from("cd_backup"),
            quantity_available: 9,
            product_info: product("pens", "Backup Pens", 140, None),
        },
    ];
    let (state, action) = a.request_product_from_system(
        &code,
        5,
        state,
        AcquireEvent::HubReplied { reply: Ok(candidates) },
    );
    match &action {
        AcquireAction::SendTransfer { supplier_id, .. } => assert_eq!(supplier_id, "cd_gone"),
        _ => panic!("expected a transfer request"),
    }
    let (state, action) = a.request_product_from_system(
        &code,
        5,
        state,
        AcquireEvent::TransferReplied { outcome: TransferOutcome::Failed },
    );
    match &action {
        AcquireAction::SendTransfer { supplier_id, .. } => assert_eq!(supplier_id, "cd_backup"),
        _ => panic!("expected a fallback transfer request"),
    }
    assert_eq!(quantity_held(&a, "pens"), 0);
    let (state, action) = a.request_product_from_system(
        &code,
        5,
        state,
        AcquireEvent::TransferReplied { outcome: TransferOutcome::Delivered },
    );
    assert!(matches!(state, AcquireState::Satisfied));
    assert!(matches!(action, AcquireAction::Finish { result: Ok(()) }));
    assert_eq!(quantity_held(&a, "pens"), 5);
    let held = a.get_product_inventory(&code).unwrap();
    assert_eq!(held.name, "Backup Pens");
}

#[test]
fn acquire_with_an_empty_candidate_list_is_unfulfilled() {
    let code = String::from("pens");
    let mut a = node("cd_alpha");
    let (state, _action) =
        a.request_product_from_system(&code, 5, AcquireState::Idle, AcquireEvent::Started);
    let (_state, action) = a.request_product_from_system(
        &code,
        5,
        state,
        AcquireEvent::HubReplied { reply: Ok(Vec::new()) },
    );
    assert!(matches!(
        action,
        AcquireAction::Finish { result: Err(ServiceError::Unfulfilled) }
    ));
}

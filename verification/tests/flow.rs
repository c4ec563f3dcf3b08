use a_book_bridge::{
    find_external_instrument, ABookBridgePositionSide, ExecutionReport, OpenABookPositionError,
    OpenPositionFlow, OpenPositionStage, OrderStatus, PlaceOrderError,
};

fn pairs(list: &[(&str, &str)]) -> Vec<(String, String)> {
    list.iter().map(|(a, b)| (a.to_string(), b.to_string())).collect()
}

fn report(status: OrderStatus) -> ExecutionReport<u32> {
    ExecutionReport { internal_order_id: "pos-1".to_string(), status, model: 9 }
}

#[test]
fn external_instrument_is_the_first_that_maps_to_the_request() {
    let m = pairs(&[("XAU", "GOLD"), ("EURUSD.x", "EURUSD"), ("EURUSD.y", "EURUSD")]);
    assert_eq!(find_external_instrument(&m, &"EURUSD".to_string()), Some(1));
    assert_eq!(find_external_instrument(&m, &"GOLD".to_string()), Some(0));
    assert_eq!(find_external_instrument(&m, &"BTC".to_string()), None);
    assert_eq!(find_external_instrument(&Vec::new(), &"BTC".to_string()), None);
}

#[test]
fn missing_mapping_is_a_rejection() {
    let mut f = OpenPositionFlow::new("EURUSD".to_string(), 0);
    assert_eq!(f.on_mapping(None), Err(OpenABookPositionError::LpReject));
    assert!(matches!(f.stage, OpenPositionStage::Finished));
}

#[test]
fn unmapped_instrument_ends_the_flow() {
    let mut f = OpenPositionFlow::new("BTC".to_string(), 0);
    let m = pairs(&[("EURUSD.x", "EURUSD")]);
    assert_eq!(f.on_mapping(Some(&m)), Err(OpenABookPositionError::InstrumentNotFoundInMapping));
    assert!(matches!(f.stage, OpenPositionStage::Finished));
}

#[test]
fn missing_trading_instrument_ends_the_flow() {
    let mut f = OpenPositionFlow::new("EURUSD".to_string(), 7);
    let m = pairs(&[("EURUSD.x", "EURUSD")]);
    assert_eq!(f.on_mapping(Some(&m)), Ok(()));
    assert_eq!(f.external_instrument(), Some(&"EURUSD.x".to_string()));
    assert_eq!(
        f.on_trading_instrument(false),
        Err(OpenABookPositionError::TradingInstrumentNotFound)
    );
    assert!(matches!(f.stage, OpenPositionStage::Finished));
}

#[test]
fn filled_order_opens_the_position() {
    let mut f = OpenPositionFlow::new("EURUSD".to_string(), 1);
    let m = pairs(&[("EURUSD.x", "EURUSD")]);
    assert_eq!(f.on_mapping(Some(&m)), Ok(()));
    assert_eq!(f.on_trading_instrument(true), Ok(ABookBridgePositionSide::Sell));
    match &f.stage {
        OpenPositionStage::PlacingOrder { external_instrument, side } => {
            assert_eq!(external_instrument, "EURUSD.x");
            assert_eq!(*side, ABookBridgePositionSide::Sell);
        }
        other => panic!("unexpected stage {:?}", other),
    }
    let r = f.on_order_result(Ok(report(OrderStatus::Filled))).unwrap();
    assert_eq!(r.model, 9);
    assert!(matches!(f.stage, OpenPositionStage::Finished));
}

#[test]
fn canceled_order_is_still_answered_with_its_report() {
    let mut f = OpenPositionFlow::new("EURUSD".to_string(), 0);
    let m = pairs(&[("EURUSD.x", "EURUSD")]);
    f.on_mapping(Some(&m)).unwrap();
    assert_eq!(f.on_trading_instrument(true), Ok(ABookBridgePositionSide::Buy));
    let r = f.on_order_result(Ok(report(OrderStatus::Canceled))).unwrap();
    assert_eq!(r.status, OrderStatus::Canceled);
}

#[test]
fn rejected_order_is_an_lp_reject() {
    let mut f = OpenPositionFlow::new("EURUSD".to_string(), 0);
    let m = pairs(&[("EURUSD.x", "EURUSD")]);
    f.on_mapping(Some(&m)).unwrap();
    f.on_trading_instrument(true).unwrap();
    assert_eq!(
        f.on_order_result(Ok(report(OrderStatus::Rejected))).unwrap_err(),
        OpenABookPositionError::LpReject
    );
}

#[test]
fn order_errors_are_mapped() {
    for (e, expected) in [
        (PlaceOrderError::ConnectionNotFound, OpenABookPositionError::Disconnect),
        (PlaceOrderError::MaxIterationsReached, OpenABookPositionError::Timeout),
    ] {
        let mut f = OpenPositionFlow::new("EURUSD".to_string(), 0);
        let m = pairs(&[("EURUSD.x", "EURUSD")]);
        f.on_mapping(Some(&m)).unwrap();
        f.on_trading_instrument(true).unwrap();
        let r: Result<ExecutionReport<u32>, PlaceOrderError> = Err(e);
        assert_eq!(f.on_order_result(r).unwrap_err(), expected);
    }
}

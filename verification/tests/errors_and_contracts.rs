use a_book_bridge::{
    ABookBridgePositionSide, OpenABookPositionError, OpenPositionGrpcResponseStatusCode,
    PlaceOrderError,
};

#[test]
fn lost_connection_is_a_disconnect() {
    let e: OpenABookPositionError = PlaceOrderError::ConnectionNotFound.into();
    assert_eq!(e, OpenABookPositionError::Disconnect);
}

#[test]
fn exhausted_wait_is_a_timeout() {
    let e: OpenABookPositionError = PlaceOrderError::MaxIterationsReached.into();
    assert_eq!(e, OpenABookPositionError::Timeout);
}

#[test]
fn each_error_has_its_status_code() {
    let cases = vec![
        (
            OpenABookPositionError::LiquidityProviderNotFound,
            OpenPositionGrpcResponseStatusCode::LiquidityProviderNotFound,
        ),
        (
            OpenABookPositionError::InstrumentNotFoundInMapping,
            OpenPositionGrpcResponseStatusCode::InstrumentNotFoundInLpMapping,
        ),
        (
            OpenABookPositionError::TradingInstrumentNotFound,
            OpenPositionGrpcResponseStatusCode::TradingInstrumentNotFound,
        ),
        (OpenABookPositionError::LpReject, OpenPositionGrpcResponseStatusCode::LpReject),
        (OpenABookPositionError::Timeout, OpenPositionGrpcResponseStatusCode::Timeout),
        (OpenABookPositionError::Disconnect, OpenPositionGrpcResponseStatusCode::Disconnect),
    ];
    for (error, code) in cases {
        let got: OpenPositionGrpcResponseStatusCode = error.into();
        assert_eq!(got, code);
    }
}

#[test]
fn distinct_errors_have_distinct_status_codes() {
    let errors = vec![
        OpenABookPositionError::LiquidityProviderNotFound,
        OpenABookPositionError::InstrumentNotFoundInMapping,
        OpenABookPositionError::TradingInstrumentNotFound,
        OpenABookPositionError::LpReject,
        OpenABookPositionError::Timeout,
        OpenABookPositionError::Disconnect,
    ];
    for a in &errors {
        for b in &errors {
            let ca: OpenPositionGrpcResponseStatusCode = (*a).into();
            let cb: OpenPositionGrpcResponseStatusCode = (*b).into();
            assert_eq!(ca == cb, a == b);
        }
    }
}

#[test]
fn wire_sides() {
    assert_eq!(ABookBridgePositionSide::from_i32(0), Some(ABookBridgePositionSide::Buy));
    assert_eq!(ABookBridgePositionSide::from_i32(1), Some(ABookBridgePositionSide::Sell));
    assert_eq!(ABookBridgePositionSide::from_i32(2), None);
    assert_eq!(ABookBridgePositionSide::from_i32(-1), None);
}

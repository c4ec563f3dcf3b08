//! The messages of the A-book bridge service as this library reads and answers them.
use vstd::prelude::*;

use crate::errors::OpenABookPositionError;

verus! {

/// The side of a position that a request asks to open.
#[derive(Debug, Clone, Copy, PartialEq, Eq, Structural)]
pub enum ABookBridgePositionSide {
    Buy,
    Sell,
}

impl ABookBridgePositionSide {
    /// The side that a wire value names: `0` buys, `1` sells, any other value names none.
    pub open spec fn side_of_wire(value: i32) -> Option<ABookBridgePositionSide> {
        if value == 0 {
            Some(ABookBridgePositionSide::Buy)
        } else if value == 1 {
            Some(ABookBridgePositionSide::Sell)
        } else {
            None
        }
    }

    /// Reads a side from its wire value.
    pub fn from_i32(value: i32) -> (side: Option<ABookBridgePositionSide>)
        ensures
            side == Self::side_of_wire(value),
    {
        if value == 0 {
            Some(ABookBridgePositionSide::Buy)
        } else if value == 1 {
            Some(ABookBridgePositionSide::Sell)
        } else {
            None
        }
    }
}

/// The status with which the service answers a request it could not carry out.
#[derive(Debug, Clone, Copy, PartialEq, Eq, Structural)]
pub enum OpenPositionGrpcResponseStatusCode {
    LiquidityProviderNotFound,
    InstrumentNotFoundInLpMapping,
    TradingInstrumentNotFound,
    LpReject,
    Timeout,
    Disconnect,
}

/// The status code that answers an error of opening a position.
pub open spec fn status_code_of(e: OpenABookPositionError) -> OpenPositionGrpcResponseStatusCode {
    match e {
        OpenABookPositionError::LiquidityProviderNotFound => OpenPositionGrpcResponseStatusCode::LiquidityProviderNotFound,
        OpenABookPositionError::InstrumentNotFoundInMapping => OpenPositionGrpcResponseStatusCode::InstrumentNotFoundInLpMapping,
        OpenABookPositionError::TradingInstrumentNotFound => OpenPositionGrpcResponseStatusCode::TradingInstrumentNotFound,
        OpenABookPositionError::LpReject => OpenPositionGrpcResponseStatusCode::LpReject,
        OpenABookPositionError::Timeout => OpenPositionGrpcResponseStatusCode::Timeout,
        OpenABookPositionError::Disconnect => OpenPositionGrpcResponseStatusCode::Disconnect,
    }
}

impl From<OpenABookPositionError> for OpenPositionGrpcResponseStatusCode {
    fn from(e: OpenABookPositionError) -> (r: Self) {
        match e {
            OpenABookPositionError::LiquidityProviderNotFound => OpenPositionGrpcResponseStatusCode::LiquidityProviderNotFound,
            OpenABookPositionError::InstrumentNotFoundInMapping => OpenPositionGrpcResponseStatusCode::InstrumentNotFoundInLpMapping,
            OpenABookPositionError::TradingInstrumentNotFound => OpenPositionGrpcResponseStatusCode::TradingInstrumentNotFound,
            OpenABookPositionError::LpReject => OpenPositionGrpcResponseStatusCode::LpReject,
            OpenABookPositionError::Timeout => OpenPositionGrpcResponseStatusCode::Timeout,
            OpenABookPositionError::Disconnect => OpenPositionGrpcResponseStatusCode::Disconnect,
        }
    }
}

impl vstd::std_specs::convert::FromSpecImpl<OpenABookPositionError> for OpenPositionGrpcResponseStatusCode {
    open spec fn obeys_from_spec() -> bool {
        true
    }

    open spec fn from_spec(v: OpenABookPositionError) -> Self {
        status_code_of(v)
    }
}

/// Distinct errors are answered with distinct status codes, and every status code answers
/// some error: a caller can tell from the status alone why its request failed.
pub proof fn lemma_status_code_is_a_bijection(a: OpenABookPositionError, b: OpenABookPositionError, c: OpenPositionGrpcResponseStatusCode)
    ensures
        status_code_of(a) == status_code_of(b) ==> a == b,
        exists|e: OpenABookPositionError| status_code_of(e) == c,
{
    match c {
        OpenPositionGrpcResponseStatusCode::LiquidityProviderNotFound => assert(status_code_of(OpenABookPositionError::LiquidityProviderNotFound) == c),
        OpenPositionGrpcResponseStatusCode::InstrumentNotFoundInLpMapping => assert(status_code_of(OpenABookPositionError::InstrumentNotFoundInMapping) == c),
        OpenPositionGrpcResponseStatusCode::TradingInstrumentNotFound => assert(status_code_of(OpenABookPositionError::TradingInstrumentNotFound) == c),
        OpenPositionGrpcResponseStatusCode::LpReject => assert(status_code_of(OpenABookPositionError::LpReject) == c),
        OpenPositionGrpcResponseStatusCode::Timeout => assert(status_code_of(OpenABookPositionError::Timeout) == c),
        OpenPositionGrpcResponseStatusCode::Disconnect => assert(status_code_of(OpenABookPositionError::Disconnect) == c),
    }
}

} // verus!

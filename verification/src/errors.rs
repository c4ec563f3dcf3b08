//! The errors of placing an order and of opening a position.
use vstd::prelude::*;

verus! {

/// Why an order could not be placed.
#[derive(Debug, Clone, Copy, PartialEq, Eq, Structural)]
pub enum PlaceOrderError {
    /// No connection to the liquidity provider is up.
    ConnectionNotFound,
    /// No execution report came for the order while it was waited for.
    MaxIterationsReached,
}

/// Why a position could not be opened on the A-book.
#[derive(Debug, Clone, Copy, PartialEq, Eq, Structural)]
pub enum OpenABookPositionError {
    LiquidityProviderNotFound,
    InstrumentNotFoundInMapping,
    TradingInstrumentNotFound,
    LpReject,
    Timeout,
    Disconnect,
}

/// The error of opening a position that a failure to place its order amounts to.
pub open spec fn open_position_error_of(e: PlaceOrderError) -> OpenABookPositionError {
    match e {
        PlaceOrderError::ConnectionNotFound => OpenABookPositionError::Disconnect,
        PlaceOrderError::MaxIterationsReached => OpenABookPositionError::Timeout,
    }
}

impl From<PlaceOrderError> for OpenABookPositionError {
    fn from(e: PlaceOrderError) -> (r: Self) {
        match e {
            PlaceOrderError::ConnectionNotFound => OpenABookPositionError::Disconnect,
            PlaceOrderError::MaxIterationsReached => OpenABookPositionError::Timeout,
        }
    }
}

impl vstd::std_specs::convert::FromSpecImpl<PlaceOrderError> for OpenABookPositionError {
    open spec fn obeys_from_spec() -> bool {
        true
    }

    open spec fn from_spec(v: PlaceOrderError) -> Self {
        open_position_error_of(v)
    }
}

} // verus!

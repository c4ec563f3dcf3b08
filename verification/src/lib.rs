//! The A-book bridge: it opens positions of the trading platform with an outside liquidity
//! provider. This library holds its decisions: which instrument and side an order is placed
//! with, what the feed of the liquidity provider's messages does to the session, how long an
//! order waits for its execution report, where a price comes from, and how each failure is
//! answered.
pub mod connection;
pub mod contracts;
pub mod errors;
pub mod flow;
pub mod pricing;
pub mod processor;
pub mod reports;
pub mod search;
pub mod settings;
pub mod waiting;

pub use connection::ConnectionContainer;
pub use contracts::{ABookBridgePositionSide, OpenPositionGrpcResponseStatusCode};
pub use errors::{OpenABookPositionError, PlaceOrderError};
pub use flow::{find_external_instrument, OpenPositionFlow, OpenPositionStage};
pub use pricing::{price_source, quotes_needed, InstrumentInfo, PriceSource};
pub use processor::{
    ABookTcpEventProcessor, FeedNotice, FixEvent, PayloadAction, ReportBookKind, UnexpectedFeed,
};
pub use reports::{ExecutionReport, OrderStatus, ReportBook};
pub use settings::Settings;
pub use waiting::{OrderPoll, PollStep, MAX_REPORT_LOOKUPS};

use a_book_bridge::{
    ABookTcpEventProcessor, ConnectionContainer, ExecutionReport, FeedNotice, FixEvent,
    OrderPoll, OrderStatus, PayloadAction, PlaceOrderError, PollStep, ReportBook, ReportBookKind,
    UnexpectedFeed,
};

fn report(id: &str, status: OrderStatus, model: u32) -> ExecutionReport<u32> {
    ExecutionReport { internal_order_id: id.to_string(), status, model }
}

#[test]
fn container_read_after_write() {
    let mut c: ConnectionContainer<u32> = ConnectionContainer::new();
    assert_eq!(c.get_connection(), None);
    c.init_connection(7);
    assert_eq!(c.get_connection(), Some(&7));
    c.init_connection(8);
    assert_eq!(c.get_connection(), Some(&8));
    c.remove_connection();
    assert_eq!(c.get_connection(), None);
}

#[test]
fn book_insert_remove_and_replace() {
    let mut book: ReportBook<u32> = ReportBook::new();
    assert!(book.remove(&"a".to_string()).is_none());
    book.insert(report("a", OrderStatus::Filled, 1));
    book.insert(report("b", OrderStatus::Filled, 2));
    book.insert(report("a", OrderStatus::Filled, 3));
    let a = book.remove(&"a".to_string()).unwrap();
    assert_eq!(a.model, 3);
    assert!(book.remove(&"a".to_string()).is_none());
    let b = book.remove(&"b".to_string()).unwrap();
    assert_eq!(b.model, 2);
    assert_eq!(b.internal_order_id, "b");
}

#[test]
fn orders_need_a_connection() {
    let mut p: ABookTcpEventProcessor<&str, u32> = ABookTcpEventProcessor::new();
    assert_eq!(p.get_connection().unwrap_err(), PlaceOrderError::ConnectionNotFound);
    p.connected("fix");
    assert_eq!(*p.get_connection().unwrap(), "fix");
    p.disconnected();
    assert_eq!(p.get_connection().unwrap_err(), PlaceOrderError::ConnectionNotFound);
}

#[test]
fn filled_report_reaches_its_order() {
    let mut p: ABookTcpEventProcessor<(), u32> = ABookTcpEventProcessor::new();
    let action = p.payload(FixEvent::ExecutionReport(report("o1", OrderStatus::Filled, 10)));
    assert_eq!(action, PayloadAction::Recorded(ReportBookKind::Success));
    let got = p.take_report(&"o1".to_string()).unwrap();
    assert_eq!(got.model, 10);
    assert_eq!(got.status, OrderStatus::Filled);
    assert!(p.take_report(&"o1".to_string()).is_none());
}

#[test]
fn failed_reports_reach_their_order() {
    let mut p: ABookTcpEventProcessor<(), u32> = ABookTcpEventProcessor::new();
    assert_eq!(
        p.payload(FixEvent::ExecutionReport(report("c", OrderStatus::Canceled, 1))),
        PayloadAction::Recorded(ReportBookKind::Failed)
    );
    assert_eq!(
        p.payload(FixEvent::ExecutionReport(report("r", OrderStatus::Rejected, 2))),
        PayloadAction::Recorded(ReportBookKind::Failed)
    );
    assert_eq!(p.take_report(&"c".to_string()).unwrap().status, OrderStatus::Canceled);
    assert_eq!(p.take_report(&"r".to_string()).unwrap().model, 2);
    assert!(p.take_report(&"r".to_string()).is_none());
}

#[test]
fn filled_report_comes_before_a_failed_one() {
    let mut p: ABookTcpEventProcessor<(), u32> = ABookTcpEventProcessor::new();
    p.payload(FixEvent::ExecutionReport(report("x", OrderStatus::Rejected, 1)));
    p.payload(FixEvent::ExecutionReport(report("x", OrderStatus::Filled, 2)));
    assert_eq!(p.take_report(&"x".to_string()).unwrap().model, 2);
    assert_eq!(p.take_report(&"x".to_string()).unwrap().model, 1);
    assert!(p.take_report(&"x".to_string()).is_none());
}

#[test]
fn reports_of_orders_underway_are_ignored() {
    let mut p: ABookTcpEventProcessor<(), u32> = ABookTcpEventProcessor::new();
    assert_eq!(
        p.payload(FixEvent::ExecutionReport(report("p", OrderStatus::PendingNew, 1))),
        PayloadAction::Ignored
    );
    assert_eq!(
        p.payload(FixEvent::ExecutionReport(report("p", OrderStatus::PartiallyFilled, 2))),
        PayloadAction::Ignored
    );
    assert!(p.take_report(&"p".to_string()).is_none());
}

#[test]
fn other_messages_of_the_feed() {
    let mut p: ABookTcpEventProcessor<(), u32> = ABookTcpEventProcessor::new();
    assert_eq!(p.payload(FixEvent::Logon), PayloadAction::Notify(FeedNotice::LogonConfirmed));
    assert_eq!(p.payload(FixEvent::Reject), PayloadAction::Notify(FeedNotice::Rejected));
    assert_eq!(p.payload(FixEvent::Logout), PayloadAction::Notify(FeedNotice::LoggedOut));
    assert_eq!(p.payload(FixEvent::Others), PayloadAction::Notify(FeedNotice::Others));
    assert_eq!(p.payload(FixEvent::Pong), PayloadAction::Notify(FeedNotice::Pong));
    assert_eq!(p.payload(FixEvent::Ping), PayloadAction::Notify(FeedNotice::Ping));
    assert_eq!(p.payload(FixEvent::Unhandled), PayloadAction::Ignored);
    assert_eq!(
        p.payload(FixEvent::MarketData),
        PayloadAction::Unexpected(UnexpectedFeed::MarketData)
    );
    assert_eq!(
        p.payload(FixEvent::MarketDataReject),
        PayloadAction::Unexpected(UnexpectedFeed::MarketDataReject)
    );
}

#[test]
fn feed_leaves_the_connection_alone() {
    let mut p: ABookTcpEventProcessor<u8, u32> = ABookTcpEventProcessor::new();
    p.connected(5);
    p.payload(FixEvent::ExecutionReport(report("k", OrderStatus::Filled, 1)));
    p.payload(FixEvent::Logout);
    p.take_report(&"k".to_string());
    assert_eq!(*p.get_connection().unwrap(), 5);
}

#[test]
fn later_filled_report_replaces_earlier_across_other_calls() {
    let mut p: ABookTcpEventProcessor<u8, u32> = ABookTcpEventProcessor::new();
    p.payload(FixEvent::ExecutionReport(report("k", OrderStatus::Filled, 1)));
    p.connected(3);
    p.payload(FixEvent::ExecutionReport(report("other", OrderStatus::Filled, 5)));
    assert!(p.take_report(&"other".to_string()).is_some());
    p.payload(FixEvent::Ping);
    p.payload(FixEvent::ExecutionReport(report("k", OrderStatus::Filled, 2)));
    p.disconnected();
    p.payload(FixEvent::ExecutionReport(report("x", OrderStatus::Rejected, 6)));
    assert_eq!(p.take_report(&"k".to_string()).unwrap().model, 2);
    assert!(p.take_report(&"k".to_string()).is_none());
}

#[test]
fn filled_report_after_connecting_answers_at_first_lookup() {
    let mut p: ABookTcpEventProcessor<u8, u32> = ABookTcpEventProcessor::new();
    p.connected(9);
    p.payload(FixEvent::ExecutionReport(report("o", OrderStatus::Filled, 77)));
    p.payload(FixEvent::ExecutionReport(report("z", OrderStatus::Canceled, 1)));
    p.payload(FixEvent::Logon);
    assert_eq!(*p.get_connection().unwrap(), 9);
    let mut poll = OrderPoll::new();
    assert!(poll.may_look_up().is_ok());
    match poll.on_lookup(p.take_report(&"o".to_string())) {
        PollStep::Ready(r) => assert_eq!(r.model, 77),
        PollStep::Pause => panic!("the report was delivered"),
    }
}

#[test]
fn reports_underway_never_answer_and_the_wait_gives_up() {
    let mut p: ABookTcpEventProcessor<u8, u32> = ABookTcpEventProcessor::new();
    p.connected(1);
    let mut poll = OrderPoll::new();
    let mut lookups = 0;
    let outcome = loop {
        if let Err(e) = poll.may_look_up() {
            break e;
        }
        p.payload(FixEvent::ExecutionReport(report("u", OrderStatus::PendingNew, 1)));
        p.payload(FixEvent::ExecutionReport(report("u", OrderStatus::PartiallyFilled, 2)));
        p.payload(FixEvent::ExecutionReport(report("v", OrderStatus::Filled, 3)));
        lookups += 1;
        match poll.on_lookup(p.take_report(&"u".to_string())) {
            PollStep::Ready(_) => panic!("no final report was delivered"),
            PollStep::Pause => {}
        }
    };
    assert_eq!(outcome, PlaceOrderError::MaxIterationsReached);
    assert_eq!(lookups, 11);
}

//! What the bridge keeps of its session with the liquidity provider: the connection, and the
//! execution reports that wait for the orders they answer; and what it does with each message
//! of the feed.
use vstd::prelude::*;

use crate::connection::ConnectionContainer;
use crate::errors::PlaceOrderError;
use crate::reports::{lookup, ExecutionReport, OrderStatus, ReportBook};

verus! {

/// A message of the liquidity provider's feed, as far as the bridge tells them apart.
#[derive(Debug)]
pub enum FixEvent<R> {
    Logon,
    Reject,
    Logout,
    MarketData,
    MarketDataReject,
    ExecutionReport(ExecutionReport<R>),
    Others,
    Pong,
    Ping,
    /// Any other message of the feed.
    Unhandled,
}

/// A message of the feed that is only worth a line in the log.
#[derive(Debug, Clone, Copy, PartialEq, Eq, Structural)]
pub enum FeedNotice {
    LogonConfirmed,
    Rejected,
    LoggedOut,
    Others,
    Pong,
    Ping,
}

/// A message that the bridge never expects from the feed.
#[derive(Debug, Clone, Copy, PartialEq, Eq, Structural)]
pub enum UnexpectedFeed {
    MarketData,
    MarketDataReject,
}

/// The book that holds reports of one kind.
#[derive(Debug, Clone, Copy, PartialEq, Eq, Structural)]
pub enum ReportBookKind {
    /// Reports of filled orders.
    Success,
    /// Reports of canceled or rejected orders.
    Failed,
}

/// What the bridge does with a message of the feed.
#[derive(Debug, Clone, Copy, PartialEq, Eq, Structural)]
pub enum PayloadAction {
    /// Write a line about it to the log.
    Notify(FeedNotice),
    /// Stop: the message breaks what the bridge relies on.
    Unexpected(UnexpectedFeed),
    /// The report was recorded in this book.
    Recorded(ReportBookKind),
    /// Nothing to do.
    Ignored,
}

/// The book that a report of an order with this status belongs to; reports of orders still
/// underway belong to none.
pub open spec fn book_for(status: OrderStatus) -> Option<ReportBookKind> {
    match status {
        OrderStatus::Filled => Some(ReportBookKind::Success),
        OrderStatus::Canceled => Some(ReportBookKind::Failed),
        OrderStatus::Rejected => Some(ReportBookKind::Failed),
        OrderStatus::PendingNew => None,
        OrderStatus::PartiallyFilled => None,
    }
}

/// What the bridge does with `event`.
pub open spec fn action_for<R>(event: FixEvent<R>) -> PayloadAction {
    match event {
        FixEvent::Logon => PayloadAction::Notify(FeedNotice::LogonConfirmed),
        FixEvent::Reject => PayloadAction::Notify(FeedNotice::Rejected),
        FixEvent::Logout => PayloadAction::Notify(FeedNotice::LoggedOut),
        FixEvent::MarketData => PayloadAction::Unexpected(UnexpectedFeed::MarketData),
        FixEvent::MarketDataReject => PayloadAction::Unexpected(UnexpectedFeed::MarketDataReject),
        FixEvent::ExecutionReport(report) => match book_for(report.status) {
            Some(kind) => PayloadAction::Recorded(kind),
            None => PayloadAction::Ignored,
        },
        FixEvent::Others => PayloadAction::Notify(FeedNotice::Others),
        FixEvent::Pong => PayloadAction::Notify(FeedNotice::Pong),
        FixEvent::Ping => PayloadAction::Notify(FeedNotice::Ping),
        FixEvent::Unhandled => PayloadAction::Ignored,
    }
}

/// The state of the processor as its contracts speak of it.
pub ghost struct ProcessorState<C, R> {
    pub connection: Option<C>,
    pub success: Map<Seq<char>, ExecutionReport<R>>,
    pub failed: Map<Seq<char>, ExecutionReport<R>>,
}

/// The state of a processor just made: no connection and no report.
pub open spec fn initial_session<C, R>() -> ProcessorState<C, R> {
    ProcessorState {
        connection: None,
        success: Map::<Seq<char>, ExecutionReport<R>>::empty(),
        failed: Map::<Seq<char>, ExecutionReport<R>>::empty(),
    }
}

/// The state after the processor handled `event`.
pub open spec fn after_payload<C, R>(s: ProcessorState<C, R>, event: FixEvent<R>) -> ProcessorState<C, R> {
    match event {
        FixEvent::ExecutionReport(report) => match book_for(report.status) {
            Some(ReportBookKind::Success) => ProcessorState {
                success: s.success.insert(report.internal_order_id@, report),
                ..s
            },
            Some(ReportBookKind::Failed) => ProcessorState {
                failed: s.failed.insert(report.internal_order_id@, report),
                ..s
            },
            None => s,
        },
        _ => s,
    }
}

/// The report that a look-up for `id` hands out: one of a filled order first, else one of a
/// canceled or rejected order, else none.
pub open spec fn report_taken<C, R>(s: ProcessorState<C, R>, id: Seq<char>) -> Option<ExecutionReport<R>> {
    if s.success.dom().contains(id) {
        Some(s.success[id])
    } else {
        lookup(s.failed, id)
    }
}

/// The state after a look-up for `id`: the report handed out is no longer held.
pub open spec fn after_take<C, R>(s: ProcessorState<C, R>, id: Seq<char>) -> ProcessorState<C, R> {
    if s.success.dom().contains(id) {
        ProcessorState { success: s.success.remove(id), ..s }
    } else {
        ProcessorState { failed: s.failed.remove(id), ..s }
    }
}

/// The connection of a state, or the error that placing an order meets without one.
pub open spec fn connection_or_error<C, R>(s: ProcessorState<C, R>) -> Result<C, PlaceOrderError> {
    match s.connection {
        Some(c) => Ok(c),
        None => Err(PlaceOrderError::ConnectionNotFound),
    }
}

/// The session of the bridge with the liquidity provider: the connection while it is up, and
/// the execution reports received that no order has looked up yet, in two books.
pub struct ABookTcpEventProcessor<C, R> {
    active_connection: ConnectionContainer<C>,
    success_orders: ReportBook<R>,
    failed_orders: ReportBook<R>,
}

impl<C, R> View for ABookTcpEventProcessor<C, R> {
    type V = ProcessorState<C, R>;

    closed spec fn view(&self) -> ProcessorState<C, R> {
        ProcessorState {
            connection: self.active_connection@,
            success: self.success_orders@,
            failed: self.failed_orders@,
        }
    }
}

impl<C, R> ABookTcpEventProcessor<C, R> {
    /// Both books are well formed.
    pub closed spec fn wf(&self) -> bool {
        self.success_orders.wf() && self.failed_orders.wf()
    }

    /// A processor with no connection and no report.
    pub fn new() -> (p: Self)
        ensures
            p.wf(),
            p@ == initial_session::<C, R>(),
    {
        ABookTcpEventProcessor {
            active_connection: ConnectionContainer::new(),
            success_orders: ReportBook::new(),
            failed_orders: ReportBook::new(),
        }
    }

    /// A connection to the liquidity provider came up: it is the one orders go through now.
    pub fn connected(&mut self, connection: C)
        requires
            old(self).wf(),
        ensures
            final(self).wf(),
            final(self)@ == (ProcessorState { connection: Some(connection), ..old(self)@ }),
    {
        self.active_connection.init_connection(connection);
    }

    /// The connection to the liquidity provider went down.
    pub fn disconnected(&mut self)
        requires
            old(self).wf(),
        ensures
            final(self).wf(),
            final(self)@ == (ProcessorState { connection: None::<C>, ..old(self)@ }),
    {
        self.active_connection.remove_connection();
    }

    /// The connection that an order goes through, or `ConnectionNotFound` while none is up.
    pub fn get_connection(&self) -> (r: Result<&C, PlaceOrderError>)
        ensures
            r is Ok <==> self@.connection is Some,
            r matches Ok(c) ==> Ok::<C, PlaceOrderError>(*c) == connection_or_error(self@),
            r matches Err(e) ==> Err::<C, PlaceOrderError>(e) == connection_or_error(self@),
    {
        match self.active_connection.get_connection() {
            Some(c) => Ok(c),
            None => Err(PlaceOrderError::ConnectionNotFound),
        }
    }

    /// Handles a message of the feed: a report of a filled order goes to the success book, one
    /// of a canceled or rejected order to the failed book, any other message changes nothing.
    /// The result says what else is to be done.
    pub fn payload(&mut self, event: FixEvent<R>) -> (action: PayloadAction)
        requires
            old(self).wf(),
        ensures
            final(self).wf(),
            action == action_for(event),
            final(self)@ == after_payload(old(self)@, event),
    {
        match event {
            FixEvent::Logon => PayloadAction::Notify(FeedNotice::LogonConfirmed),
            FixEvent::Reject => PayloadAction::Notify(FeedNotice::Rejected),
            FixEvent::Logout => PayloadAction::Notify(FeedNotice::LoggedOut),
            FixEvent::MarketData => PayloadAction::Unexpected(UnexpectedFeed::MarketData),
            FixEvent::MarketDataReject => PayloadAction::Unexpected(UnexpectedFeed::MarketDataReject),
            FixEvent::ExecutionReport(report) => match report.status {
                OrderStatus::PendingNew => PayloadAction::Ignored,
                OrderStatus::PartiallyFilled => PayloadAction::Ignored,
                OrderStatus::Filled => {
                    self.success_orders.insert(report);
                    PayloadAction::Recorded(ReportBookKind::Success)
                },
                OrderStatus::Canceled => {
                    self.failed_orders.insert(report);
                    PayloadAction::Recorded(ReportBookKind::Failed)
                },
                OrderStatus::Rejected => {
                    self.failed_orders.insert(report);
                    PayloadAction::Recorded(ReportBookKind::Failed)
                },
            },
            FixEvent::Others => PayloadAction::Notify(FeedNotice::Others),
            FixEvent::Pong => PayloadAction::Notify(FeedNotice::Pong),
            FixEvent::Ping => PayloadAction::Notify(FeedNotice::Ping),
            FixEvent::Unhandled => PayloadAction::Ignored,
        }
    }

    /// Looks up the report for the order `id` and takes it out of its book: a report of a
    /// filled order first, else one of a canceled or rejected order.
    pub fn take_report(&mut self, id: &String) -> (r: Option<ExecutionReport<R>>)
        requires
            old(self).wf(),
        ensures
            final(self).wf(),
            r == report_taken(old(self)@, id@),
            final(self)@ == after_take(old(self)@, id@),
    {
        match self.success_orders.remove(id) {
            Some(report) => Some(report),
            None => {
                assert(self.success_orders@ =~= old(self).success_orders@);
                self.failed_orders.remove(id)
            },
        }
    }
}


/// A report of a filled order is what the next look-up for that order hands out, and the
/// look-up takes it out of the success book and leaves the failed book as it was.
pub proof fn lemma_filled_report_reaches_its_order<C, R>(s: ProcessorState<C, R>, report: ExecutionReport<R>)
    requires
        report.status == OrderStatus::Filled,
    ensures
        ({
            let id = report.internal_order_id@;
            let s1 = after_payload(s, FixEvent::ExecutionReport(report));
            &&& report_taken(s1, id) == Some(report)
            &&& after_take(s1, id).success == s.success.remove(id)
            &&& after_take(s1, id).failed == s.failed
        }),
{
    let id = report.internal_order_id@;
    assert(s.success.insert(id, report).remove(id) =~= s.success.remove(id));
}

/// A report of a canceled or rejected order is what the next look-up for that order hands
/// out, unless a report of the order being filled waits too: that one comes first.
pub proof fn lemma_failed_report_reaches_its_order<C, R>(s: ProcessorState<C, R>, report: ExecutionReport<R>)
    requires
        report.status == OrderStatus::Canceled || report.status == OrderStatus::Rejected,
    ensures
        ({
            let id = report.internal_order_id@;
            let s1 = after_payload(s, FixEvent::ExecutionReport(report));
            &&& s.success.dom().contains(id) ==> report_taken(s1, id) == Some(s.success[id])
            &&& !s.success.dom().contains(id) ==> report_taken(s1, id) == Some(report)
        }),
{
}

/// Only reports of filled, canceled or rejected orders change the state; every other message,
/// reports of orders still underway among them, leaves it as it was. No message of the feed
/// touches the connection.
pub proof fn lemma_only_final_reports_change_the_state<C, R>(s: ProcessorState<C, R>, event: FixEvent<R>)
    ensures
        !(action_for(event) is Recorded) ==> after_payload(s, event) == s,
        after_payload(s, event).connection == s.connection,
{
}

/// Market data, and rejections of it, are never expected from the feed.
pub proof fn lemma_market_data_is_unexpected<R>(event: FixEvent<R>)
    ensures
        (event is MarketData || event is MarketDataReject) <==> action_for(event) is Unexpected,
{
}

/// A look-up hands a report out once: after it, no report of a filled order waits for the
/// order; if the report came from the failed book, none waits there either; a look-up that
/// finds nothing changes nothing. Look-ups never touch the connection.
pub proof fn lemma_take_hands_out_once<C, R>(s: ProcessorState<C, R>, id: Seq<char>)
    ensures
        !after_take(s, id).success.dom().contains(id),
        !s.success.dom().contains(id) ==> !after_take(s, id).failed.dom().contains(id),
        report_taken(s, id) is None ==> after_take(s, id) == s,
        after_take(s, id).connection == s.connection,
{
    if report_taken(s, id) is None {
        assert(s.failed.remove(id) =~= s.failed);
    }
}

/// Orders go through the connection that came up last, and through none once it went down.
pub proof fn lemma_connection_read_after_write<C, R>(s: ProcessorState<C, R>, c: C)
    ensures
        connection_or_error(ProcessorState { connection: Some(c), ..s }) == Ok::<C, PlaceOrderError>(c),
        connection_or_error(ProcessorState { connection: None::<C>, ..s }) == Err::<C, PlaceOrderError>(PlaceOrderError::ConnectionNotFound),
{
}

/// A call that the processor receives, as far as its state is concerned: `connected`,
/// `disconnected`, `payload`, or `take_report` for an order id.
pub ghost enum SessionCall<C, R> {
    Connected(C),
    Disconnected,
    Payload(FixEvent<R>),
    Take(Seq<char>),
}

/// The state after one call, as the contract of that call states it.
pub open spec fn after_call<C, R>(s: ProcessorState<C, R>, call: SessionCall<C, R>) -> ProcessorState<C, R> {
    match call {
        SessionCall::Connected(c) => ProcessorState { connection: Some(c), ..s },
        SessionCall::Disconnected => ProcessorState { connection: None, ..s },
        SessionCall::Payload(event) => after_payload(s, event),
        SessionCall::Take(id) => after_take(s, id),
    }
}

/// The state after a sequence of calls, in order.
pub open spec fn run_calls<C, R>(s: ProcessorState<C, R>, calls: Seq<SessionCall<C, R>>) -> ProcessorState<C, R>
    decreases calls.len(),
{
    if calls.len() == 0 {
        s
    } else {
        run_calls(after_call(s, calls[0]), calls.drop_first())
    }
}

/// Whether a call is about the order `id`: a report for it, or a look-up for it.
pub open spec fn concerns<C, R>(call: SessionCall<C, R>, id: Seq<char>) -> bool {
    match call {
        SessionCall::Payload(FixEvent::ExecutionReport(report)) => report.internal_order_id@ == id,
        SessionCall::Take(k) => k == id,
        _ => false,
    }
}

/// Whether a call changes the connection.
pub open spec fn moves_connection<C, R>(call: SessionCall<C, R>) -> bool {
    call is Connected || call is Disconnected
}

/// A report of an order still underway.
pub open spec fn underway(status: OrderStatus) -> bool {
    status == OrderStatus::PendingNew || status == OrderStatus::PartiallyFilled
}

/// Every report in the success book is held under its own order id and is of a filled order;
/// every report in the failed book is held under its own order id and is of a canceled or
/// rejected order.
pub open spec fn books_consistent<C, R>(s: ProcessorState<C, R>) -> bool {
    &&& forall|k: Seq<char>|
        #[trigger] s.success.dom().contains(k) ==> s.success[k].internal_order_id@ == k
            && s.success[k].status == OrderStatus::Filled
    &&& forall|k: Seq<char>|
        #[trigger] s.failed.dom().contains(k) ==> s.failed[k].internal_order_id@ == k && (
        s.failed[k].status == OrderStatus::Canceled || s.failed[k].status == OrderStatus::Rejected)
}

/// Every call keeps the books consistent.
pub proof fn lemma_call_keeps_books_consistent<C, R>(s: ProcessorState<C, R>, call: SessionCall<C, R>)
    requires
        books_consistent(s),
    ensures
        books_consistent(after_call(s, call)),
{
}

/// A processor just made has consistent books, and any sequence of calls keeps them so: the
/// success book only ever holds reports of filled orders, the failed book only reports of
/// canceled or rejected ones, each under its own order id.
pub proof fn lemma_session_keeps_books_consistent<C, R>(s: ProcessorState<C, R>, calls: Seq<SessionCall<C, R>>)
    requires
        books_consistent(s),
    ensures
        books_consistent(initial_session::<C, R>()),
        books_consistent(run_calls(s, calls)),
    decreases calls.len(),
{
    if calls.len() > 0 {
        lemma_call_keeps_books_consistent(s, calls[0]);
        lemma_session_keeps_books_consistent(after_call(s, calls[0]), calls.drop_first());
    }
}

/// With consistent books, a look-up for `id` hands out a report of that order, and never one
/// of an order still pending or partially filled.
pub proof fn lemma_taken_report_is_final<C, R>(s: ProcessorState<C, R>, id: Seq<char>)
    requires
        books_consistent(s),
    ensures
        report_taken(s, id) matches Some(r) ==> r.internal_order_id@ == id && !underway(r.status),
{
}

/// A call that is not about the order `id` leaves what the books hold for `id` alone.
pub proof fn lemma_other_call_keeps_order<C, R>(s: ProcessorState<C, R>, call: SessionCall<C, R>, id: Seq<char>)
    requires
        !concerns(call, id),
    ensures
        lookup(after_call(s, call).success, id) == lookup(s.success, id),
        lookup(after_call(s, call).failed, id) == lookup(s.failed, id),
        !moves_connection(call) ==> after_call(s, call).connection == s.connection,
{
}

/// Calls that are not about the order `id` leave what the books hold for `id` alone, and calls
/// that do not move the connection leave the connection alone.
pub proof fn lemma_other_calls_keep_order<C, R>(s: ProcessorState<C, R>, calls: Seq<SessionCall<C, R>>, id: Seq<char>)
    requires
        forall|i: int| 0 <= i < calls.len() ==> !concerns(#[trigger] calls[i], id),
    ensures
        lookup(run_calls(s, calls).success, id) == lookup(s.success, id),
        lookup(run_calls(s, calls).failed, id) == lookup(s.failed, id),
        (forall|i: int| 0 <= i < calls.len() ==> !moves_connection(#[trigger] calls[i]))
            ==> run_calls(s, calls).connection == s.connection,
    decreases calls.len(),
{
    if calls.len() > 0 {
        lemma_other_call_keeps_order(s, calls[0], id);
        assert forall|i: int| 0 <= i < calls.drop_first().len() implies !concerns(#[trigger] calls.drop_first()[i], id) by {
            assert(calls.drop_first()[i] == calls[i + 1]);
        }
        lemma_other_calls_keep_order(after_call(s, calls[0]), calls.drop_first(), id);
        if forall|i: int| 0 <= i < calls.len() ==> !moves_connection(#[trigger] calls[i]) {
            assert(!moves_connection(calls[0]));
            assert forall|i: int| 0 <= i < calls.drop_first().len() implies !moves_connection(#[trigger] calls.drop_first()[i]) by {
                assert(calls.drop_first()[i] == calls[i + 1]);
            }
        }
    }
}

/// Running `a` and then `b` is running their concatenation.
pub proof fn lemma_run_calls_append<C, R>(s: ProcessorState<C, R>, a: Seq<SessionCall<C, R>>, b: Seq<SessionCall<C, R>>)
    ensures
        run_calls(s, a + b) == run_calls(run_calls(s, a), b),
    decreases a.len(),
{
    if a.len() > 0 {
        assert((a + b).drop_first() =~= a.drop_first() + b);
        lemma_run_calls_append(after_call(s, a[0]), a.drop_first(), b);
    } else {
        assert(a + b =~= b);
    }
}

/// A later report of the same order being filled takes the place of an earlier one, whatever
/// calls about other orders come before, between and after them: the success book then holds
/// the later report for the order.
pub proof fn lemma_later_filled_report_replaces_earlier<C, R>(
    s: ProcessorState<C, R>,
    before: Seq<SessionCall<C, R>>,
    first: ExecutionReport<R>,
    between: Seq<SessionCall<C, R>>,
    second: ExecutionReport<R>,
    after: Seq<SessionCall<C, R>>,
)
    requires
        first.status == OrderStatus::Filled,
        second.status == OrderStatus::Filled,
        first.internal_order_id@ == second.internal_order_id@,
        forall|i: int| 0 <= i < between.len() ==> !concerns(#[trigger] between[i], second.internal_order_id@),
        forall|i: int| 0 <= i < after.len() ==> !concerns(#[trigger] after[i], second.internal_order_id@),
    ensures
        ({
            let calls = before + seq![SessionCall::Payload(FixEvent::ExecutionReport(first))] + between
                + seq![SessionCall::Payload(FixEvent::ExecutionReport(second))] + after;
            lookup(run_calls(s, calls).success, second.internal_order_id@) == Some(second)
        }),
{
    let id = second.internal_order_id@;
    let p1 = seq![SessionCall::Payload(FixEvent::ExecutionReport(first))];
    let p2 = seq![SessionCall::Payload(FixEvent::ExecutionReport(second))];
    lemma_run_calls_append(s, before + p1 + between, p2 + after);
    assert(before + p1 + between + p2 + after =~= (before + p1 + between) + (p2 + after));
    let mid = run_calls(s, before + p1 + between);
    lemma_run_calls_append(mid, p2, after);
    assert(p2.drop_first() =~= Seq::<SessionCall<C, R>>::empty());
    assert(run_calls(after_call(mid, p2[0]), p2.drop_first()) == after_call(mid, p2[0]));
    assert(run_calls(mid, p2) == after_call(mid, p2[0]));
    lemma_other_calls_keep_order(run_calls(mid, p2), after, id);
}

/// A report of a filled order that arrives after the connection came up is what the next
/// look-up for that order hands out, across any calls in between that neither move the
/// connection nor concern the order: the order goes through that connection, its wait ends
/// with the report at the first look-up, and the look-up takes it out of the success book.
pub proof fn lemma_filled_report_after_connecting_answers_the_order<C, R>(
    s: ProcessorState<C, R>,
    c: C,
    report: ExecutionReport<R>,
    between: Seq<SessionCall<C, R>>,
    found: spec_fn(nat) -> Option<ExecutionReport<R>>,
)
    requires
        report.status == OrderStatus::Filled,
        forall|i: int| 0 <= i < between.len() ==> !concerns(#[trigger] between[i], report.internal_order_id@),
        forall|i: int| 0 <= i < between.len() ==> !moves_connection(#[trigger] between[i]),
    ensures
        ({
            let id = report.internal_order_id@;
            let calls = seq![SessionCall::Connected(c), SessionCall::Payload(FixEvent::ExecutionReport(report))] + between;
            let t = run_calls(s, calls);
            &&& connection_or_error(t) == Ok::<C, PlaceOrderError>(c)
            &&& report_taken(t, id) == Some(report)
            &&& !after_take(t, id).success.dom().contains(id)
            &&& found(0) == report_taken(t, id) ==> crate::waiting::wait_outcome(0, found) == Ok::<ExecutionReport<R>, PlaceOrderError>(report)
        }),
{
    let id = report.internal_order_id@;
    let head = seq![SessionCall::Connected(c), SessionCall::Payload(FixEvent::ExecutionReport(report))];
    lemma_run_calls_append(s, head, between);
    let s1 = after_call(s, head[0]);
    let s2 = after_call(s1, head[1]);
    assert(head.drop_first().drop_first() =~= Seq::<SessionCall<C, R>>::empty());
    assert(head.drop_first()[0] == head[1]);
    assert(run_calls(s2, head.drop_first().drop_first()) == s2);
    assert(run_calls(s1, head.drop_first()) == s2);
    assert(run_calls(s, head) == s2);
    lemma_other_calls_keep_order(s2, between, id);
}

/// Reports of an order that is still pending or partially filled never answer it: when the
/// books start with nothing for the order and every report for it that arrives is of an order
/// still underway, no look-up ever finds a report for it, and its wait gives up with
/// `MaxIterationsReached` when each look-up comes after such calls.
pub proof fn lemma_reports_underway_never_answer<C, R>(
    s: ProcessorState<C, R>,
    id: Seq<char>,
    calls_before: spec_fn(nat) -> Seq<SessionCall<C, R>>,
    found: spec_fn(nat) -> Option<ExecutionReport<R>>,
)
    requires
        !s.success.dom().contains(id),
        !s.failed.dom().contains(id),
        forall|k: nat, i: int| 0 <= i < calls_before(k).len() ==> match #[trigger] calls_before(k)[i] {
            SessionCall::Payload(FixEvent::ExecutionReport(r)) => r.internal_order_id@ == id ==> underway(r.status),
            _ => true,
        },
        forall|k: nat| #[trigger] found(k) == report_taken(run_calls(s, calls_before(k)), id),
    ensures
        forall|k: nat| #[trigger] found(k) is None,
        crate::waiting::wait_outcome(0, found) == Err::<ExecutionReport<R>, PlaceOrderError>(PlaceOrderError::MaxIterationsReached),
{
    assert forall|k: nat| #[trigger] found(k) is None by {
        lemma_underway_keeps_order_absent(s, calls_before(k), id);
    }
    crate::waiting::lemma_wait_outcome(found);
}

/// Calls whose reports for `id` are all of an order underway keep the books empty of `id`.
pub proof fn lemma_underway_keeps_order_absent<C, R>(s: ProcessorState<C, R>, calls: Seq<SessionCall<C, R>>, id: Seq<char>)
    requires
        !s.success.dom().contains(id),
        !s.failed.dom().contains(id),
        forall|i: int| 0 <= i < calls.len() ==> match #[trigger] calls[i] {
            SessionCall::Payload(FixEvent::ExecutionReport(r)) => r.internal_order_id@ == id ==> underway(r.status),
            _ => true,
        },
    ensures
        !run_calls(s, calls).success.dom().contains(id),
        !run_calls(s, calls).failed.dom().contains(id),
        report_taken(run_calls(s, calls), id) is None,
    decreases calls.len(),
{
    if calls.len() > 0 {
        let rest = calls.drop_first();
        assert forall|i: int| 0 <= i < rest.len() implies match #[trigger] rest[i] {
            SessionCall::Payload(FixEvent::ExecutionReport(r)) => r.internal_order_id@ == id ==> underway(r.status),
            _ => true,
        } by {
            assert(rest[i] == calls[i + 1]);
        }
        let c0 = calls[0];
        assert(match c0 {
            SessionCall::Payload(FixEvent::ExecutionReport(r)) => r.internal_order_id@ == id ==> underway(r.status),
            _ => true,
        });
        lemma_underway_keeps_order_absent(after_call(s, c0), rest, id);
    }
}

} // verus!

//! How long an order waits for its execution report: the report is looked up at most a fixed
//! number of times, with a pause after each look-up that finds nothing.
use vstd::prelude::*;

use crate::errors::PlaceOrderError;
use crate::reports::ExecutionReport;

verus! {

/// How many times the report of an order is looked up before the order gives up.
pub const MAX_REPORT_LOOKUPS: u32 = 11;

/// What follows a look-up for the report of an order.
#[derive(Debug)]
pub enum PollStep<R> {
    /// The report came: the order is answered with it.
    Ready(ExecutionReport<R>),
    /// Nothing came yet: pause, then look again if the budget allows.
    Pause,
}

/// Whether an order that has looked up its report `lookups` times may look again, or the error
/// it gives up with.
pub open spec fn lookup_allowed(lookups: nat) -> Result<(), PlaceOrderError> {
    if lookups < MAX_REPORT_LOOKUPS {
        Ok(())
    } else {
        Err(PlaceOrderError::MaxIterationsReached)
    }
}

/// The result of waiting, from the `from`-th look-up on, when the `k`-th look-up finds
/// `found(k)`: the first report found before the budget runs out, else the error.
pub open spec fn wait_outcome<R>(from: nat, found: spec_fn(nat) -> Option<ExecutionReport<R>>) -> Result<ExecutionReport<R>, PlaceOrderError>
    decreases MAX_REPORT_LOOKUPS - from,
{
    if from >= MAX_REPORT_LOOKUPS {
        Err(PlaceOrderError::MaxIterationsReached)
    } else {
        match found(from) {
            Some(report) => Ok(report),
            None => wait_outcome(from + 1, found),
        }
    }
}

/// The count of look-ups an order has made for its report.
pub struct OrderPoll {
    lookups: u32,
}

impl View for OrderPoll {
    type V = nat;

    closed spec fn view(&self) -> nat {
        self.lookups as nat
    }
}

impl OrderPoll {
    /// An order that has not looked up its report yet.
    pub fn new() -> (poll: Self)
        ensures
            poll@ == 0,
    {
        OrderPoll { lookups: 0 }
    }

    /// Whether the order may look up its report once more; `MaxIterationsReached` once the
    /// budget of look-ups is spent.
    pub fn may_look_up(&self) -> (r: Result<(), PlaceOrderError>)
        ensures
            r == lookup_allowed(self@),
    {
        if self.lookups < MAX_REPORT_LOOKUPS {
            Ok(())
        } else {
            Err(PlaceOrderError::MaxIterationsReached)
        }
    }

    /// Takes in what a look-up found: the report ends the wait, nothing counts the look-up and
    /// asks for a pause.
    pub fn on_lookup<R>(&mut self, found: Option<ExecutionReport<R>>) -> (step: PollStep<R>)
        requires
            old(self)@ < MAX_REPORT_LOOKUPS,
        ensures
            match found {
                Some(report) => step == PollStep::Ready(report) && final(self)@ == old(self)@,
                None => step is Pause && final(self)@ == old(self)@ + 1,
            },
    {
        match found {
            Some(report) => PollStep::Ready(report),
            None => {
                self.lookups = self.lookups + 1;
                PollStep::Pause
            },
        }
    }
}

/// A poll that has made `n` look-ups stands where `wait_outcome(n, ..)` starts: when it may not
/// look again, waiting ends with the error that `may_look_up` gives; when it may, a look-up that
/// finds a report ends waiting with that report, and one that finds nothing leaves the rest of
/// the wait to `wait_outcome(n + 1, ..)`, which `on_lookup` moves the poll on to.
pub proof fn lemma_poll_follows_wait_outcome<R>(n: nat, found: spec_fn(nat) -> Option<ExecutionReport<R>>)
    ensures
        lookup_allowed(n) is Err ==> Err::<ExecutionReport<R>, PlaceOrderError>(lookup_allowed(n)->Err_0) == wait_outcome(n, found),
        lookup_allowed(n) is Ok ==> wait_outcome(n, found) == match found(n) {
            Some(report) => Ok(report),
            None => wait_outcome(n + 1, found),
        },
{
}

/// Waiting answers with the first report that a look-up finds within the budget, and gives up
/// with `MaxIterationsReached` exactly when each of the `MAX_REPORT_LOOKUPS` look-ups found
/// nothing.
pub proof fn lemma_wait_outcome<R>(found: spec_fn(nat) -> Option<ExecutionReport<R>>)
    ensures
        wait_outcome(0, found) is Err <==> forall|k: nat| k < MAX_REPORT_LOOKUPS ==> #[trigger] found(k) is None,
        wait_outcome(0, found) is Err ==> wait_outcome(0, found) == Err::<ExecutionReport<R>, PlaceOrderError>(PlaceOrderError::MaxIterationsReached),
        wait_outcome(0, found) is Ok ==> exists|k: nat| {
            &&& k < MAX_REPORT_LOOKUPS
            &&& #[trigger] found(k) == Some(wait_outcome(0, found)->Ok_0)
            &&& forall|j: nat| j < k ==> #[trigger] found(j) is None
        },
{
    lemma_wait_outcome_from(0, found);
}

/// `lemma_wait_outcome` from the `from`-th look-up on.
pub proof fn lemma_wait_outcome_from<R>(from: nat, found: spec_fn(nat) -> Option<ExecutionReport<R>>)
    ensures
        wait_outcome(from, found) is Err <==> forall|k: nat| from <= k < MAX_REPORT_LOOKUPS ==> #[trigger] found(k) is None,
        wait_outcome(from, found) is Err ==> wait_outcome(from, found) == Err::<ExecutionReport<R>, PlaceOrderError>(PlaceOrderError::MaxIterationsReached),
        wait_outcome(from, found) is Ok ==> exists|k: nat| {
            &&& from <= k < MAX_REPORT_LOOKUPS
            &&& #[trigger] found(k) == Some(wait_outcome(from, found)->Ok_0)
            &&& forall|j: nat| from <= j < k ==> #[trigger] found(j) is None
        },
    decreases MAX_REPORT_LOOKUPS - from,
{
    if from < MAX_REPORT_LOOKUPS {
        lemma_wait_outcome_from(from + 1, found);
        if found(from) is None && wait_outcome(from, found) is Ok {
            let k = choose|k: nat| {
                &&& from + 1 <= k < MAX_REPORT_LOOKUPS
                &&& #[trigger] found(k) == Some(wait_outcome(from + 1, found)->Ok_0)
                &&& forall|j: nat| from + 1 <= j < k ==> #[trigger] found(j) is None
            };
            assert(forall|j: nat| from <= j < k ==> #[trigger] found(j) is None);
        }
    }
}

} // verus!

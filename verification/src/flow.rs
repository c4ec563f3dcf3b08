//! The decisions of opening a position on the A-book: each outside look-up that the flow waits
//! for is an event, and each event either moves the flow on or ends it with its result.
use vstd::prelude::*;

use crate::contracts::ABookBridgePositionSide;
use crate::errors::{open_position_error_of, OpenABookPositionError, PlaceOrderError};
use crate::reports::{ExecutionReport, OrderStatus};
use crate::search::{first_index, first_index_from, lemma_first_index};

verus! {

/// A pair of the liquidity provider's instrument mapping that names `instrument_id` as the
/// internal instrument.
pub open spec fn maps_to(instrument_id: Seq<char>) -> spec_fn((String, String)) -> bool {
    |pair: (String, String)| pair.1@ == instrument_id
}

/// The index of the first pair of `mapping`, a list of (external, internal) instrument pairs,
/// whose internal instrument is `instrument_id`; `None` when there is no such pair.
pub fn find_external_instrument(mapping: &Vec<(String, String)>, instrument_id: &String) -> (r: Option<usize>)
    ensures
        match r {
            Some(k) => first_index(mapping@, maps_to(instrument_id@)) == Some(k as int),
            None => first_index(mapping@, maps_to(instrument_id@)) == None::<int>,
        },
        match r {
            Some(k) => {
                &&& k < mapping@.len()
                &&& mapping@[k as int].1@ == instrument_id@
                &&& forall|j: int| 0 <= j < k ==> (#[trigger] mapping@[j]).1@ != instrument_id@
            },
            None => forall|j: int| 0 <= j < mapping@.len() ==> (#[trigger] mapping@[j]).1@ != instrument_id@,
        },
{
    let ghost p = maps_to(instrument_id@);
    let mut i: usize = 0;
    while i < mapping.len()
        invariant
            0 <= i <= mapping@.len(),
            p == maps_to(instrument_id@),
            first_index(mapping@, p) == first_index_from(mapping@, p, i as int),
            forall|j: int| 0 <= j < i ==> (#[trigger] mapping@[j]).1@ != instrument_id@,
        decreases mapping@.len() - i,
    {
        if mapping[i].1 == *instrument_id {
            assert(p(mapping@[i as int]));
            assert(first_index_from(mapping@, p, i as int) == Some(i as int));
            return Some(i);
        }
        i = i + 1;
    }
    None
}

/// Where a flow of opening a position stands.
#[derive(Debug)]
pub enum OpenPositionStage {
    /// Waiting for the liquidity provider's instrument mapping.
    LookingUpMapping,
    /// Waiting for the trading instrument of the request; the mapping named this external instrument.
    LookingUpTradingInstrument { external_instrument: String },
    /// Waiting for the result of the order for this external instrument and side.
    PlacingOrder { external_instrument: String, side: ABookBridgePositionSide },
    /// The flow has its result.
    Finished,
}

/// The view of an optional mapping.
pub open spec fn mapping_view(mapping: Option<&Vec<(String, String)>>) -> Option<Seq<(String, String)>> {
    match mapping {
        Some(v) => Some(v@),
        None => None,
    }
}

/// Where the flow goes once the mapping is known, and what it answers if it ends there: no
/// mapping is a rejection by the liquidity provider, a mapping without the instrument ends the
/// flow too, else the flow looks up the trading instrument.
pub open spec fn mapping_step(instrument_id: Seq<char>, mapping: Option<Seq<(String, String)>>) -> (OpenPositionStage, Result<(), OpenABookPositionError>) {
    match mapping {
        None => (OpenPositionStage::Finished, Err(OpenABookPositionError::LpReject)),
        Some(pairs) => match first_index(pairs, maps_to(instrument_id)) {
            None => (OpenPositionStage::Finished, Err(OpenABookPositionError::InstrumentNotFoundInMapping)),
            Some(k) => (OpenPositionStage::LookingUpTradingInstrument { external_instrument: pairs[k].0 }, Ok(())),
        },
    }
}

/// Where the flow goes once it is known whether the trading instrument exists.
pub open spec fn instrument_step(stage: OpenPositionStage, side: i32, found: bool) -> (OpenPositionStage, Result<ABookBridgePositionSide, OpenABookPositionError>) {
    if !found {
        (OpenPositionStage::Finished, Err(OpenABookPositionError::TradingInstrumentNotFound))
    } else {
        let side = ABookBridgePositionSide::side_of_wire(side).unwrap();
        (OpenPositionStage::PlacingOrder { external_instrument: stage->LookingUpTradingInstrument_external_instrument, side }, Ok(side))
    }
}

/// What the flow answers once the order has its result: the order's error as an error of
/// opening the position, a rejection by the liquidity provider, or the report.
pub open spec fn order_outcome<R>(result: Result<ExecutionReport<R>, PlaceOrderError>) -> Result<ExecutionReport<R>, OpenABookPositionError> {
    match result {
        Err(e) => Err(open_position_error_of(e)),
        Ok(report) => if report.status == OrderStatus::Rejected {
            Err(OpenABookPositionError::LpReject)
        } else {
            Ok(report)
        },
    }
}

/// The decisions of opening a position for the instrument and side of a request.
#[derive(Debug)]
pub struct OpenPositionFlow {
    pub instrument_id: String,
    /// The side as the request gives it on the wire.
    pub side: i32,
    pub stage: OpenPositionStage,
}

impl OpenPositionFlow {
    /// A flow that starts by looking up the liquidity provider's instrument mapping.
    pub fn new(instrument_id: String, side: i32) -> (flow: Self)
        ensures
            flow.instrument_id == instrument_id,
            flow.side == side,
            flow.stage == OpenPositionStage::LookingUpMapping,
    {
        OpenPositionFlow { instrument_id, side, stage: OpenPositionStage::LookingUpMapping }
    }

    /// The external instrument that the mapping named for the request, once it is known.
    pub fn external_instrument(&self) -> (r: Option<&String>)
        ensures
            match self.stage {
                OpenPositionStage::LookingUpTradingInstrument { external_instrument } => r == Some(&external_instrument),
                OpenPositionStage::PlacingOrder { external_instrument, side: _ } => r == Some(&external_instrument),
                _ => r is None,
            },
    {
        match &self.stage {
            OpenPositionStage::LookingUpTradingInstrument { external_instrument } => Some(external_instrument),
            OpenPositionStage::PlacingOrder { external_instrument, side: _ } => Some(external_instrument),
            _ => None,
        }
    }

    /// The liquidity provider's instrument mapping is known (`None`: there is none).
    pub fn on_mapping(&mut self, mapping: Option<&Vec<(String, String)>>) -> (r: Result<(), OpenABookPositionError>)
        requires
            old(self).stage is LookingUpMapping,
        ensures
            final(self).instrument_id == old(self).instrument_id,
            final(self).side == old(self).side,
            (final(self).stage, r) == mapping_step(old(self).instrument_id@, mapping_view(mapping)),
            mapping is None ==> r == Err::<(), OpenABookPositionError>(OpenABookPositionError::LpReject),
            mapping matches Some(pairs) ==> {
                &&& (forall|j: int| 0 <= j < pairs@.len() ==> (#[trigger] pairs@[j]).1@ != old(self).instrument_id@)
                    ==> r == Err::<(), OpenABookPositionError>(OpenABookPositionError::InstrumentNotFoundInMapping)
                &&& r is Ok ==> exists|k: int| {
                    &&& 0 <= k < pairs@.len()
                    &&& (#[trigger] pairs@[k]).1@ == old(self).instrument_id@
                    &&& forall|j: int| 0 <= j < k ==> (#[trigger] pairs@[j]).1@ != old(self).instrument_id@
                    &&& final(self).stage == (OpenPositionStage::LookingUpTradingInstrument { external_instrument: pairs@[k].0 })
                }
                &&& (exists|j: int| 0 <= j < pairs@.len() && (#[trigger] pairs@[j]).1@ == old(self).instrument_id@) ==> r is Ok
            },
    {
        proof {
            lemma_mapping_step_follows_the_internal_instrument(self.instrument_id@, mapping_view(mapping));
        }
        match mapping {
            None => {
                self.stage = OpenPositionStage::Finished;
                Err(OpenABookPositionError::LpReject)
            },
            Some(pairs) => match find_external_instrument(pairs, &self.instrument_id) {
                None => {
                    self.stage = OpenPositionStage::Finished;
                    Err(OpenABookPositionError::InstrumentNotFoundInMapping)
                },
                Some(k) => {
                    proof {
                        lemma_first_index(pairs@, maps_to(self.instrument_id@));
                    }
                    let external_instrument = pairs[k].0.clone();
                    self.stage = OpenPositionStage::LookingUpTradingInstrument { external_instrument };
                    Ok(())
                },
            },
        }
    }

    /// It is known whether the trading instrument of the request exists. When it does, the side
    /// of the request must name a side; the flow then places the order with that side.
    pub fn on_trading_instrument(&mut self, found: bool) -> (r: Result<ABookBridgePositionSide, OpenABookPositionError>)
        requires
            old(self).stage is LookingUpTradingInstrument,
            found ==> ABookBridgePositionSide::side_of_wire(old(self).side) is Some,
        ensures
            final(self).instrument_id == old(self).instrument_id,
            final(self).side == old(self).side,
            (final(self).stage, r) == instrument_step(old(self).stage, old(self).side, found),
    {
        if !found {
            self.stage = OpenPositionStage::Finished;
            return Err(OpenABookPositionError::TradingInstrumentNotFound);
        }
        let side = ABookBridgePositionSide::from_i32(self.side).unwrap();
        let external_instrument = self.external_instrument().unwrap().clone();
        self.stage = OpenPositionStage::PlacingOrder { external_instrument, side };
        Ok(side)
    }

    /// The order has its result; the flow ends with what it answers.
    pub fn on_order_result<R>(&mut self, result: Result<ExecutionReport<R>, PlaceOrderError>) -> (r: Result<ExecutionReport<R>, OpenABookPositionError>)
        requires
            old(self).stage is PlacingOrder,
        ensures
            final(self).instrument_id == old(self).instrument_id,
            final(self).side == old(self).side,
            final(self).stage == OpenPositionStage::Finished,
            r == order_outcome(result),
    {
        self.stage = OpenPositionStage::Finished;
        match result {
            Err(e) => Err(OpenABookPositionError::from(e)),
            Ok(report) => match report.status {
                OrderStatus::Rejected => Err(OpenABookPositionError::LpReject),
                _ => Ok(report),
            },
        }
    }
}

/// Whether opening a position gets as far as placing the order: only when the liquidity
/// provider's mapping exists, names the requested instrument, and the trading instrument exists.
pub open spec fn places_order(instrument_id: Seq<char>, mapping: Option<Seq<(String, String)>>, found: bool) -> bool {
    &&& mapping is Some
    &&& first_index(mapping->Some_0, maps_to(instrument_id)) is Some
    &&& found
}

/// What opening a position answers, given what the look-ups found and what the order gave.
pub open spec fn open_position_outcome<R>(
    instrument_id: Seq<char>,
    mapping: Option<Seq<(String, String)>>,
    found: bool,
    order: Result<ExecutionReport<R>, PlaceOrderError>,
) -> Result<ExecutionReport<R>, OpenABookPositionError> {
    match mapping {
        None => Err(OpenABookPositionError::LpReject),
        Some(pairs) => if first_index(pairs, maps_to(instrument_id)) is None {
            Err(OpenABookPositionError::InstrumentNotFoundInMapping)
        } else if !found {
            Err(OpenABookPositionError::TradingInstrumentNotFound)
        } else {
            order_outcome(order)
        },
    }
}

/// Run step by step, the flow answers `open_position_outcome`: each step either ends it with
/// that answer, or moves it on; and it reaches the stage of placing the order exactly when
/// `places_order` holds, so that no order is placed unless all look-ups succeeded.
pub proof fn lemma_flow_answers_its_outcome<R>(
    instrument_id: Seq<char>,
    side: i32,
    mapping: Option<Seq<(String, String)>>,
    found: bool,
    order: Result<ExecutionReport<R>, PlaceOrderError>,
)
    requires
        found ==> ABookBridgePositionSide::side_of_wire(side) is Some,
    ensures
        ({
            let first = mapping_step(instrument_id, mapping);
            let second = instrument_step(first.0, side, found);
            let outcome = open_position_outcome(instrument_id, mapping, found, order);
            &&& first.1 is Err ==> {
                &&& first.0 is Finished
                &&& outcome == Err::<ExecutionReport<R>, OpenABookPositionError>(first.1->Err_0)
                &&& !places_order(instrument_id, mapping, found)
            }
            &&& first.1 is Ok ==> first.0 is LookingUpTradingInstrument
            &&& (first.1 is Ok && second.1 is Err) ==> {
                &&& second.0 is Finished
                &&& outcome == Err::<ExecutionReport<R>, OpenABookPositionError>(second.1->Err_0)
                &&& !places_order(instrument_id, mapping, found)
            }
            &&& (first.1 is Ok && second.1 is Ok) ==> {
                &&& second.0 is PlacingOrder
                &&& places_order(instrument_id, mapping, found)
                &&& outcome == order_outcome(order)
            }
        }),
{
}

/// The first pair that the search for a request's instrument stops at is the first pair whose
/// internal instrument (second component) is that instrument: the external name of a pair is
/// never matched. When the search finds nothing, no pair has that internal instrument.
pub proof fn lemma_first_match_is_by_internal_instrument(mapping: Seq<(String, String)>, instrument_id: Seq<char>)
    ensures
        match first_index(mapping, maps_to(instrument_id)) {
            Some(k) => {
                &&& 0 <= k < mapping.len()
                &&& mapping[k].1@ == instrument_id
                &&& forall|j: int| 0 <= j < k ==> (#[trigger] mapping[j]).1@ != instrument_id
            },
            None => forall|j: int| 0 <= j < mapping.len() ==> (#[trigger] mapping[j]).1@ != instrument_id,
        },
{
    let p = maps_to(instrument_id);
    lemma_first_index(mapping, p);
    assert forall|j: int| 0 <= j < mapping.len() implies p(mapping[j]) == ((#[trigger] mapping[j]).1@ == instrument_id) by {}
}

/// Once the mapping is known, the flow ends with `LpReject` when there is no mapping, with
/// `InstrumentNotFoundInMapping` when no pair has the request's instrument as its internal
/// instrument, and otherwise goes on to look up the trading instrument carrying the external
/// instrument of the first pair whose internal instrument is the request's.
pub proof fn lemma_mapping_step_follows_the_internal_instrument(instrument_id: Seq<char>, mapping: Option<Seq<(String, String)>>)
    ensures
        mapping is None ==> mapping_step(instrument_id, mapping) == (OpenPositionStage::Finished, Err::<(), OpenABookPositionError>(OpenABookPositionError::LpReject)),
        mapping matches Some(pairs) ==> {
            &&& (forall|j: int| 0 <= j < pairs.len() ==> (#[trigger] pairs[j]).1@ != instrument_id) ==> mapping_step(instrument_id, mapping)
                == (OpenPositionStage::Finished, Err::<(), OpenABookPositionError>(OpenABookPositionError::InstrumentNotFoundInMapping))
            &&& (exists|j: int| 0 <= j < pairs.len() && (#[trigger] pairs[j]).1@ == instrument_id) ==> exists|k: int| {
                &&& 0 <= k < pairs.len()
                &&& (#[trigger] pairs[k]).1@ == instrument_id
                &&& forall|j: int| 0 <= j < k ==> (#[trigger] pairs[j]).1@ != instrument_id
                &&& mapping_step(instrument_id, mapping) == (OpenPositionStage::LookingUpTradingInstrument { external_instrument: pairs[k].0 }, Ok::<(), OpenABookPositionError>(()))
            }
            &&& mapping_step(instrument_id, mapping).1 is Ok ==> exists|j: int| 0 <= j < pairs.len() && (#[trigger] pairs[j]).1@ == instrument_id
        },
{
    if let Some(pairs) = mapping {
        lemma_first_match_is_by_internal_instrument(pairs, instrument_id);
        if let Some(k) = first_index(pairs, maps_to(instrument_id)) {
            assert(pairs[k].1@ == instrument_id);
        }
    }
}

} // verus!

//! Which quote prices an instrument in the currency of an account.
use vstd::prelude::*;

use crate::search::{first_index, first_index_from, lemma_first_index};

verus! {

/// A trading instrument as far as pricing reads it: its id, and the currencies it trades.
#[derive(Debug, Clone)]
pub struct InstrumentInfo {
    pub id: String,
    pub base: String,
    pub quote: String,
}

/// Where the price of an instrument in an account's currency comes from.
#[derive(Debug, Clone, Copy, PartialEq, Eq, Structural)]
pub enum PriceSource {
    /// The price is one: the account's currency is the instrument's base, or no quote links them.
    Parity,
    /// The bid of the instrument at this index, which trades the base against the account's currency.
    Bid(usize),
    /// One over the bid of the instrument at this index, which trades the account's currency against the base.
    InverseBid(usize),
}

/// An instrument that trades `base` against `account`.
pub open spec fn quotes_directly(account: Seq<char>, base: Seq<char>) -> spec_fn(InstrumentInfo) -> bool {
    |i: InstrumentInfo| i.base@ == base && i.quote@ == account
}

/// An instrument that trades `account` against `base`.
pub open spec fn quotes_inversely(account: Seq<char>, base: Seq<char>) -> spec_fn(InstrumentInfo) -> bool {
    |i: InstrumentInfo| i.base@ == account && i.quote@ == base
}

/// Where the price of an instrument with base `base` in currency `account` comes from, given
/// the instruments traded: parity for the same currency; else the first instrument that trades
/// the base against the account's currency; else one over the first that trades them the other
/// way round; else parity.
pub open spec fn price_source_of(account: Seq<char>, base: Seq<char>, instruments: Seq<InstrumentInfo>) -> PriceSource {
    if account == base {
        PriceSource::Parity
    } else {
        match first_index(instruments, quotes_directly(account, base)) {
            Some(k) => PriceSource::Bid(k as usize),
            None => match first_index(instruments, quotes_inversely(account, base)) {
                Some(k) => PriceSource::InverseBid(k as usize),
                None => PriceSource::Parity,
            },
        }
    }
}

/// Whether pricing needs the list of instruments: it does unless the account's currency is the
/// instrument's base.
pub fn quotes_needed(account_currency: &String, base: &String) -> (needed: bool)
    ensures
        needed == (account_currency@ != base@),
{
    !(*account_currency == *base)
}

/// Where the price of an instrument with base `base` in the currency `account_currency` comes
/// from, among `instruments`.
pub fn price_source(account_currency: &String, base: &String, instruments: &Vec<InstrumentInfo>) -> (source: PriceSource)
    ensures
        source == price_source_of(account_currency@, base@, instruments@),
{
    if *account_currency == *base {
        return PriceSource::Parity;
    }
    let ghost direct = quotes_directly(account_currency@, base@);
    let ghost inverse = quotes_inversely(account_currency@, base@);
    let mut i: usize = 0;
    while i < instruments.len()
        invariant
            0 <= i <= instruments@.len(),
            account_currency@ != base@,
            direct == quotes_directly(account_currency@, base@),
            first_index(instruments@, direct) == first_index_from(instruments@, direct, i as int),
        decreases instruments@.len() - i,
    {
        if instruments[i].base == *base && instruments[i].quote == *account_currency {
            assert(direct(instruments@[i as int]));
            assert(first_index_from(instruments@, direct, i as int) == Some(i as int));
            return PriceSource::Bid(i);
        }
        i = i + 1;
    }
    let mut i: usize = 0;
    while i < instruments.len()
        invariant
            0 <= i <= instruments@.len(),
            account_currency@ != base@,
            direct == quotes_directly(account_currency@, base@),
            first_index(instruments@, direct) == None::<int>,
            inverse == quotes_inversely(account_currency@, base@),
            first_index(instruments@, inverse) == first_index_from(instruments@, inverse, i as int),
        decreases instruments@.len() - i,
    {
        if instruments[i].base == *account_currency && instruments[i].quote == *base {
            assert(inverse(instruments@[i as int]));
            assert(first_index_from(instruments@, inverse, i as int) == Some(i as int));
            return PriceSource::InverseBid(i);
        }
        i = i + 1;
    }
    PriceSource::Parity
}

/// The price of an instrument in an account's currency is parity when the currencies are the
/// same; otherwise it comes from the first instrument that trades the base against the account's
/// currency, so that such a direct quote always wins over an inverse one; one over the bid of the
/// first instrument that trades them the other way round only when no direct quote exists; and
/// parity only when neither exists.
pub proof fn lemma_price_source_choice(account: Seq<char>, base: Seq<char>, instruments: Seq<InstrumentInfo>)
    requires
        instruments.len() <= usize::MAX,
    ensures
        account == base ==> price_source_of(account, base, instruments) == PriceSource::Parity,
        account != base ==> match price_source_of(account, base, instruments) {
            PriceSource::Bid(k) => {
                &&& k < instruments.len()
                &&& instruments[k as int].base@ == base && instruments[k as int].quote@ == account
                &&& forall|j: int| 0 <= j < k ==> !(#[trigger] instruments[j].base@ == base && instruments[j].quote@ == account)
            },
            PriceSource::InverseBid(k) => {
                &&& k < instruments.len()
                &&& instruments[k as int].base@ == account && instruments[k as int].quote@ == base
                &&& forall|j: int| 0 <= j < instruments.len() ==> !(#[trigger] instruments[j].base@ == base && instruments[j].quote@ == account)
                &&& forall|j: int| 0 <= j < k ==> !(#[trigger] instruments[j].base@ == account && instruments[j].quote@ == base)
            },
            PriceSource::Parity => forall|j: int| 0 <= j < instruments.len() ==> {
                &&& !(#[trigger] instruments[j].base@ == base && instruments[j].quote@ == account)
                &&& !(instruments[j].base@ == account && instruments[j].quote@ == base)
            },
        },
{
    let direct = quotes_directly(account, base);
    let inverse = quotes_inversely(account, base);
    lemma_first_index(instruments, direct);
    lemma_first_index(instruments, inverse);
    assert forall|j: int| 0 <= j < instruments.len() implies direct(instruments[j]) == (instruments[j].base@ == base && instruments[j].quote@ == account) && inverse(instruments[j]) == (instruments[j].base@ == account && instruments[j].quote@ == base) by {}
}

} // verus!

use std::num::ParseIntError;
use vstd::prelude::*;

verus! {

/// What parsing a text as a 32-bit unsigned integer yields.
pub uninterp spec fn u32_of_text(s: Seq<char>) -> Option<u32>;

/// Relies on `str::parse::<u32>`: the value of a text of decimal digits that
/// fits in 32 bits, or an error.
#[verifier::external_body]
fn parse_u32(s: &str) -> (r: Result<u32, ParseIntError>)
    ensures
        r is Ok <==> u32_of_text(s@) is Some,
        r matches Ok(v) ==> u32_of_text(s@) == Some(v),
{
    s.parse::<u32>()
}

/// Identifies a transaction, unique across all clients.
#[derive(Debug, PartialEq, Eq, Structural, PartialOrd, Ord, Clone, Copy, Hash)]
pub struct TransactionId {
    value: u32,
}

impl TransactionId {
    /// The number that identifies the transaction.
    pub closed spec fn view(&self) -> u32 {
        self.value
    }

    /// `TransactionId::from(v)` is the id with number `v`.
    pub proof fn lemma_from(v: u32)
        ensures
            (<TransactionId as vstd::std_specs::convert::FromSpec<u32>>::from_spec(v))@ == v,
    {
    }

    pub fn as_u32(&self) -> (r: u32)
        ensures
            r == self@,
    {
        self.value
    }

    /// The id with number `v`.
    pub fn new(v: u32) -> (r: Self)
        ensures
            r@ == v,
    {
        TransactionId { value: v }
    }

    /// Parses a decimal number of at most 32 bits.
    pub fn try_from(s: &str) -> (r: Result<Self, ParseIntError>)
        ensures
            r is Ok <==> u32_of_text(s@) is Some,
            r matches Ok(c) ==> u32_of_text(s@) == Some(c@),
    {
        match parse_u32(s) {
            Ok(v) => Ok(TransactionId { value: v }),
            Err(e) => Err(e),
        }
    }
}

impl From<u32> for TransactionId {
    fn from(v: u32) -> (r: Self) {
        TransactionId::new(v)
    }
}

impl vstd::std_specs::convert::FromSpecImpl<u32> for TransactionId {
    open spec fn obeys_from_spec() -> bool {
        true
    }

    closed spec fn from_spec(v: u32) -> Self {
        TransactionId { value: v }
    }
}

} // verus!

use std::num::ParseIntError;
use vstd::prelude::*;

verus! {

/// Declares std's integer-parsing error so that it can be handed on.
#[verifier::external_type_specification]
#[verifier::external_body]
pub struct ExParseIntError(ParseIntError);

/// What parsing a text as a 16-bit unsigned integer yields.
pub uninterp spec fn u16_of_text(s: Seq<char>) -> Option<u16>;

/// Relies on `str::parse::<u16>`: the value of a text of decimal digits that
/// fits in 16 bits, or an error.
#[verifier::external_body]
fn parse_u16(s: &str) -> (r: Result<u16, ParseIntError>)
    ensures
        r is Ok <==> u16_of_text(s@) is Some,
        r matches Ok(v) ==> u16_of_text(s@) == Some(v),
{
    s.parse::<u16>()
}

/// Identifies a client.
#[derive(Debug, PartialEq, Eq, Structural, Clone, Copy, Hash)]
pub struct ClientId {
    value: u16,
}

impl ClientId {
    /// The number that identifies the client.
    pub closed spec fn view(&self) -> u16 {
        self.value
    }

    /// `ClientId::from(v)` is the id with number `v`.
    pub proof fn lemma_from(v: u16)
        ensures
            (<ClientId as vstd::std_specs::convert::FromSpec<u16>>::from_spec(v))@ == v,
    {
    }

    pub fn as_u16(&self) -> (r: u16)
        ensures
            r == self@,
    {
        self.value
    }

    /// The id with number `v`.
    pub fn new(v: u16) -> (r: Self)
        ensures
            r@ == v,
    {
        ClientId { value: v }
    }

    /// Parses a decimal number of at most 16 bits.
    pub fn try_from(s: &str) -> (r: Result<Self, ParseIntError>)
        ensures
            r is Ok <==> u16_of_text(s@) is Some,
            r matches Ok(c) ==> u16_of_text(s@) == Some(c@),
    {
        match parse_u16(s) {
            Ok(v) => Ok(ClientId { value: v }),
            Err(e) => Err(e),
        }
    }
}

impl From<u16> for ClientId {
    fn from(v: u16) -> (r: Self) {
        ClientId::new(v)
    }
}

impl vstd::std_specs::convert::FromSpecImpl<u16> for ClientId {
    open spec fn obeys_from_spec() -> bool {
        true
    }

    closed spec fn from_spec(v: u16) -> Self {
        ClientId { value: v }
    }
}

} // verus!

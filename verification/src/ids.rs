//! Opaque entity identifiers and the fixed-point rating value.

use vstd::prelude::*;

verus! {

/// An entity id as it appears at the API boundary: a wrapped integer, so
/// that ids of different entities are not mixed up by accident.
#[derive(Clone, Copy, Debug, PartialEq, Eq, Structural)]
pub struct Identifier(pub i32);

impl Identifier {
    /// The raw integer behind the identifier.
    pub open spec fn spec_raw(self) -> i32 {
        self.0
    }
}

impl From<i32> for Identifier {
    fn from(value: i32) -> (r: Self) {
        Identifier(value)
    }
}

impl vstd::std_specs::convert::FromSpecImpl<i32> for Identifier {
    open spec fn obeys_from_spec() -> bool {
        true
    }

    open spec fn from_spec(v: i32) -> Identifier {
        Identifier(v)
    }
}

impl From<Identifier> for i32 {
    fn from(value: Identifier) -> (r: Self) {
        value.0
    }
}

impl vstd::std_specs::convert::FromSpecImpl<Identifier> for i32 {
    open spec fn obeys_from_spec() -> bool {
        true
    }

    open spec fn from_spec(v: Identifier) -> i32 {
        v.spec_raw()
    }
}

/// A rating as a fixed-point decimal: `mantissa * 10^(-scale)`. Decimal
/// arithmetic avoids the rounding drift a float would bring to aggregate
/// display.
#[derive(Clone, Copy, Debug, PartialEq, Eq, Structural)]
pub struct Rating {
    pub mantissa: i128,
    pub scale: u32,
}

impl Rating {
    /// Well-formed ratings are those every decimal value can carry: a
    /// 96-bit mantissa and at most 28 fractional digits.
    pub open spec fn wf(self) -> bool {
        &&& self.scale <= 28
        &&& -0x1000000000000000000000000 < self.mantissa < 0x1000000000000000000000000
    }

    /// The runtime check for `wf`.
    pub fn is_wf(&self) -> (b: bool)
        ensures
            b == self.wf(),
    {
        self.scale <= 28 && -0x1000000000000000000000000i128 < self.mantissa
            && self.mantissa < 0x1000000000000000000000000i128
    }
}

/// The rating denoted by a piece of text, if any; it depends on the
/// characters alone.
pub uninterp spec fn decimal_parsed(s: Seq<char>) -> Option<Rating>;

/// The canonical text of a rating; it depends on the rating alone.
pub uninterp spec fn decimal_text(r: Rating) -> Seq<char>;

/// Relies on rust_decimal's `Decimal::from_str`: the parse depends on the
/// characters alone, and every decimal it yields carries a 96-bit mantissa
/// and a scale of at most 28.
#[verifier::external_body]
fn parse_decimal(s: &str) -> (r: Option<Rating>)
    ensures
        r == decimal_parsed(s@),
        r matches Some(v) ==> v.wf(),
{
    match <rust_decimal::Decimal as core::str::FromStr>::from_str(s) {
        Ok(d) => Some(Rating { mantissa: d.mantissa(), scale: d.scale() }),
        Err(_) => None,
    }
}

/// Relies on rust_decimal's `Decimal::to_string`: the text depends on the
/// decimal value alone. `Decimal::from_i128_with_scale` panics outside the
/// well-formed range, so that range is required here.
#[verifier::external_body]
fn render_decimal(r: &Rating) -> (out: String)
    requires
        r.wf(),
    ensures
        out@ == decimal_text(*r),
{
    rust_decimal::Decimal::from_i128_with_scale(r.mantissa, r.scale).to_string()
}

/// Parses a rating from its decimal text, such as `"4.5"`.
pub fn rating_from_text(s: &str) -> (r: Option<Rating>)
    ensures
        r == decimal_parsed(s@),
        r matches Some(v) ==> v.wf(),
{
    parse_decimal(s)
}

/// Renders a rating as decimal text for display.
pub fn rating_text(r: &Rating) -> (out: String)
    requires
        r.wf(),
    ensures
        out@ == decimal_text(*r),
{
    render_decimal(r)
}

} // verus!

use vstd::prelude::*;

verus! {

/// The camel-cased form of a name, as heck's `CamelCase` conversion
/// produces it from the characters alone.
pub uninterp spec fn camel_of(s: Seq<char>) -> Seq<char>;

/// The snake-cased form of a name, as heck's `SnakeCase` conversion
/// produces it from the characters alone.
pub uninterp spec fn snake_of(s: Seq<char>) -> Seq<char>;

/// The upper-snake-cased form of a name, as heck's `ShoutySnakeCase`
/// conversion produces it from the characters alone.
pub uninterp spec fn shouty_of(s: Seq<char>) -> Seq<char>;

/// The upper-cased form of a name, as `str::to_uppercase` produces it from
/// the characters alone.
pub uninterp spec fn upper_of(s: Seq<char>) -> Seq<char>;

/// Relies on heck's `CamelCase::to_camel_case`: the result is computed from
/// the input characters alone.
#[verifier::external_body]
pub fn to_camel_case(s: &str) -> (r: String)
    ensures
        r@ == camel_of(s@),
{
    heck::CamelCase::to_camel_case(s)
}

/// Relies on heck's `SnakeCase::to_snake_case`: the result is computed from
/// the input characters alone.
#[verifier::external_body]
pub fn to_snake_case(s: &str) -> (r: String)
    ensures
        r@ == snake_of(s@),
{
    heck::SnakeCase::to_snake_case(s)
}

/// Relies on heck's `ShoutySnakeCase::to_shouty_snake_case`: the result is
/// computed from the input characters alone.
#[verifier::external_body]
pub fn to_shouty_snake_case(s: &str) -> (r: String)
    ensures
        r@ == shouty_of(s@),
{
    heck::ShoutySnakeCase::to_shouty_snake_case(s)
}

/// Relies on `str::to_uppercase` of std: the result is computed from the
/// input characters alone.
#[verifier::external_body]
pub fn to_uppercase(s: &str) -> (r: String)
    ensures
        r@ == upper_of(s@),
{
    s.to_uppercase()
}

} // verus!

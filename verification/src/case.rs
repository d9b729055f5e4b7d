//! Identifier case conversion, done by the `Inflector` crate.
use vstd::prelude::*;

verus! {

/// What `inflector::cases::camelcase::to_camel_case` returns for a text.
pub uninterp spec fn camel_case(s: Seq<char>) -> Seq<char>;

/// What `inflector::cases::snakecase::to_snake_case` returns for a text.
pub uninterp spec fn snake_case(s: Seq<char>) -> Seq<char>;

/// Calls `inflector::cases::camelcase::to_camel_case`; the contract claims
/// only that the result is a function of the text, named `camel_case`.
#[verifier::external_body]
pub(crate) fn to_camel_case(s: &str) -> (res: String)
    ensures
        res@ == camel_case(s@),
{
    inflector::cases::camelcase::to_camel_case(s)
}

/// Calls `inflector::cases::snakecase::to_snake_case`; the contract claims
/// only that the result is a function of the text, named `snake_case`.
#[verifier::external_body]
pub(crate) fn to_snake_case(s: &str) -> (res: String)
    ensures
        res@ == snake_case(s@),
{
    inflector::cases::snakecase::to_snake_case(s)
}

} // verus!

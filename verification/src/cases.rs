//! The spellings of a name that the wiring derives from it, as the
//! `Inflector` crate makes them.
//!
//! How a name is split into words and put together again takes pages to
//! say, so each spelling has a name here instead of a definition: the
//! functions below state that what the crate returns is that spelling of
//! their argument, and nothing more. The statements are not proved.

use vstd::prelude::*;

verus! {

/// The name in Pascal case, as `Inflector` spells it: `users_by_group`
/// becomes `UsersByGroup`.
pub uninterp spec fn pascal_case(name: Seq<char>) -> Seq<char>;

/// The name in screaming snake case, as `Inflector` spells it:
/// `usersByGroup` becomes `USERS_BY_GROUP`.
pub uninterp spec fn screaming_snake_case(name: Seq<char>) -> Seq<char>;

/// `inflector::cases::pascalcase::to_pascal_case`: the name in Pascal
/// case.
#[verifier::external_body]
pub(crate) fn to_pascal_case(name: &str) -> (r: String)
    ensures
        r@ == pascal_case(name@),
{
    inflector::cases::pascalcase::to_pascal_case(name)
}

/// `inflector::cases::screamingsnakecase::to_screaming_snake_case`: the
/// name in screaming snake case.
#[verifier::external_body]
pub(crate) fn to_screaming_snake_case(name: &str) -> (r: String)
    ensures
        r@ == screaming_snake_case(name@),
{
    inflector::cases::screamingsnakecase::to_screaming_snake_case(name)
}

} // verus!

//! The list in which affixes are kept.
use crate::fmt::write::Token;
use smallvec::SmallVec;
use vstd::prelude::*;

verus! {

/// A list of tokens, kept in a `SmallVec` that holds up to four of them
/// without allocating.
#[verifier::external_body]
pub struct TokenList<'a> {
    items: SmallVec<[Token<'a>; 4]>,
}

/// The tokens that a list holds, in the order in which they were pushed.
pub uninterp spec fn held_tokens(list: TokenList<'static>) -> Seq<Token<'static>>;

/// `SmallVec::new` of smallvec: a list that holds nothing.
#[verifier::external_body]
pub(crate) fn token_list_new<'a>() -> (list: TokenList<'a>)
    ensures
        held_tokens(list) == Seq::<Token>::empty(),
{
    TokenList { items: SmallVec::new() }
}

/// `SmallVec::push` of smallvec: the list holds what it held, and `token`
/// after it.
#[verifier::external_body]
pub(crate) fn token_list_push<'a>(list: &mut TokenList<'a>, token: Token<'a>)
    ensures
        held_tokens(*final(list)) == held_tokens(*old(list)).push(token),
{
    list.items.push(token)
}

/// `SmallVec::as_slice` of smallvec: the tokens that the list holds, in order.
#[verifier::external_body]
pub(crate) fn token_list_as_slice<'a, 'b>(list: &'b TokenList<'a>) -> (tokens: &'b [Token<'a>])
    ensures
        tokens@ == held_tokens(*list),
{
    list.items.as_slice()
}

} // verus!

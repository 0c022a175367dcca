//! What holds of every scan: the laws that tie the tables found to the
//! elements of the document.
//!
//! [`documents`] tells which records come of which table elements, [`rows`]
//! what each record holds, and [`outcomes`] what holds of a reading as a
//! whole.

use crate::markup::Token;
use vstd::prelude::*;

pub mod documents;
pub mod outcomes;
pub mod rows;

verus! {

/// A token that does not occur in a stretch of tokens is not its last one,
/// and does not occur in the stretch without its last one.
pub proof fn lemma_absent_without_last(tokens: Seq<Token>, token: Token)
    requires
        tokens.len() > 0,
        !tokens.contains(token),
    ensures
        tokens.last() != token,
        !tokens.drop_last().contains(token),
{
    assert(tokens[tokens.len() - 1] == tokens.last());
    if tokens.drop_last().contains(token) {
        let i = choose|i: int| 0 <= i < tokens.drop_last().len() && tokens.drop_last()[i] == token;
        assert(tokens[i] == token);
    }
}

/// A token that does not occur in a stretch of tokens does not occur in the
/// stretch with another token behind it.
pub proof fn lemma_absent_with_another(tokens: Seq<Token>, token: Token, another: Token)
    requires
        !tokens.contains(token),
        another != token,
    ensures
        !tokens.push(another).contains(token),
{
    let longer = tokens.push(another);
    if longer.contains(token) {
        let i = choose|i: int| 0 <= i < longer.len() && longer[i] == token;
        if i < tokens.len() {
            assert(tokens[i] == token);
        }
    }
}

} // verus!

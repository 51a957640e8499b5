//! What holds of the library whatever it is given: what is asked of GitHub, what is written to
//! the cache and what readers are shown, in terms of what was asked for.

pub mod checkouts;
pub mod failing;
pub mod fetching;
pub mod following;
pub mod listing;
pub mod polling;
pub mod runs;
pub mod serving;
pub mod showing;
pub mod values;
pub mod watching;

use vstd::prelude::*;

verus! {

/// Whether a phrase stands somewhere in a text.
pub open spec fn says(text: Seq<char>, phrase: Seq<char>) -> bool {
    exists|before: Seq<char>, after: Seq<char>| text == #[trigger] (before + phrase + after)
}

/// Whether a text begins with a phrase.
pub open spec fn opens(text: Seq<char>, phrase: Seq<char>) -> bool {
    exists|after: Seq<char>| text == #[trigger] (phrase + after)
}

/// Whether a text ends with a phrase.
pub open spec fn closes(text: Seq<char>, phrase: Seq<char>) -> bool {
    exists|before: Seq<char>| text == #[trigger] (before + phrase)
}

pub(crate) proof fn lemma_says(
    text: Seq<char>,
    before: Seq<char>,
    phrase: Seq<char>,
    after: Seq<char>,
)
    requires
        text =~= before + phrase + after,
    ensures
        says(text, phrase),
{
    assert(text == before + phrase + after);
}

pub(crate) proof fn lemma_opens(text: Seq<char>, phrase: Seq<char>, after: Seq<char>)
    requires
        text =~= phrase + after,
    ensures
        opens(text, phrase),
{
    assert(text == phrase + after);
}

pub(crate) proof fn lemma_closes(text: Seq<char>, before: Seq<char>, phrase: Seq<char>)
    requires
        text =~= before + phrase,
    ensures
        closes(text, phrase),
{
    assert(text == before + phrase);
}

} // verus!

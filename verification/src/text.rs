//! Vectors of strings, as the sequences of texts that they hold.

use vstd::prelude::*;

verus! {

/// The texts of a vector of strings.
pub open spec fn texts(words: Seq<String>) -> Seq<Seq<char>> {
    words.map_values(|word: String| word@)
}

/// Appending a string appends its text.
pub proof fn lemma_texts_push(words: Seq<String>, word: String)
    ensures
        texts(words.push(word)) == texts(words).push(word@),
{
    assert(texts(words.push(word)) =~= texts(words).push(word@));
}

} // verus!

//! Randomness, drawn from the `rand` crate.
//!
//! Nothing here is proved: each contract says what `rand` documents of the
//! function it stands for, and no more. What the library does with a drawn
//! value is proved for every value that these contracts allow.

use rand::rngs::ThreadRng;
use vstd::prelude::*;

verus! {

/// `rand::rngs::ThreadRng`, the generator that each thread keeps for itself.
/// Nothing of its state is visible.
#[verifier::external_type_specification]
#[verifier::external_body]
pub struct ExThreadRng(ThreadRng);

/// `rand::rng` hands out the thread's generator. Nothing is claimed of it.
pub assume_specification[ rand::rng ]() -> (generator: ThreadRng)
;

/// Whether a character is an ASCII letter or digit.
pub open spec fn is_letter_or_digit(c: char) -> bool {
    ('a' <= c && c <= 'z') || ('A' <= c && c <= 'Z') || ('0' <= c && c <= '9')
}

/// Whether a name could have been drawn at random: it has the given length
/// and consists of ASCII letters and digits.
pub open spec fn is_random_name(name: Seq<char>, len: nat) -> bool {
    name.len() == len && forall|i: int|
        0 <= i < name.len() ==> is_letter_or_digit(#[trigger] name[i])
}

/// A number below `len`, drawn by `rand::Rng::random_range` over `0..len`.
/// Nothing is claimed of the number but that it lies in the range, which
/// rand documents; an empty range, on which rand panics, is left out.
#[verifier::external_body]
pub(crate) fn random_index(generator: &mut ThreadRng, len: usize) -> (index: usize)
    requires
        len > 0,
    ensures
        index < len,
{
    rand::Rng::random_range(generator, 0..len)
}

/// A name of `len` characters, drawn by `SampleString::sample_string` of
/// `rand::distr::Alphanumeric`. Nothing is claimed of the name but its length
/// and that it consists of ASCII letters and digits, which rand documents.
#[verifier::external_body]
pub(crate) fn random_name(generator: &mut ThreadRng, len: usize) -> (name: String)
    ensures
        is_random_name(name@, len as nat),
{
    rand::distr::SampleString::sample_string(&rand::distr::Alphanumeric, generator, len)
}

} // verus!

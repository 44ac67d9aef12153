//! The directory names that hint at a bundled runtime.

use crate::text::{chars_of, contains, has_substring};
use vstd::prelude::*;

verus! {

/// The lower-case form of a text, as the standard library computes it with
/// the Unicode case tables.
pub uninterp spec fn lowercase_of(text: Seq<char>) -> Seq<char>;

/// Whether a lower-case name holds one of the words that hint at a runtime:
/// a vendor or product name, `jdk`, `jre`, `bin`, `runtime` or `minecraft`.
pub open spec fn has_keyword(lowered: Seq<char>) -> bool {
    contains(lowered, "java"@) || contains(lowered, "jdk"@) || contains(lowered, "jre"@)
        || contains(lowered, "zulu"@) || contains(lowered, "adoptium"@) || contains(
        lowered,
        "corretto"@,
    ) || contains(lowered, "graalvm"@) || contains(lowered, "azul"@) || contains(
        lowered,
        "minecraft"@,
    ) || contains(lowered, "runtime"@) || contains(lowered, "bin"@)
}

/// Whether a directory of this name is worth descending into: its
/// lower-case form holds a keyword.
pub open spec fn suggestive(name: Seq<char>) -> bool {
    has_keyword(lowercase_of(name))
}

/// Calls `str::to_lowercase`: the result is the lower-case form of the
/// argument, a function of the argument alone.
#[verifier::external_body]
fn lowercase(text: &str) -> (r: String)
    ensures
        r@ == lowercase_of(text@),
{
    text.to_lowercase()
}

/// Tests whether `word` occurs in `chars`.
fn holds(chars: &Vec<char>, word: &str) -> (r: bool)
    ensures
        r == contains(chars@, word@),
{
    let pattern = chars_of(word);
    has_substring(chars, &pattern)
}

/// Tests a name that is already lower case for a keyword.
pub fn has_runtime_keyword(lowered: &str) -> (r: bool)
    ensures
        r == has_keyword(lowered@),
{
    let chars = chars_of(lowered);
    holds(&chars, "java") || holds(&chars, "jdk") || holds(&chars, "jre") || holds(
        &chars,
        "zulu",
    ) || holds(&chars, "adoptium") || holds(&chars, "corretto") || holds(&chars, "graalvm")
        || holds(&chars, "azul") || holds(&chars, "minecraft") || holds(&chars, "runtime")
        || holds(&chars, "bin")
}

/// Tests whether a directory of this name is worth descending into.
pub fn is_suggestive_name(name: &str) -> (r: bool)
    ensures
        r == suggestive(name@),
{
    let lowered = lowercase(name);
    has_runtime_keyword(lowered.as_str())
}

} // verus!

//! The per-directory ignore file: one glob pattern per line.
//!
//! Matching is that of the `glob` crate on Unix, where the slash is the only
//! path separator.

use vstd::prelude::*;

use crate::text;
use crate::text::split_lines;

verus! {

/// Name of the per-directory ignore file (one glob per line).
pub const FILE_IGNORE_NAME: &'static str = ".sync-exclude.lst";

/// The pattern is one that `glob::Pattern::new` accepts.
pub uninterp spec fn glob_is_valid(pattern: Seq<char>) -> bool;

/// The text is one that `glob::Pattern::matches` accepts for the pattern.
pub uninterp spec fn glob_matches(pattern: Seq<char>, text: Seq<char>) -> bool;

/// Does `glob::Pattern::new` accept the pattern?
///
/// Stated of it: whether it gives `Ok` depends on the pattern alone. Which
/// patterns these are is left unsaid.
#[verifier::external_body]
fn pattern_is_valid(pattern: &str) -> (valid: bool)
    ensures
        valid == glob_is_valid(pattern@),
{
    glob::Pattern::new(pattern).is_ok()
}

/// Does `glob::Pattern::matches`, on the pattern that `glob::Pattern::new`
/// gives, accept the text?
///
/// Stated of it: the answer depends on the pattern and the text alone. Which
/// texts match is left unsaid.
#[verifier::external_body]
fn pattern_matches(pattern: &str, text: &str) -> (matched: bool)
    requires
        glob_is_valid(pattern@),
    ensures
        matched == glob_matches(pattern@, text@),
{
    glob::Pattern::new(pattern).unwrap().matches(text)
}

/// One of the patterns is valid and matches the text.
pub open spec fn ignored(patterns: Seq<Seq<char>>, text: Seq<char>) -> bool {
    exists|i: int|
        0 <= i < patterns.len() && glob_is_valid(#[trigger] patterns[i]) && glob_matches(
            patterns[i],
            text,
        )
}

/// Does one of the patterns match the text? Patterns that are not valid
/// match nothing.
pub fn is_ignored(patterns: &Vec<String>, text: &str) -> (out: bool)
    ensures
        out == ignored(text::views(patterns@), text@),
{
    let total: usize = patterns.len();
    let mut i: usize = 0;
    while i < total
        invariant
            total == patterns@.len(),
            i <= total,
            forall|k: int|
                0 <= k < i ==> !(glob_is_valid(#[trigger] text::views(patterns@)[k])
                    && glob_matches(text::views(patterns@)[k], text@)),
        decreases total - i,
    {
        let pattern = patterns[i].as_str();
        assert(text::views(patterns@)[i as int] == pattern@);
        if pattern_is_valid(pattern) && pattern_matches(pattern, text) {
            return true;
        }
        i = i + 1;
    }
    false
}

/// The patterns of an ignore file's content; none where there is no file.
pub open spec fn patterns(content: Option<String>) -> Seq<Seq<char>> {
    match content {
        Some(text) => text::lines(text@),
        None => Seq::empty(),
    }
}

/// The patterns of an ignore file's content; none where there is no file.
pub fn read_patterns(content: Option<String>) -> (list: Vec<String>)
    ensures
        text::views(list@) == patterns(content),
{
    match content {
        Some(text) => split_lines(text.as_str()),
        None => {
            let list: Vec<String> = Vec::new();
            list
        },
    }
}

/// A text is ignored as soon as one valid pattern matches it, whatever stands
/// beside that pattern; a pattern that is not valid ignores nothing, and
/// without patterns nothing is ignored.
pub proof fn law_one_pattern_is_enough(
    before: Seq<Seq<char>>,
    pattern: Seq<char>,
    behind: Seq<Seq<char>>,
    text: Seq<char>,
)
    ensures
        glob_is_valid(pattern) && glob_matches(pattern, text) ==> ignored(
            before + seq![pattern] + behind,
            text,
        ),
        !glob_is_valid(pattern) || !glob_matches(pattern, text) ==> (ignored(
            before + seq![pattern] + behind,
            text,
        ) ==> ignored(before + behind, text)),
        !ignored(Seq::empty(), text),
{
    let all = before + seq![pattern] + behind;
    let others = before + behind;
    assert(all[before.len() as int] == pattern);
    if ignored(all, text) && !(glob_is_valid(pattern) && glob_matches(pattern, text)) {
        let i = choose|i: int|
            0 <= i < all.len() && glob_is_valid(#[trigger] all[i]) && glob_matches(all[i], text);
        if i < before.len() {
            assert(others[i] == all[i]);
        } else {
            assert(others[i - 1] == all[i]);
        }
    }
}

} // verus!

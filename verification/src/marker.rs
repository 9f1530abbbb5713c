//! The done-marker: the suffix of a task's text that says the task is done.

use vstd::prelude::*;
use crate::text::same_text;

verus! {

/// The done-marker, a space followed by `[done]`.
pub open spec fn marker() -> Seq<char> {
    seq![' ', '[', 'd', 'o', 'n', 'e', ']']
}

/// Whether a task with this text is done: its text ends with the marker.
pub open spec fn is_done(text: Seq<char>) -> bool {
    text.len() >= marker().len() && text.skip(text.len() - marker().len()) == marker()
}

/// The text of the task once it is marked done: the marker is appended
/// unless the text already ends with it.
pub open spec fn with_marker(text: Seq<char>) -> Seq<char> {
    if is_done(text) {
        text
    } else {
        text + marker()
    }
}

/// The text of the task once it is marked undone: every marker at its end
/// is stripped, so that the result does not end with one.
pub open spec fn without_marker(text: Seq<char>) -> Seq<char>
    decreases text.len(),
{
    if is_done(text) {
        without_marker(text.take(text.len() - marker().len()))
    } else {
        text
    }
}

/// A task marked done is done, and marking it again changes nothing.
pub proof fn lemma_with_marker_settles(text: Seq<char>)
    ensures
        is_done(with_marker(text)),
        with_marker(with_marker(text)) == with_marker(text),
{
    if !is_done(text) {
        assert((text + marker()).skip(text.len() as int) == marker());
    }
}

/// A task marked undone is not done, and marking it again changes nothing.
pub proof fn lemma_without_marker_settles(text: Seq<char>)
    ensures
        !is_done(without_marker(text)),
        without_marker(without_marker(text)) == without_marker(text),
    decreases text.len(),
{
    if is_done(text) {
        lemma_without_marker_settles(text.take(text.len() - marker().len()));
    }
}

/// Marking a task that is not done as done and then as undone gives back
/// its text.
pub proof fn lemma_marker_comes_off(text: Seq<char>)
    requires
        !is_done(text),
    ensures
        with_marker(text) == text + marker(),
        without_marker(text + marker()) == text,
{
    let marked = text + marker();
    assert(marked.skip(text.len() as int) == marker());
    assert(marked.take(marked.len() - marker().len()) == text);
    assert(without_marker(text) == text);
}

/// The marker as the literal that executable code appends and looks for.
proof fn lemma_marker_literal()
    ensures
        " [done]"@ == marker(),
{
    reveal_strlit(" [done]");
}

/// Whether `text` ends with the done-marker.
pub fn ends_with_marker(text: &str) -> (done: bool)
    ensures
        done == is_done(text@),
{
    let n: usize = text.unicode_len();
    if n < 7 {
        false
    } else {
        proof {
            lemma_marker_literal();
        }
        same_text(text.substring_char(n - 7, n), " [done]")
    }
}

/// The text of a task marked done.
pub fn mark_done(text: &str) -> (marked: String)
    ensures
        marked@ == with_marker(text@),
{
    let mut marked = text.to_owned();
    if !ends_with_marker(text) {
        proof {
            lemma_marker_literal();
        }
        marked.append(" [done]");
    }
    marked
}

/// The text of a task marked undone.
pub fn mark_undone(text: &str) -> (plain: String)
    ensures
        plain@ == without_marker(text@),
{
    let mut rest = text;
    let mut n: usize = text.unicode_len();
    while ends_with_marker(rest)
        invariant
            n == rest@.len(),
            without_marker(rest@) == without_marker(text@),
        decreases n,
    {
        rest = rest.substring_char(0, n - 7);
        n = n - 7;
    }
    rest.to_owned()
}

} // verus!

//! Command lines as text: white space, trimming, case folding and the split
//! of a line into words.

use vstd::prelude::*;
use vstd::std_specs::iter::IteratorSpec;

verus! {

/// Whether `c` separates words: the answer of `char::is_whitespace`, which
/// follows `White_Space` of the Unicode character database.
pub uninterp spec fn white_space(c: char) -> bool;

/// The lowercase form of a text: what `str::to_lowercase` returns for it.
pub uninterp spec fn lowercase(s: Seq<char>) -> Seq<char>;

/// `s` without its leading white space.
pub open spec fn trimmed_start(s: Seq<char>) -> Seq<char>
    decreases s.len(),
{
    if s.len() > 0 && white_space(s.first()) {
        trimmed_start(s.drop_first())
    } else {
        s
    }
}

/// `s` without its trailing white space.
pub open spec fn trimmed_end(s: Seq<char>) -> Seq<char>
    decreases s.len(),
{
    if s.len() > 0 && white_space(s.last()) {
        trimmed_end(s.drop_last())
    } else {
        s
    }
}

/// `s` without the white space that surrounds it.
pub open spec fn trimmed(s: Seq<char>) -> Seq<char> {
    trimmed_end(trimmed_start(s))
}

/// The words of `s`: its maximal runs of characters that are not white
/// space, in the order in which they occur.
pub open spec fn words(s: Seq<char>) -> Seq<Seq<char>>
    decreases s.len(),
{
    if s.len() == 0 {
        Seq::empty()
    } else {
        let before = s.drop_last();
        let found = words(before);
        if white_space(s.last()) {
            found
        } else if before.len() > 0 && !white_space(before.last()) {
            found.drop_last().push(found.last().push(s.last()))
        } else {
            found.push(seq![s.last()])
        }
    }
}

/// A word: at least one character, none of them white space.
pub open spec fn is_word(w: Seq<char>) -> bool {
    &&& w.len() > 0
    &&& forall|i: int| 0 <= i < w.len() ==> !white_space(#[trigger] w[i])
}

/// The words that a command line is read as: the line is trimmed, folded to
/// lowercase as a whole, and split at white space.
pub open spec fn command_words(line: Seq<char>) -> Seq<Seq<char>> {
    words(lowercase(trimmed(line)))
}

/// Calls `char::is_whitespace`. Nothing is claimed about which characters
/// count as white space, only that the answer depends on the character alone.
#[verifier::external_body]
fn is_white_space(c: char) -> (b: bool)
    ensures
        b == white_space(c),
{
    c.is_whitespace()
}

/// Calls `str::to_lowercase`. Nothing is claimed about the folding itself,
/// only that the result depends on the characters of `s` alone.
#[verifier::external_body]
fn to_lowercase(s: &str) -> (lower: String)
    ensures
        lower@ == lowercase(s@),
{
    s.to_lowercase()
}

/// Trimming from the front drops exactly the leading run of white space.
proof fn lemma_trimmed_start(s: Seq<char>, k: int)
    requires
        0 <= k <= s.len(),
        forall|i: int| 0 <= i < k ==> white_space(#[trigger] s[i]),
        k < s.len() ==> !white_space(s[k]),
    ensures
        trimmed_start(s) == s.skip(k),
    decreases k,
{
    if k > 0 {
        lemma_trimmed_start(s.drop_first(), k - 1);
    }
}

/// Trimming from the back drops exactly the trailing run of white space.
proof fn lemma_trimmed_end(s: Seq<char>, k: int)
    requires
        0 <= k <= s.len(),
        forall|i: int| k <= i < s.len() ==> white_space(#[trigger] s[i]),
        k > 0 ==> !white_space(s[k - 1]),
    ensures
        trimmed_end(s) == s.take(k),
    decreases s.len() - k,
{
    if k < s.len() {
        lemma_trimmed_end(s.drop_last(), k);
    }
}

/// Whether two texts hold the same characters, in the same order.
pub fn same_text(a: &str, b: &str) -> (same: bool)
    ensures
        same == (a@ == b@),
{
    let mut left = a.chars();
    let mut right = b.chars();
    let ghost mut i: int = 0;
    loop
        invariant
            0 <= i <= a@.len(),
            i <= b@.len(),
            left.remaining() == a@.skip(i),
            right.remaining() == b@.skip(i),
            a@.take(i) == b@.take(i),
            left.obeys_prophetic_iter_laws(),
            right.obeys_prophetic_iter_laws(),
        decreases a@.len() - i,
    {
        let x = left.next();
        let y = right.next();
        match (x, y) {
            (None, None) => {
                assert(a@ == a@.take(i));
                assert(b@ == b@.take(i));
                return true;
            },
            (Some(c), Some(d)) => {
                if c != d {
                    return false;
                }
                proof {
                    i = i + 1;
                }
            },
            _ => {
                return false;
            },
        }
    }
}

/// Removes the white space around `s`, as `str::trim` does.
pub fn trim(s: &str) -> (t: &str)
    ensures
        t@ == trimmed(s@),
{
    // The length bounds the count of the characters read.
    let n: usize = s.unicode_len();
    let mut first: usize = 0;
    let mut end: usize = 0;
    let mut seen = false;
    let mut i: usize = 0;
    for c in it: s.chars()
        invariant
            it.seq() == s@,
            n == s@.len(),
            i == it.index(),
            seen ==> first < end <= i && !white_space(s@[first as int]) && !white_space(
                s@[end - 1],
            ),
            seen ==> forall|j: int| 0 <= j < first ==> white_space(#[trigger] s@[j]),
            seen ==> forall|j: int| end <= j < i ==> white_space(#[trigger] s@[j]),
            !seen ==> forall|j: int| 0 <= j < i ==> white_space(#[trigger] s@[j]),
    {
        if !is_white_space(c) {
            if !seen {
                first = i;
                seen = true;
            }
            end = i + 1;
        }
        i = i + 1;
    }
    if seen {
        proof {
            lemma_trimmed_start(s@, first as int);
            let rest = s@.skip(first as int);
            assert(forall|j: int|
                end - first <= j < rest.len() ==> white_space(#[trigger] rest[j]));
            lemma_trimmed_end(rest, end - first);
        }
        s.substring_char(first, end)
    } else {
        proof {
            lemma_trimmed_start(s@, n as int);
        }
        s.substring_char(0, 0)
    }
}

/// Splits `s` into its words, as `str::split_whitespace` does.
pub fn split_words(s: &str) -> (found: Vec<String>)
    ensures
        found.deep_view() == words(s@),
{
    // The length bounds the count of the characters read.
    let n: usize = s.unicode_len();
    let mut found: Vec<String> = Vec::new();
    let mut start: usize = 0;
    let mut inside = false;
    let mut i: usize = 0;
    for c in it: s.chars()
        invariant
            it.seq() == s@,
            n == s@.len(),
            i == it.index(),
            inside <==> i > 0 && !white_space(s@[i - 1]),
            inside ==> start < i,
            words(s@.take(i as int)) == if inside {
                found.deep_view().push(s@.subrange(start as int, i as int))
            } else {
                found.deep_view()
            },
    {
        assert(s@.take(i + 1).drop_last() == s@.take(i as int));
        if is_white_space(c) {
            if inside {
                let word = s.substring_char(start, i).to_owned();
                found.push(word);
                inside = false;
            }
        } else {
            if inside {
                assert(s@.subrange(start as int, i as int).push(c) == s@.subrange(
                    start as int,
                    i + 1,
                ));
            } else {
                start = i;
                inside = true;
                assert(seq![c] == s@.subrange(i as int, i + 1));
            }
        }
        i = i + 1;
    }
    assert(s@.take(i as int) == s@);
    if inside {
        let word = s.substring_char(start, i).to_owned();
        found.push(word);
    }
    found
}

/// Reads a command line as words: trims it, folds it to lowercase and splits
/// it at white space.
pub fn read_words(line: &str) -> (found: Vec<String>)
    ensures
        found.deep_view() == command_words(line@),
{
    let lower = to_lowercase(trim(line));
    split_words(lower.as_str())
}

} // verus!

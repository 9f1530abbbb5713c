//! Laws of the tracker: what holds of every list and every command, stated
//! over the transition `step` and proved from its definition.

use vstd::prelude::*;
use crate::command::step;
use crate::marker::{is_done, lemma_marker_comes_off, lemma_with_marker_settles, marker};
use crate::notice::NoticeView;
use crate::tasks::{
    after_remove, done_count, entries, joined, kept_from, lemma_done_count_bound,
    lemma_kept_without_places, place_of, places_of, removed_texts, taken_from,
};
use crate::text::{is_word, white_space, words};

verus! {

/// The names of the commands are nine different words.
pub proof fn lemma_verbs_differ()
    ensures
        "list"@ != "exit"@,
        "add"@ != "exit"@,
        "add"@ != "list"@,
        "remove"@ != "exit"@,
        "remove"@ != "list"@,
        "remove"@ != "add"@,
        "done"@ != "exit"@,
        "done"@ != "list"@,
        "done"@ != "add"@,
        "done"@ != "remove"@,
        "undone"@ != "exit"@,
        "undone"@ != "list"@,
        "undone"@ != "add"@,
        "undone"@ != "remove"@,
        "undone"@ != "done"@,
        "percentage"@ != "exit"@,
        "percentage"@ != "list"@,
        "percentage"@ != "add"@,
        "percentage"@ != "remove"@,
        "percentage"@ != "done"@,
        "percentage"@ != "undone"@,
        "flush"@ != "exit"@,
        "flush"@ != "list"@,
        "flush"@ != "add"@,
        "flush"@ != "remove"@,
        "flush"@ != "done"@,
        "flush"@ != "undone"@,
        "flush"@ != "percentage"@,
        "help"@ != "exit"@,
        "help"@ != "list"@,
        "help"@ != "add"@,
        "help"@ != "remove"@,
        "help"@ != "done"@,
        "help"@ != "undone"@,
        "help"@ != "percentage"@,
        "help"@ != "flush"@,
{
    reveal_strlit("exit");
    reveal_strlit("list");
    reveal_strlit("add");
    reveal_strlit("remove");
    reveal_strlit("done");
    reveal_strlit("undone");
    reveal_strlit("percentage");
    reveal_strlit("flush");
    reveal_strlit("help");
    assert("add"@.len() == 3);
    assert("flush"@.len() == 5);
    assert("exit"@[0] == 'e' && "list"@[0] == 'l' && "done"@[0] == 'd' && "help"@[0] == 'h');
    assert("remove"@[0] == 'r' && "undone"@[0] == 'u');
}

/// The list after a run of commands, each given by its words.
pub open spec fn run(list: Seq<Seq<char>>, commands: Seq<Seq<Seq<char>>>) -> Seq<Seq<char>>
    decreases commands.len(),
{
    if commands.len() == 0 {
        list
    } else {
        step(run(list, commands.drop_last()), commands.last()).0
    }
}

/// An `add` command that carries a text.
pub open spec fn adds_text(command: Seq<Seq<char>>) -> bool {
    command.len() >= 2 && command.first() == "add"@
}

/// The texts that a run of `add` commands carries, one for each command.
pub open spec fn added_texts(commands: Seq<Seq<Seq<char>>>) -> Seq<Seq<char>> {
    Seq::new(commands.len(), |k: int| joined(commands[k].drop_first()))
}

/// After any run of `add` commands that each carry a text, the list holds
/// one task for each command, in the order of the commands, behind the
/// tasks it held before. Started from the empty list, `list` then shows
/// exactly these tasks, the first at position one.
pub proof fn law_added_tasks_are_listed(start: Seq<Seq<char>>, commands: Seq<Seq<Seq<char>>>)
    requires
        forall|k: int| 0 <= k < commands.len() ==> adds_text(#[trigger] commands[k]),
    ensures
        run(start, commands) == start + added_texts(commands),
        start.len() == 0 && commands.len() > 0 ==> step(run(start, commands), seq!["list"@])
            == (
            added_texts(commands),
            seq![
                NoticeView::Listing(
                    Seq::new(
                        commands.len(),
                        |k: int| ((k + 1) as nat, joined(commands[k].drop_first())),
                    ),
                ),
            ],
        ),
    decreases commands.len(),
{
    lemma_verbs_differ();
    if commands.len() > 0 {
        law_added_tasks_are_listed(start, commands.drop_last());
        if start.len() == 0 {
            assert(entries(added_texts(commands)) == Seq::new(
                commands.len(),
                |k: int| ((k + 1) as nat, joined(commands[k].drop_first())),
            ));
        }
    }
}

/// `add` without a text leaves the list as it is.
pub proof fn law_add_without_text_changes_nothing(list: Seq<Seq<char>>)
    ensures
        step(list, seq!["add"@]) == (list, seq![NoticeView::NothingToAdd]),
{
    lemma_verbs_differ();
}

/// A text of white space alone holds no word, so a line of it spells no
/// command and no text for `add`.
pub proof fn law_blank_text_has_no_words(s: Seq<char>)
    ensures
        (forall|i: int| 0 <= i < s.len() ==> white_space(#[trigger] s[i])) ==> words(s).len() == 0,
    decreases s.len(),
{
    if s.len() > 0 {
        law_blank_text_has_no_words(s.drop_last());
        if forall|i: int| 0 <= i < s.len() ==> white_space(#[trigger] s[i]) {
            assert(forall|i: int|
                0 <= i < s.drop_last().len() ==> white_space(#[trigger] s.drop_last()[i]));
        }
    }
}

/// Every word that a text is split into is a word: it is not empty and
/// holds no white space.
pub proof fn law_words_are_words(s: Seq<char>)
    ensures
        forall|k: int| 0 <= k < words(s).len() ==> is_word(#[trigger] words(s)[k]),
        s.len() > 0 && !white_space(s.last()) ==> words(s).len() > 0,
    decreases s.len(),
{
    if s.len() > 0 {
        let before = s.drop_last();
        law_words_are_words(before);
        let found = words(before);
        if white_space(s.last()) {
        } else if before.len() > 0 && !white_space(before.last()) {
            let grown = found.last().push(s.last());
            assert(forall|i: int| 0 <= i < grown.len() ==> !white_space(#[trigger] grown[i]));
            assert(forall|k: int| 0 <= k < words(s).len() ==> is_word(#[trigger] words(s)[k]));
        } else {
            assert(forall|k: int| 0 <= k < words(s).len() ==> is_word(#[trigger] words(s)[k]));
        }
    }
}

/// A word is split into itself.
pub proof fn law_word_is_one_word(w: Seq<char>)
    ensures
        is_word(w) ==> words(w) == seq![w],
    decreases w.len(),
{
    if is_word(w) {
        let before = w.drop_last();
        if before.len() == 0 {
            assert(words(before) == Seq::<Seq<char>>::empty());
            assert(seq![w.last()] == w);
        } else {
            assert(forall|i: int| 0 <= i < before.len() ==> !white_space(#[trigger] before[i]));
            law_word_is_one_word(before);
            assert(before.push(w.last()) == w);
        }
    }
}

/// Two texts that meet at white space are split apart from each other: the
/// words of both together are the words of the first and then the words
/// of the second.
pub proof fn law_words_of_parts(a: Seq<char>, b: Seq<char>)
    ensures
        a.len() == 0 || b.len() == 0 || white_space(a.last()) || white_space(b.first())
            ==> words(a + b) == words(a) + words(b),
    decreases b.len(),
{
    if a.len() == 0 || b.len() == 0 || white_space(a.last()) || white_space(b.first()) {
        if b.len() > 0 {
            let rest = b.drop_last();
            assert((a + b).drop_last() == a + rest);
            law_words_of_parts(a, rest);
            law_words_are_words(rest);
        }
    }
}

/// Marking a task done twice in a row is marking it once: its text then
/// ends with one marker behind what it was. Marking it undone afterwards
/// gives back the list as it was. This is said of a task that is not done
/// to begin with; one whose text ends with the marker already is not
/// changed by `done`, and `undone` strips the marker it came with.
pub proof fn law_done_twice_then_undone(list: Seq<Seq<char>>, place: Seq<char>)
    requires
        place_of(place, list.len()) is Some,
        !is_done(list[place_of(place, list.len())->0]),
    ensures
        ({
            let i = place_of(place, list.len())->0;
            let once = step(list, seq!["done"@, place]).0;
            let twice = step(once, seq!["done"@, place]).0;
            let back = step(twice, seq!["undone"@, place]).0;
            &&& once == list.update(i, list[i] + marker())
            &&& twice == once
            &&& back == list
        }),
{
    lemma_verbs_differ();
    let i = place_of(place, list.len())->0;
    let args = seq![place];
    assert(seq!["done"@, place].drop_first() == args);
    assert(seq!["undone"@, place].drop_first() == args);
    lemma_one_place(place, list.len());
    lemma_with_marker_settles(list[i]);
    lemma_marker_comes_off(list[i]);
}

/// One argument that names a place selects this place and no other.
proof fn lemma_one_place(place: Seq<char>, len: nat)
    requires
        place_of(place, len) is Some,
    ensures
        places_of(seq![place], len) == seq![place_of(place, len)->0],
        forall|j: int| places_of(seq![place], len).contains(j) <==> j == place_of(place, len)->0,
{
    let args = seq![place];
    assert(places_of(args.drop_last(), len) == Seq::<int>::empty());
    let i = place_of(place, len)->0;
    assert(seq![i][0] == i);
}

/// A place is selected by the arguments exactly if one of them names it.
proof fn lemma_places_contain(args: Seq<Seq<char>>, len: nat, i: int)
    ensures
        places_of(args, len).contains(i) <==> exists|k: int|
            0 <= k < args.len() && place_of(#[trigger] args[k], len) == Some(i),
    decreases args.len(),
{
    if args.len() > 0 {
        let before = args.drop_last();
        lemma_places_contain(before, len, i);
        let found = places_of(before, len);
        match place_of(args.last(), len) {
            Some(j) => {
                vstd::seq_lib::lemma_seq_contains_after_push(found, j, i);
            },
            None => {},
        }
        if found.contains(i) {
            let k = choose|k: int|
                0 <= k < before.len() && place_of(#[trigger] before[k], len) == Some(i);
            assert(args[k] == before[k]);
        }
        if exists|k: int| 0 <= k < args.len() && place_of(#[trigger] args[k], len) == Some(i) {
            let k = choose|k: int|
                0 <= k < args.len() && place_of(#[trigger] args[k], len) == Some(i);
            if k < before.len() {
                assert(before[k] == args[k]);
            }
        }
    }
}

/// What is kept and what is taken depends on the chosen places as a set.
proof fn lemma_same_places(list: Seq<Seq<char>>, a: Seq<int>, b: Seq<int>, from: int)
    requires
        forall|i: int| a.contains(i) <==> b.contains(i),
    ensures
        kept_from(list, a, from) == kept_from(list, b, from),
        taken_from(list, a, from) == taken_from(list, b, from),
    decreases list.len() - from,
{
    if from < list.len() {
        lemma_same_places(list, a, b, from + 1);
    }
}

/// `remove` does not depend on the order of its arguments, nor on how often
/// one of them is given: two commands with the same arguments in any order
/// leave the same list and take out the same texts.
pub proof fn law_remove_ignores_order(list: Seq<Seq<char>>, a: Seq<Seq<char>>, b: Seq<Seq<char>>)
    requires
        forall|w: Seq<char>| a.contains(w) <==> b.contains(w),
    ensures
        step(list, seq!["remove"@] + a).0 == step(list, seq!["remove"@] + b).0,
        after_remove(list, a) == after_remove(list, b),
        removed_texts(list, a) == removed_texts(list, b),
{
    lemma_verbs_differ();
    let len = list.len();
    assert forall|i: int| places_of(a, len).contains(i) <==> places_of(b, len).contains(i) by {
        lemma_places_contain(a, len, i);
        lemma_places_contain(b, len, i);
        if places_of(a, len).contains(i) {
            let k = choose|k: int| 0 <= k < a.len() && place_of(#[trigger] a[k], len) == Some(i);
            assert(b.contains(a[k]));
        }
        if places_of(b, len).contains(i) {
            let k = choose|k: int| 0 <= k < b.len() && place_of(#[trigger] b[k], len) == Some(i);
            assert(a.contains(b[k]));
        }
    }
    lemma_same_places(list, places_of(a, len), places_of(b, len), 0);
    assert((seq!["remove"@] + a).drop_first() == a);
    assert((seq!["remove"@] + b).drop_first() == b);
}

/// Removing one place from `from` on.
proof fn lemma_remove_at(list: Seq<Seq<char>>, chosen: Seq<int>, i: int, from: int)
    requires
        0 <= from <= list.len(),
        0 <= i < list.len(),
        forall|j: int| chosen.contains(j) <==> j == i,
    ensures
        kept_from(list, chosen, from) == if from <= i {
            list.subrange(from, i) + list.skip(i + 1)
        } else {
            list.skip(from)
        },
        taken_from(list, chosen, from) == if from <= i {
            seq![list[i]]
        } else {
            Seq::empty()
        },
    decreases list.len() - from,
{
    if from < list.len() {
        lemma_remove_at(list, chosen, i, from + 1);
    }
}

/// `remove` with one place takes out the task at that place and no other:
/// a second task with the same text stays in the list.
pub proof fn law_remove_takes_one_place(list: Seq<Seq<char>>, place: Seq<char>)
    requires
        place_of(place, list.len()) is Some,
    ensures
        after_remove(list, seq![place]) == list.remove(place_of(place, list.len())->0),
        removed_texts(list, seq![place]) == seq![list[place_of(place, list.len())->0]],
{
    let i = place_of(place, list.len())->0;
    lemma_one_place(place, list.len());
    lemma_remove_at(list, places_of(seq![place], list.len()), i, 0);
}

/// `remove` whose arguments name no place of the list leaves the list as
/// it is.
pub proof fn law_remove_without_place_changes_nothing(list: Seq<Seq<char>>, args: Seq<Seq<char>>)
    requires
        forall|k: int| 0 <= k < args.len() ==> place_of(#[trigger] args[k], list.len()) is None,
    ensures
        after_remove(list, args) == list,
        step(list, seq!["remove"@] + args).0 == list,
{
    lemma_verbs_differ();
    let len = list.len();
    if places_of(args, len).len() > 0 {
        let i = places_of(args, len)[0];
        lemma_places_contain(args, len, i);
    }
    lemma_kept_without_places(list, places_of(args, len), 0);
    assert((seq!["remove"@] + args).drop_first() == args);
}

/// `remove` splits the list into the tasks it takes out and the tasks it
/// leaves.
pub proof fn law_remove_splits_the_list(list: Seq<Seq<char>>, args: Seq<Seq<char>>)
    ensures
        after_remove(list, args).len() + removed_texts(list, args).len() == list.len(),
{
    lemma_kept_and_taken(list, places_of(args, list.len()), 0);
}

/// From any place on, every task is either kept or taken.
proof fn lemma_kept_and_taken(list: Seq<Seq<char>>, chosen: Seq<int>, from: int)
    requires
        0 <= from <= list.len(),
    ensures
        kept_from(list, chosen, from).len() + taken_from(list, chosen, from).len() == list.len()
            - from,
    decreases list.len() - from,
{
    if from < list.len() {
        lemma_kept_and_taken(list, chosen, from + 1);
    }
}

/// `percentage` on the empty list reports that there is nothing to
/// measure; on any other list it reports a count of all tasks that is not
/// zero, and a count of done tasks that is not above it.
pub proof fn law_percentage_needs_tasks(list: Seq<Seq<char>>)
    ensures
        step(list, seq!["percentage"@]) == (
            list,
            if list.len() == 0 {
                seq![NoticeView::NothingToMeasure]
            } else {
                seq![NoticeView::Completion { done: done_count(list), total: list.len() }]
            },
        ),
        done_count(list) <= list.len(),
{
    lemma_verbs_differ();
    lemma_done_count_bound(list);
}

} // verus!

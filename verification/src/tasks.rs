//! The list of tasks and the operations on it.
//!
//! A task is its text; a task is done when its text ends with the
//! done-marker. Where a task stands in the list is its only name. Users name
//! it by its position, counted from one; the list knows it by its place,
//! counted from zero.

use vstd::prelude::*;
use crate::marker::{
    ends_with_marker, is_done, lemma_with_marker_settles, lemma_without_marker_settles, mark_done,
    mark_undone, with_marker, without_marker,
};
use crate::notice::{entries_view, single, Notice, NoticeView};
use crate::number::{parse_number, parsed_number};

verus! {

/// An ordered list of tasks. Its view is the sequence of their texts.
#[derive(Debug)]
pub struct TaskList {
    tasks: Vec<String>,
}

impl View for TaskList {
    type V = Seq<Seq<char>>;

    closed spec fn view(&self) -> Seq<Seq<char>> {
        self.tasks.deep_view()
    }
}

/// The words joined into one text, a single space between neighbours.
pub open spec fn joined(words: Seq<Seq<char>>) -> Seq<char>
    decreases words.len(),
{
    if words.len() == 0 {
        Seq::empty()
    } else if words.len() == 1 {
        words.last()
    } else {
        joined(words.drop_last()) + seq![' '] + words.last()
    }
}

/// The list after `add` with these arguments: the joined words become a new
/// last task; without words nothing changes.
pub open spec fn after_add(list: Seq<Seq<char>>, args: Seq<Seq<char>>) -> Seq<Seq<char>> {
    if args.len() == 0 {
        list
    } else {
        list.push(joined(args))
    }
}

/// What `add` reports.
pub open spec fn add_notices(args: Seq<Seq<char>>) -> Seq<NoticeView> {
    if args.len() == 0 {
        seq![NoticeView::NothingToAdd]
    } else {
        seq![NoticeView::Added(joined(args))]
    }
}

/// The entries that a listing shows: every task in order, each with its
/// position counted from one.
pub open spec fn entries(list: Seq<Seq<char>>) -> Seq<(nat, Seq<char>)> {
    Seq::new(list.len(), |i: int| ((i + 1) as nat, list[i]))
}

/// What `list` reports.
pub open spec fn list_notices(list: Seq<Seq<char>>) -> Seq<NoticeView> {
    if list.len() == 0 {
        seq![NoticeView::NoTasks]
    } else {
        seq![NoticeView::Listing(entries(list))]
    }
}

/// How many tasks of the list are done.
pub open spec fn done_count(list: Seq<Seq<char>>) -> nat
    decreases list.len(),
{
    if list.len() == 0 {
        0
    } else {
        done_count(list.drop_last()) + if is_done(list.last()) {
            1nat
        } else {
            0nat
        }
    }
}

/// What `percentage` reports: the two counts that the share of done tasks
/// is taken from, and no number at all for an empty list.
pub open spec fn completion_notices(list: Seq<Seq<char>>) -> Seq<NoticeView> {
    if list.len() == 0 {
        seq![NoticeView::NothingToMeasure]
    } else {
        seq![NoticeView::Completion { done: done_count(list), total: list.len() }]
    }
}

/// The place in a list of `len` tasks that `word` names, counted from zero:
/// `word` must read as a number from one to `len`.
pub open spec fn place_of(word: Seq<char>, len: nat) -> Option<int> {
    match parsed_number(word) {
        Some(p) => if 1 <= p <= len {
            Some(p - 1)
        } else {
            None
        },
        None => None,
    }
}

/// The places that the arguments name, in the order of the arguments;
/// arguments that name no place are passed over.
pub open spec fn places_of(args: Seq<Seq<char>>, len: nat) -> Seq<int>
    decreases args.len(),
{
    if args.len() == 0 {
        Seq::empty()
    } else {
        let before = places_of(args.drop_last(), len);
        match place_of(args.last(), len) {
            Some(i) => before.push(i),
            None => before,
        }
    }
}

/// The text of a task after it is marked done or undone.
pub open spec fn relabelled(text: Seq<char>, done: bool) -> Seq<char> {
    if done {
        with_marker(text)
    } else {
        without_marker(text)
    }
}

/// The list after `done` or `undone` with these arguments: the tasks at the
/// places that the arguments name are relabelled, the others stay.
pub open spec fn after_mark(list: Seq<Seq<char>>, args: Seq<Seq<char>>, done: bool) -> Seq<
    Seq<char>,
> {
    Seq::new(
        list.len(),
        |i: int|
            if places_of(args, list.len()).contains(i) {
                relabelled(list[i], done)
            } else {
                list[i]
            },
    )
}

/// What `done` or `undone` reports: for every argument that names a place,
/// in the order of the arguments, the text of the task there after the
/// command. Other arguments are passed over in silence.
pub open spec fn mark_notices(list: Seq<Seq<char>>, args: Seq<Seq<char>>, done: bool) -> Seq<
    NoticeView,
> {
    places_of(args, list.len()).map_values(
        |i: int|
            if done {
                NoticeView::MarkedDone(with_marker(list[i]))
            } else {
                NoticeView::MarkedUndone(without_marker(list[i]))
            },
    )
}

/// The tasks of `list` from place `from` on, without those at the places in
/// `chosen`, in their order.
pub open spec fn kept_from(list: Seq<Seq<char>>, chosen: Seq<int>, from: int) -> Seq<Seq<char>>
    decreases list.len() - from,
{
    if from >= list.len() {
        Seq::empty()
    } else if chosen.contains(from) {
        kept_from(list, chosen, from + 1)
    } else {
        seq![list[from]] + kept_from(list, chosen, from + 1)
    }
}

/// The tasks of `list` from place `from` on that stand at the places in
/// `chosen`, the last of them first.
pub open spec fn taken_from(list: Seq<Seq<char>>, chosen: Seq<int>, from: int) -> Seq<Seq<char>>
    decreases list.len() - from,
{
    if from >= list.len() {
        Seq::empty()
    } else if chosen.contains(from) {
        taken_from(list, chosen, from + 1).push(list[from])
    } else {
        taken_from(list, chosen, from + 1)
    }
}

/// The list after `remove` with these arguments: the tasks at the places
/// that the arguments name are gone, each place read against the list
/// before the command; the other tasks keep their order.
pub open spec fn after_remove(list: Seq<Seq<char>>, args: Seq<Seq<char>>) -> Seq<Seq<char>> {
    kept_from(list, places_of(args, list.len()), 0)
}

/// The texts that `remove` takes out, from the highest place down; a place
/// named more than once counts once.
pub open spec fn removed_texts(list: Seq<Seq<char>>, args: Seq<Seq<char>>) -> Seq<Seq<char>> {
    taken_from(list, places_of(args, list.len()), 0)
}

/// What `remove` says of the arguments that name no place, in the order of
/// the arguments: which are no numbers, and which are numbers out of range.
pub open spec fn refusals(args: Seq<Seq<char>>, len: nat) -> Seq<NoticeView>
    decreases args.len(),
{
    if args.len() == 0 {
        Seq::empty()
    } else {
        let before = refusals(args.drop_last(), len);
        match parsed_number(args.last()) {
            None => before.push(NoticeView::NotANumber(args.last())),
            Some(p) => if 1 <= p <= len {
                before
            } else {
                before.push(NoticeView::OutOfRange(args.last()))
            },
        }
    }
}

/// What `remove` reports: first the refusals; then, if no argument names a
/// place, that nothing was removed, else the removed texts.
pub open spec fn remove_notices(list: Seq<Seq<char>>, args: Seq<Seq<char>>) -> Seq<NoticeView> {
    refusals(args, list.len()) + if places_of(args, list.len()).len() == 0 {
        seq![NoticeView::NothingRemoved]
    } else {
        removed_texts(list, args).map_values(|text: Seq<char>| NoticeView::Removed(text))
    }
}

/// No more tasks are done than there are tasks.
pub proof fn lemma_done_count_bound(list: Seq<Seq<char>>)
    ensures
        done_count(list) <= list.len(),
    decreases list.len(),
{
    if list.len() > 0 {
        lemma_done_count_bound(list.drop_last());
    }
}

/// Where no place is chosen, every task is kept and none is taken.
pub proof fn lemma_kept_without_places(list: Seq<Seq<char>>, chosen: Seq<int>, from: int)
    requires
        chosen.len() == 0,
        0 <= from <= list.len(),
    ensures
        kept_from(list, chosen, from) == list.skip(from),
        taken_from(list, chosen, from) == Seq::<Seq<char>>::empty(),
    decreases list.len() - from,
{
    if from < list.len() {
        lemma_kept_without_places(list, chosen, from + 1);
    } else {
    }
}

impl Default for TaskList {
    /// An empty list.
    fn default() -> (list: TaskList)
        ensures
            list@ == Seq::<Seq<char>>::empty(),
    {
        TaskList::new()
    }
}

impl TaskList {
    /// An empty list.
    pub fn new() -> (list: TaskList)
        ensures
            list@ == Seq::<Seq<char>>::empty(),
    {
        TaskList { tasks: Vec::new() }
    }

    /// The list whose tasks have the given texts, in their order.
    pub fn from_texts(texts: Vec<String>) -> (list: TaskList)
        ensures
            list@ == texts.deep_view(),
    {
        TaskList { tasks: texts }
    }

    /// The texts of the tasks, in their order.
    pub fn texts(&self) -> (texts: &[String])
        ensures
            texts.deep_view() == self@,
    {
        let texts = self.tasks.as_slice();
        texts
    }

    /// The number of tasks.
    pub fn len(&self) -> (n: usize)
        ensures
            n == self@.len(),
    {
        self.tasks.len()
    }

    /// Whether the list holds no task.
    pub fn is_empty(&self) -> (empty: bool)
        ensures
            empty == (self@.len() == 0),
    {
        self.tasks.len() == 0
    }

    /// The text of the task at `index`, counted from zero, if there is one.
    pub fn get(&self, index: usize) -> (text: Option<&str>)
        ensures
            index < self@.len() ==> text.is_some() && text.unwrap()@ == self@[index as int],
            index >= self@.len() ==> text.is_none(),
    {
        if index < self.tasks.len() {
            Some(self.tasks[index].as_str())
        } else {
            None
        }
    }

    /// `add`: appends the task whose text is the words of `args` joined by
    /// single spaces, and reports that text. Without words the list stays
    /// as it is.
    pub fn add_task(&mut self, args: &[String]) -> (notices: Vec<Notice>)
        ensures
            final(self)@ == after_add(old(self)@, args.deep_view()),
            notices.deep_view() == add_notices(args.deep_view()),
    {
        let ghost words = args.deep_view();
        if args.len() == 0 {
            return single(Notice::NothingToAdd);
        }
        let mut text = args[0].clone();
        for k in 1..args.len()
            invariant
                words == args.deep_view(),
                text@ == joined(words.take(k as int)),
        {
            assert(words.take(k + 1).drop_last() == words.take(k as int));
            text.append(" ");
            text.append(args[k].as_str());
            proof {
                reveal_strlit(" ");
            }
        }
        assert(words.take(args.len() as int) == words);
        self.tasks.push(text.clone());
        single(Notice::Added(text))
    }

    /// `list`: reports every task with its position, or that there is none.
    pub fn list_tasks(&self) -> (notices: Vec<Notice>)
        ensures
            notices.deep_view() == list_notices(self@),
    {
        if self.tasks.len() == 0 {
            return single(Notice::NoTasks);
        }
        let mut shown: Vec<(usize, String)> = Vec::new();
        for i in 0..self.tasks.len()
            invariant
                shown.len() == i,
                forall|j: int|
                    0 <= j < i ==> (#[trigger] shown[j]).0 == j + 1 && shown[j].1@
                        == self.tasks[j]@,
        {
            shown.push((i + 1, self.tasks[i].clone()));
        }
        assert(entries_view(shown@) == entries(self@));
        single(Notice::Listing(shown))
    }

    /// `flush`: removes every task.
    pub fn flush(&mut self) -> (notices: Vec<Notice>)
        ensures
            final(self)@ == Seq::<Seq<char>>::empty(),
            notices.deep_view() == seq![NoticeView::Flushed],
    {
        self.tasks.clear();
        single(Notice::Flushed)
    }

    /// `percentage`: reports how many tasks are done and how many there
    /// are, or that the list is empty.
    pub fn percentage_done(&self) -> (notices: Vec<Notice>)
        ensures
            notices.deep_view() == completion_notices(self@),
    {
        let total: usize = self.tasks.len();
        if total == 0 {
            return single(Notice::NothingToMeasure);
        }
        let mut done: usize = 0;
        for i in 0..total
            invariant
                total == self.tasks.len(),
                done == done_count(self@.take(i as int)),
                done <= i,
        {
            assert(self@.take(i + 1).drop_last() == self@.take(i as int));
            if ends_with_marker(self.tasks[i].as_str()) {
                done = done + 1;
            }
        }
        assert(self@.take(total as int) == self@);
        single(Notice::Completion { done, total })
    }
    /// Relabels the tasks at the places that `args` names, one argument
    /// after the other.
    fn mark(&mut self, args: &[String], done: bool) -> (notices: Vec<Notice>)
        ensures
            final(self)@ == after_mark(old(self)@, args.deep_view(), done),
            notices.deep_view() == mark_notices(old(self)@, args.deep_view(), done),
    {
        let ghost list = self@;
        let ghost words = args.deep_view();
        let n: usize = self.tasks.len();
        let mut notices: Vec<Notice> = Vec::new();
        for k in 0..args.len()
            invariant
                n == list.len(),
                n == self.tasks.len(),
                words == args.deep_view(),
                self@ == after_mark(list, words.take(k as int), done),
                notices.deep_view() == mark_notices(list, words.take(k as int), done),
        {
            let ghost seen = places_of(words.take(k as int), n as nat);
            let ghost told = notices.deep_view();
            let ghost held = self@;
            assert(words.take(k + 1).drop_last() == words.take(k as int));
            match parse_number(args[k].as_str()) {
                Some(p) => {
                    if 1 <= p && p <= n {
                        let i: usize = p - 1;
                        let text = if done {
                            mark_done(self.tasks[i].as_str())
                        } else {
                            mark_undone(self.tasks[i].as_str())
                        };
                        proof {
                            lemma_with_marker_settles(list[i as int]);
                            lemma_without_marker_settles(list[i as int]);
                            assert(held[i as int] == self.tasks[i as int]@);
                            vstd::seq_lib::lemma_seq_contains_after_push(seen, i as int, i as int);
                        }
                        self.tasks.set(i, text.clone());
                        if done {
                            notices.push(Notice::MarkedDone(text));
                        } else {
                            notices.push(Notice::MarkedUndone(text));
                        }
                        proof {
                            assert forall|j: int| 0 <= j < n implies #[trigger] self@[j]
                                == after_mark(list, words.take(k + 1), done)[j] by {
                                vstd::seq_lib::lemma_seq_contains_after_push(seen, i as int, j);
                                assert(held[j] == after_mark(list, words.take(k as int), done)[j]);
                            }
                            assert(notices.deep_view() == told.push(notices[notices.len() - 1]@));
                        }
                    }
                },
                None => {},
            }
        }
        assert(words.take(args.len() as int) == words);
        notices
    }

    /// `done`: marks the tasks at the places that `args` names as done and
    /// reports the text of each. A task that is done already keeps its
    /// text. Arguments that name no place are passed over in silence.
    pub fn done(&mut self, args: &[String]) -> (notices: Vec<Notice>)
        ensures
            final(self)@ == after_mark(old(self)@, args.deep_view(), true),
            notices.deep_view() == mark_notices(old(self)@, args.deep_view(), true),
    {
        self.mark(args, true)
    }

    /// `undone`: marks the tasks at the places that `args` names as undone
    /// and reports the text of each. A task that is not done keeps its
    /// text. Arguments that name no place are passed over in silence.
    pub fn undone(&mut self, args: &[String]) -> (notices: Vec<Notice>)
        ensures
            final(self)@ == after_mark(old(self)@, args.deep_view(), false),
            notices.deep_view() == mark_notices(old(self)@, args.deep_view(), false),
    {
        self.mark(args, false)
    }

    /// `remove`: takes out the tasks at the places that `args` names, each
    /// place read against the list as it is before the command, and
    /// reports the removed texts from the highest place down. An argument
    /// that is no number, or no place in the list, is reported and passed
    /// over; a place named twice is removed once.
    pub fn remove_task(&mut self, args: &[String]) -> (notices: Vec<Notice>)
        ensures
            final(self)@ == after_remove(old(self)@, args.deep_view()),
            notices.deep_view() == remove_notices(old(self)@, args.deep_view()),
    {
        let ghost list = self@;
        let ghost words = args.deep_view();
        let n: usize = self.tasks.len();
        let mut notices: Vec<Notice> = Vec::new();
        let mut chosen: Vec<bool> = Vec::new();
        for i in 0..n
            invariant
                chosen.len() == i,
                forall|j: int| 0 <= j < i ==> !#[trigger] chosen[j],
        {
            chosen.push(false);
        }
        let mut any = false;
        for k in 0..args.len()
            invariant
                n == list.len(),
                chosen.len() == n,
                words == args.deep_view(),
                any <==> places_of(words.take(k as int), n as nat).len() > 0,
                forall|j: int|
                    0 <= j < n ==> (#[trigger] chosen[j] <==> places_of(
                        words.take(k as int),
                        n as nat,
                    ).contains(j)),
                notices.deep_view() == refusals(words.take(k as int), n as nat),
        {
            let ghost seen = places_of(words.take(k as int), n as nat);
            let ghost told = notices.deep_view();
            assert(words.take(k + 1).drop_last() == words.take(k as int));
            match parse_number(args[k].as_str()) {
                Some(p) => {
                    if 1 <= p && p <= n {
                        chosen.set(p - 1, true);
                        any = true;
                        proof {
                            assert forall|j: int| 0 <= j < n implies (#[trigger] chosen[j]
                                <==> seen.push(p - 1).contains(j)) by {
                                vstd::seq_lib::lemma_seq_contains_after_push(seen, p - 1, j);
                            }
                        }
                    } else {
                        notices.push(Notice::OutOfRange(args[k].clone()));
                    }
                },
                None => {
                    notices.push(Notice::NotANumber(args[k].clone()));
                },
            }
        }
        assert(words.take(args.len() as int) == words);
        let ghost places = places_of(words, n as nat);
        let ghost refused = notices.deep_view();
        if !any {
            proof {
                lemma_kept_without_places(list, places, 0);
            }
            notices.push(Notice::NothingRemoved);
            return notices;
        }
        let mut i: usize = n;
        while i > 0
            invariant
                i <= n,
                n == list.len(),
                chosen.len() == n,
                forall|j: int| 0 <= j < n ==> (#[trigger] chosen[j] <==> places.contains(j)),
                self@ == list.take(i as int) + kept_from(list, places, i as int),
                notices.deep_view() == refused + taken_from(list, places, i as int).map_values(
                    |text: Seq<char>| NoticeView::Removed(text),
                ),
            decreases i,
        {
            i = i - 1;
            let ghost told = notices.deep_view();
            let ghost held = self@;
            let ghost tail = kept_from(list, places, i + 1);
            assert(held.len() == self.tasks.len());
            assert(held[i as int] == list.take(i + 1)[i as int]);
            if chosen[i] {
                let text = self.tasks.remove(i);
                assert(self@ == held.remove(i as int));
                notices.push(Notice::Removed(text));
                assert(notices.deep_view() == told.push(NoticeView::Removed(list[i as int])));
            }
        }
        notices
    }
}

} // verus!

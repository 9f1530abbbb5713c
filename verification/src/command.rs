//! Commands: one line of text in, one change of the list and its notices out.

use vstd::prelude::*;
use vstd::slice::slice_subrange;
use crate::notice::{single, Notice, NoticeView};
use crate::tasks::{
    add_notices, after_add, after_mark, after_remove, completion_notices, list_notices,
    mark_notices, remove_notices, TaskList,
};
use crate::text::{command_words, read_words, same_text};

verus! {

/// The one transition of the tracker: the list and the notices that follow
/// from a list and the words of a command. The first word selects the
/// command by its exact spelling, the other words are its arguments. Only
/// `add`, `remove`, `done`, `undone` and `flush` can change the list.
pub open spec fn step(list: Seq<Seq<char>>, words: Seq<Seq<char>>) -> (
    Seq<Seq<char>>,
    Seq<NoticeView>,
) {
    if words.len() == 0 {
        (list, seq![NoticeView::NoCommand])
    } else {
        let verb = words.first();
        let args = words.drop_first();
        if verb == "exit"@ {
            (list, seq![NoticeView::Exit])
        } else if verb == "list"@ {
            (list, list_notices(list))
        } else if verb == "add"@ {
            (after_add(list, args), add_notices(args))
        } else if verb == "remove"@ {
            (after_remove(list, args), remove_notices(list, args))
        } else if verb == "done"@ {
            (after_mark(list, args, true), mark_notices(list, args, true))
        } else if verb == "undone"@ {
            (after_mark(list, args, false), mark_notices(list, args, false))
        } else if verb == "percentage"@ {
            (list, completion_notices(list))
        } else if verb == "flush"@ {
            (Seq::empty(), seq![NoticeView::Flushed])
        } else if verb == "help"@ {
            (list, seq![NoticeView::Help])
        } else {
            (list, seq![NoticeView::UnknownCommand(verb)])
        }
    }
}

/// Carries out the command that `words` spell, on `tasks`.
pub fn run_words(words: &[String], tasks: &mut TaskList) -> (notices: Vec<Notice>)
    ensures
        (final(tasks)@, notices.deep_view()) == step(old(tasks)@, words.deep_view()),
{
    if words.len() == 0 {
        return single(Notice::NoCommand);
    }
    let verb = words[0].as_str();
    let args = slice_subrange(words, 1, words.len());
    assert(args.deep_view() == words.deep_view().drop_first());
    if same_text(verb, "exit") {
        single(Notice::Exit)
    } else if same_text(verb, "list") {
        tasks.list_tasks()
    } else if same_text(verb, "add") {
        tasks.add_task(args)
    } else if same_text(verb, "remove") {
        tasks.remove_task(args)
    } else if same_text(verb, "done") {
        tasks.done(args)
    } else if same_text(verb, "undone") {
        tasks.undone(args)
    } else if same_text(verb, "percentage") {
        tasks.percentage_done()
    } else if same_text(verb, "flush") {
        tasks.flush()
    } else if same_text(verb, "help") {
        single(Notice::Help)
    } else {
        single(Notice::UnknownCommand(words[0].clone()))
    }
}

/// Reads one line as a command and carries it out on `tasks`: the line is
/// trimmed, folded to lowercase and split into words, and the words are
/// taken as `run_words` takes them.
pub fn matchcommands(input: &str, tasks: &mut TaskList) -> (notices: Vec<Notice>)
    ensures
        (final(tasks)@, notices.deep_view()) == step(old(tasks)@, command_words(input@)),
{
    let words = read_words(input);
    run_words(words.as_slice(), tasks)
}

} // verus!

//! What the tracker reports back after a command.

use vstd::prelude::*;

verus! {

/// One report of the tracker. A command is answered by a sequence of these,
/// in the order in which they are to be shown.
#[derive(Debug, PartialEq, Eq)]
pub enum Notice {
    /// The line held no word.
    NoCommand,
    /// The first word of the line names no command; it is handed back.
    UnknownCommand(String),
    /// The command asks for the summary of commands.
    Help,
    /// The command asks to leave.
    Exit,
    /// A task with this text was appended to the list.
    Added(String),
    /// `add` was given no text.
    NothingToAdd,
    /// The tasks of the list, each with its position, counted from one.
    Listing(Vec<(usize, String)>),
    /// The list holds no task to show.
    NoTasks,
    /// An argument of `remove` that is no number; the argument is handed back.
    NotANumber(String),
    /// An argument of `remove` that is a number but no position in the list.
    OutOfRange(String),
    /// No argument of `remove` was a position in the list.
    NothingRemoved,
    /// The task with this text was removed.
    Removed(String),
    /// A task was marked done; this is its text now.
    MarkedDone(String),
    /// A task was marked undone; this is its text now.
    MarkedUndone(String),
    /// All tasks were removed.
    Flushed,
    /// How many of the tasks are done, and how many tasks there are.
    Completion { done: usize, total: usize },
    /// The list holds no task to take a share of.
    NothingToMeasure,
}

/// A `Notice` as a mathematical value: texts are sequences of characters.
pub enum NoticeView {
    NoCommand,
    UnknownCommand(Seq<char>),
    Help,
    Exit,
    Added(Seq<char>),
    NothingToAdd,
    Listing(Seq<(nat, Seq<char>)>),
    NoTasks,
    NotANumber(Seq<char>),
    OutOfRange(Seq<char>),
    NothingRemoved,
    Removed(Seq<char>),
    MarkedDone(Seq<char>),
    MarkedUndone(Seq<char>),
    Flushed,
    Completion { done: nat, total: nat },
    NothingToMeasure,
}

/// The entries of a listing as mathematical values.
pub open spec fn entries_view(entries: Seq<(usize, String)>) -> Seq<(nat, Seq<char>)> {
    Seq::new(entries.len(), |i: int| (entries[i].0 as nat, entries[i].1@))
}

impl View for Notice {
    type V = NoticeView;

    open spec fn view(&self) -> NoticeView {
        match self {
            Notice::NoCommand => NoticeView::NoCommand,
            Notice::UnknownCommand(word) => NoticeView::UnknownCommand(word@),
            Notice::Help => NoticeView::Help,
            Notice::Exit => NoticeView::Exit,
            Notice::Added(text) => NoticeView::Added(text@),
            Notice::NothingToAdd => NoticeView::NothingToAdd,
            Notice::Listing(entries) => NoticeView::Listing(entries_view(entries@)),
            Notice::NoTasks => NoticeView::NoTasks,
            Notice::NotANumber(word) => NoticeView::NotANumber(word@),
            Notice::OutOfRange(word) => NoticeView::OutOfRange(word@),
            Notice::NothingRemoved => NoticeView::NothingRemoved,
            Notice::Removed(text) => NoticeView::Removed(text@),
            Notice::MarkedDone(text) => NoticeView::MarkedDone(text@),
            Notice::MarkedUndone(text) => NoticeView::MarkedUndone(text@),
            Notice::Flushed => NoticeView::Flushed,
            Notice::Completion { done, total } => NoticeView::Completion {
                done: *done as nat,
                total: *total as nat,
            },
            Notice::NothingToMeasure => NoticeView::NothingToMeasure,
        }
    }
}

impl DeepView for Notice {
    type V = NoticeView;

    open spec fn deep_view(&self) -> NoticeView {
        self@
    }
}

/// The answer that is one notice.
pub fn single(notice: Notice) -> (notices: Vec<Notice>)
    ensures
        notices.deep_view() == seq![notice@],
{
    let mut notices: Vec<Notice> = Vec::new();
    notices.push(notice);
    notices
}

} // verus!

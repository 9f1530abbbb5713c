use tasklist::command::{matchcommands, run_words};
use tasklist::notice::Notice;
use tasklist::tasks::TaskList;

fn owned(words: &[&str]) -> Vec<String> {
    words.iter().map(|w| w.to_string()).collect()
}

fn contents(tasks: &TaskList) -> Vec<String> {
    (0..tasks.len()).map(|i| tasks.get(i).unwrap().to_string()).collect()
}

fn filled(lines: &[&str]) -> TaskList {
    let mut tasks = TaskList::new();
    for line in lines {
        tasks.add_task(&owned(&[line]));
    }
    tasks
}

#[test]
fn blank_line_is_no_command() {
    let mut tasks = filled(&["one"]);
    for line in ["", " ", "\n", "\t \r\n", "\u{2003}\u{a0}"] {
        assert_eq!(matchcommands(line, &mut tasks), vec![Notice::NoCommand]);
    }
    assert_eq!(contents(&tasks), owned(&["one"]));
}

#[test]
fn unknown_command_hands_back_the_word() {
    let mut tasks = filled(&["one"]);
    assert_eq!(
        matchcommands("Frobnicate 1 2", &mut tasks),
        vec![Notice::UnknownCommand("frobnicate".to_string())]
    );
    assert_eq!(
        matchcommands("adds x", &mut tasks),
        vec![Notice::UnknownCommand("adds".to_string())]
    );
    assert_eq!(
        matchcommands("ad", &mut tasks),
        vec![Notice::UnknownCommand("ad".to_string())]
    );
    assert_eq!(contents(&tasks), owned(&["one"]));
}

#[test]
fn verbs_are_read_in_any_case() {
    let mut tasks = TaskList::new();
    assert_eq!(matchcommands("ADD Foo", &mut tasks), vec![Notice::Added("foo".to_string())]);
    assert_eq!(
        matchcommands("  LiSt  ", &mut tasks),
        vec![Notice::Listing(vec![(1, "foo".to_string())])]
    );
    assert_eq!(
        matchcommands("DONE 1", &mut tasks),
        vec![Notice::MarkedDone("foo [done]".to_string())]
    );
    assert_eq!(
        matchcommands("Percentage", &mut tasks),
        vec![Notice::Completion { done: 1, total: 1 }]
    );
    assert_eq!(
        matchcommands("UNDONE 1", &mut tasks),
        vec![Notice::MarkedUndone("foo".to_string())]
    );
    assert_eq!(matchcommands("REMOVE 1", &mut tasks), vec![Notice::Removed("foo".to_string())]);
    assert_eq!(matchcommands("FLUSH", &mut tasks), vec![Notice::Flushed]);
    assert_eq!(matchcommands("HELP", &mut tasks), vec![Notice::Help]);
    assert_eq!(matchcommands("EXIT", &mut tasks), vec![Notice::Exit]);
}

#[test]
fn help_and_exit_leave_the_list() {
    let mut tasks = filled(&["one", "two"]);
    assert_eq!(matchcommands("help", &mut tasks), vec![Notice::Help]);
    assert_eq!(matchcommands("help me", &mut tasks), vec![Notice::Help]);
    assert_eq!(matchcommands("exit", &mut tasks), vec![Notice::Exit]);
    assert_eq!(matchcommands("exit now", &mut tasks), vec![Notice::Exit]);
    assert_eq!(contents(&tasks), owned(&["one", "two"]));
}

#[test]
fn task_text_is_joined_with_single_spaces() {
    let mut tasks = TaskList::new();
    assert_eq!(
        matchcommands("  add   Buy \t MILK\u{3000}now  \n", &mut tasks),
        vec![Notice::Added("buy milk now".to_string())]
    );
    assert_eq!(contents(&tasks), owned(&["buy milk now"]));
}

#[test]
fn numbers_in_a_task_text_are_text() {
    let mut tasks = TaskList::new();
    matchcommands("add 1 2 3", &mut tasks);
    assert_eq!(contents(&tasks), owned(&["1 2 3"]));
}

#[test]
fn flush_empties_the_list() {
    let mut tasks = filled(&["one", "two", "three"]);
    assert_eq!(matchcommands("flush", &mut tasks), vec![Notice::Flushed]);
    assert_eq!(tasks.len(), 0);
    assert_eq!(matchcommands("list", &mut tasks), vec![Notice::NoTasks]);
    assert_eq!(matchcommands("flush", &mut tasks), vec![Notice::Flushed]);
    assert_eq!(tasks.len(), 0);
}

#[test]
fn list_of_nothing_says_so() {
    let mut tasks = TaskList::new();
    assert_eq!(matchcommands("list", &mut tasks), vec![Notice::NoTasks]);
    assert_eq!(matchcommands("list 1 2", &mut tasks), vec![Notice::NoTasks]);
}

#[test]
fn words_are_taken_as_they_are_given() {
    let mut tasks = TaskList::new();
    assert_eq!(run_words(&owned(&[]), &mut tasks), vec![Notice::NoCommand]);
    assert_eq!(
        run_words(&owned(&["ADD", "x"]), &mut tasks),
        vec![Notice::UnknownCommand("ADD".to_string())]
    );
    assert_eq!(
        run_words(&owned(&["add", "Keep", "Case"]), &mut tasks),
        vec![Notice::Added("Keep Case".to_string())]
    );
    assert_eq!(contents(&tasks), owned(&["Keep Case"]));
    assert_eq!(run_words(&owned(&["add"]), &mut tasks), vec![Notice::NothingToAdd]);
    assert_eq!(
        run_words(&owned(&["remove", "1"]), &mut tasks),
        vec![Notice::Removed("Keep Case".to_string())]
    );
    assert_eq!(tasks.len(), 0);
}

#[test]
fn remove_reports_each_bad_argument_in_order() {
    let mut tasks = filled(&["a", "b", "c", "d"]);
    let told = matchcommands("remove x 2 0 9 4 -1 2 1.5", &mut tasks);
    assert_eq!(
        told,
        vec![
            Notice::NotANumber("x".to_string()),
            Notice::OutOfRange("0".to_string()),
            Notice::OutOfRange("9".to_string()),
            Notice::NotANumber("-1".to_string()),
            Notice::NotANumber("1.5".to_string()),
            Notice::Removed("d".to_string()),
            Notice::Removed("b".to_string()),
        ]
    );
    assert_eq!(contents(&tasks), owned(&["a", "c"]));
}

#[test]
fn remove_without_arguments_removes_nothing() {
    let mut tasks = filled(&["a"]);
    assert_eq!(matchcommands("remove", &mut tasks), vec![Notice::NothingRemoved]);
    assert_eq!(
        matchcommands("remove one", &mut tasks),
        vec![Notice::NotANumber("one".to_string()), Notice::NothingRemoved]
    );
    assert_eq!(contents(&tasks), owned(&["a"]));
}

#[test]
fn remove_counts_a_repeated_place_once() {
    let mut tasks = filled(&["a", "b", "c"]);
    let told = matchcommands("remove 3 3 1 3", &mut tasks);
    assert_eq!(
        told,
        vec![Notice::Removed("c".to_string()), Notice::Removed("a".to_string())]
    );
    assert_eq!(contents(&tasks), owned(&["b"]));
}

#[test]
fn remove_all_places_in_any_order() {
    let mut tasks = filled(&["a", "b", "c"]);
    let told = matchcommands("remove 2 +3 01", &mut tasks);
    assert_eq!(
        told,
        vec![
            Notice::Removed("c".to_string()),
            Notice::Removed("b".to_string()),
            Notice::Removed("a".to_string()),
        ]
    );
    assert_eq!(tasks.len(), 0);
}

#[test]
fn done_and_undone_pass_over_bad_arguments_in_silence() {
    let mut tasks = filled(&["a", "b"]);
    assert_eq!(matchcommands("done x 0 3 -1", &mut tasks), vec![]);
    assert_eq!(matchcommands("undone x 0 3 -1", &mut tasks), vec![]);
    assert_eq!(matchcommands("done", &mut tasks), vec![]);
    assert_eq!(contents(&tasks), owned(&["a", "b"]));
    assert_eq!(
        matchcommands("done x 2 9", &mut tasks),
        vec![Notice::MarkedDone("b [done]".to_string())]
    );
    assert_eq!(contents(&tasks), owned(&["a", "b [done]"]));
}

#[test]
fn done_reports_in_the_order_given() {
    let mut tasks = filled(&["a", "b", "c"]);
    assert_eq!(
        matchcommands("done 3 1 3", &mut tasks),
        vec![
            Notice::MarkedDone("c [done]".to_string()),
            Notice::MarkedDone("a [done]".to_string()),
            Notice::MarkedDone("c [done]".to_string()),
        ]
    );
    assert_eq!(contents(&tasks), owned(&["a [done]", "b", "c [done]"]));
    assert_eq!(
        matchcommands("percentage", &mut tasks),
        vec![Notice::Completion { done: 2, total: 3 }]
    );
    assert_eq!(
        matchcommands("undone 1 1 2", &mut tasks),
        vec![
            Notice::MarkedUndone("a".to_string()),
            Notice::MarkedUndone("a".to_string()),
            Notice::MarkedUndone("b".to_string()),
        ]
    );
    assert_eq!(contents(&tasks), owned(&["a", "b", "c [done]"]));
}

#[test]
fn a_typed_marker_counts_as_done() {
    let mut tasks = TaskList::new();
    matchcommands("add ship it [DONE]", &mut tasks);
    assert_eq!(contents(&tasks), owned(&["ship it [done]"]));
    assert_eq!(
        matchcommands("percentage", &mut tasks),
        vec![Notice::Completion { done: 1, total: 1 }]
    );
    assert_eq!(
        matchcommands("done 1", &mut tasks),
        vec![Notice::MarkedDone("ship it [done]".to_string())]
    );
    assert_eq!(contents(&tasks), owned(&["ship it [done]"]));
    assert_eq!(
        matchcommands("undone 1", &mut tasks),
        vec![Notice::MarkedUndone("ship it".to_string())]
    );
}

#[test]
fn removal_shifts_later_positions() {
    let mut tasks = filled(&["a", "b", "c"]);
    matchcommands("remove 1", &mut tasks);
    assert_eq!(
        matchcommands("list", &mut tasks),
        vec![Notice::Listing(vec![(1, "b".to_string()), (2, "c".to_string())])]
    );
    matchcommands("add d", &mut tasks);
    assert_eq!(
        matchcommands("list", &mut tasks),
        vec![Notice::Listing(vec![
            (1, "b".to_string()),
            (2, "c".to_string()),
            (3, "d".to_string())
        ])]
    );
}

#[test]
fn single_holds_one_notice() {
    assert_eq!(tasklist::notice::single(Notice::Flushed), vec![Notice::Flushed]);
    assert_eq!(
        tasklist::notice::single(Notice::Added("x".to_string())),
        vec![Notice::Added("x".to_string())]
    );
}

#[test]
fn a_line_is_read_and_then_run() {
    let lines = ["add One  TWO", "done 1", "list", "remove 1 x", "bogus", "", "percentage"];
    let mut by_line = TaskList::new();
    let mut by_words = TaskList::new();
    for line in lines {
        let words = tasklist::text::read_words(line);
        assert_eq!(matchcommands(line, &mut by_line), run_words(&words, &mut by_words));
        assert_eq!(contents(&by_line), contents(&by_words));
    }
}

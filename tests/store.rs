use std::path::PathBuf;

use todo::label::clean_char;
use todo::{sanitize_label, Command, Entry, Todo, TodoError};

fn entry(label: &str, done: bool) -> Entry {
    Entry { label: label.to_string(), done }
}

fn list_of(labels: &[&str]) -> Todo {
    let mut todo = Todo::new(PathBuf::from("tasks.yaml"));
    todo.add(labels.iter().map(|l| entry(l, false)).collect());
    todo
}

fn labels(todo: &Todo) -> Vec<String> {
    todo.tasks.iter().map(|e| e.label.clone()).collect()
}

fn flags(todo: &Todo) -> Vec<bool> {
    todo.tasks.iter().map(|e| e.done).collect()
}

#[test]
fn fresh_store_is_empty() {
    let todo = Todo::new(PathBuf::from("missing/tasks.yaml"));
    assert!(todo.tasks.is_empty());
    assert_eq!(todo.path, PathBuf::from("missing/tasks.yaml"));
}

#[test]
fn add_preserves_order() {
    let todo = list_of(&["a", "b", "c"]);
    assert_eq!(labels(&todo), vec!["a", "b", "c"]);
    assert_eq!(flags(&todo), vec![false, false, false]);
}

#[test]
fn add_appends_after_existing_tasks() {
    let mut todo = list_of(&["a"]);
    todo.add(vec![entry("b", true), entry("c", false)]);
    assert_eq!(labels(&todo), vec!["a", "b", "c"]);
    assert_eq!(flags(&todo), vec![false, true, false]);
}

#[test]
fn add_nothing_keeps_list() {
    let mut todo = list_of(&["a"]);
    todo.add(Vec::new());
    assert_eq!(labels(&todo), vec!["a"]);
}

#[test]
fn batch_failure_is_atomic() {
    let mut todo = list_of(&["only"]);
    assert_eq!(todo.set_done(&[0, 99], true), Err(TodoError::IndexOutOfBounds));
    assert_eq!(flags(&todo), vec![false]);
}

#[test]
fn remove_failure_is_atomic() {
    let mut todo = list_of(&["a", "b"]);
    assert_eq!(todo.remove(&[0, 2]), Err(TodoError::IndexOutOfBounds));
    assert_eq!(labels(&todo), vec!["a", "b"]);
}

#[test]
fn index_equal_to_length_is_out_of_bounds() {
    let mut todo = list_of(&["a", "b"]);
    assert_eq!(todo.set_done(&[2], true), Err(TodoError::IndexOutOfBounds));
    assert_eq!(todo.remove(&[2]), Err(TodoError::IndexOutOfBounds));
    let mut empty = Todo::new(PathBuf::from("tasks.yaml"));
    assert_eq!(empty.remove(&[0]), Err(TodoError::IndexOutOfBounds));
}

#[test]
fn remove_compacts() {
    let mut todo = list_of(&["A", "B", "C", "D"]);
    assert_eq!(todo.remove(&[1, 3]), Ok(()));
    assert_eq!(labels(&todo), vec!["A", "C"]);
}

#[test]
fn remove_keeps_flags_of_survivors() {
    let mut todo = list_of(&["A", "B", "C"]);
    todo.set_done(&[2], true).unwrap();
    assert_eq!(todo.remove(&[0, 0]), Ok(()));
    assert_eq!(labels(&todo), vec!["B", "C"]);
    assert_eq!(flags(&todo), vec![false, true]);
}

#[test]
fn remove_every_task() {
    let mut todo = list_of(&["A", "B", "C"]);
    assert_eq!(todo.remove(&[2, 0, 1]), Ok(()));
    assert!(todo.tasks.is_empty());
}

#[test]
fn remove_no_index_keeps_list() {
    let mut todo = list_of(&["A", "B"]);
    assert_eq!(todo.remove(&[]), Ok(()));
    assert_eq!(labels(&todo), vec!["A", "B"]);
}

#[test]
fn duplicate_index_sets_done_once() {
    let mut todo = list_of(&["a", "b"]);
    assert_eq!(todo.set_done(&[0, 0], true), Ok(()));
    assert_eq!(flags(&todo), vec![true, false]);
    assert_eq!(labels(&todo), vec!["a", "b"]);
}

#[test]
fn set_done_twice_is_set_done_once() {
    let mut todo = list_of(&["a", "b", "c"]);
    todo.set_done(&[2, 0], true).unwrap();
    todo.set_done(&[2, 0], true).unwrap();
    assert_eq!(flags(&todo), vec![true, false, true]);
}

#[test]
fn undo_clears_flag() {
    let mut todo = list_of(&["a", "b"]);
    todo.set_done(&[0, 1], true).unwrap();
    assert_eq!(todo.set_done(&[1], false), Ok(()));
    assert_eq!(flags(&todo), vec![true, false]);
}

#[test]
fn error_message() {
    assert_eq!(TodoError::IndexOutOfBounds.message(), "Index out of bounds");
}

#[test]
fn tab_becomes_space() {
    assert_eq!(sanitize_label("buy\tmilk"), "buy milk");
}

#[test]
fn bell_is_dropped() {
    assert_eq!(sanitize_label("ring\u{7}me"), "ringme");
}

#[test]
fn sanitize_keeps_ordinary_text() {
    assert_eq!(sanitize_label(""), "");
    assert_eq!(sanitize_label("a b  c é"), "a b  c é");
    assert_eq!(sanitize_label("x\n\ry"), "x  y");
    assert_eq!(sanitize_label("\u{0}\u{9c}z\u{a0}"), "z\u{a0}");
}

#[test]
fn clean_char_cases() {
    assert_eq!(clean_char('q', false, false), Some('q'));
    assert_eq!(clean_char(' ', false, true), Some(' '));
    assert_eq!(clean_char('\t', true, true), Some(' '));
    assert_eq!(clean_char('\u{7}', true, false), None);
}

#[test]
fn apply_add_sanitizes_labels() {
    let mut todo = list_of(&["first"]);
    let command = Command::Add(vec!["a\tb".to_string(), "c\u{7}d".to_string()]);
    assert_eq!(todo.apply(&command), Ok(()));
    assert_eq!(labels(&todo), vec!["first", "a b", "cd"]);
    assert_eq!(flags(&todo), vec![false, false, false]);
}

#[test]
fn apply_batches() {
    let mut todo = list_of(&["a", "b", "c"]);
    assert_eq!(todo.apply(&Command::Done(vec![0, 2])), Ok(()));
    assert_eq!(flags(&todo), vec![true, false, true]);
    assert_eq!(todo.apply(&Command::Undo(vec![2])), Ok(()));
    assert_eq!(flags(&todo), vec![true, false, false]);
    assert_eq!(todo.apply(&Command::Remove(vec![1])), Ok(()));
    assert_eq!(labels(&todo), vec!["a", "c"]);
    assert_eq!(
        todo.apply(&Command::Remove(vec![0, 5])),
        Err(TodoError::IndexOutOfBounds)
    );
    assert_eq!(todo.apply(&Command::Undo(vec![7])), Err(TodoError::IndexOutOfBounds));
    assert_eq!(labels(&todo), vec!["a", "c"]);
    assert_eq!(flags(&todo), vec![true, false]);
}

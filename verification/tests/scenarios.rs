// Whole invocations, played through on files held in memory. Styling is
// switched off, so that what is printed is the plain text.

use hitlist::command::{Effect, Request};
use hitlist::show::{plain as said, styled, Piece};
use hitlist::store::Store;

fn plain() {
    colored::control::set_override(false);
}

// What the terminal gets, which without styling is what the pieces say.
fn shown(page: &Vec<Piece>) -> String {
    let text = styled(page);
    assert_eq!(text, said(page));
    text
}

fn store_with(list: &str) -> Store {
    Store { list: Some(list.to_string()), backup: None }
}

fn mark(dir: &str) -> Request {
    Request::Mark { cwd: dir.to_string() }
}

fn unmark(index: usize) -> Request {
    Request::Unmark { index }
}

#[test]
fn mark_and_list() {
    plain();
    let mut store = Store::new();
    let first = store.invoke(&mark("/a"));
    assert_eq!(first.code, 0);
    assert_eq!(shown(&first.out), "");
    assert_eq!(shown(&first.err), "");
    let second = store.invoke(&mark("/b"));
    assert_eq!(second.code, 0);
    assert_eq!(store.list.as_deref(), Some("/a\n/b\n"));
    let listed = store.invoke(&Request::List);
    assert_eq!(shown(&listed.out), "[1] /a\n[2] /b\n");
    assert_eq!(shown(&listed.err), "");
    assert_eq!(listed.code, 0);
    assert!(matches!(listed.effect, Effect::Nothing));
}

#[test]
fn duplicate_mark() {
    plain();
    let mut store = Store::new();
    assert_eq!(store.invoke(&mark("/a")).code, 0);
    let again = store.invoke(&mark("/a"));
    assert_eq!(again.code, 1);
    assert_eq!(shown(&again.out), "");
    assert_eq!(shown(&again.err), "");
    assert!(matches!(again.effect, Effect::Nothing));
    assert_eq!(store.list.as_deref(), Some("/a\n"));
}

#[test]
fn unmark_by_index() {
    plain();
    let mut store = store_with("/a\n/b\n/c\n");
    let done = store.invoke(&unmark(2));
    assert_eq!(done.code, 0);
    assert_eq!(shown(&done.err), "");
    assert_eq!(store.list.as_deref(), Some("/a\n/c\n"));
    let listed = store.invoke(&Request::List);
    assert_eq!(shown(&listed.out), "[1] /a\n[2] /c\n");
}

#[test]
fn unmark_first_and_last() {
    plain();
    let mut store = store_with("/a\n/b\n/c\n");
    assert_eq!(store.invoke(&unmark(1)).code, 0);
    assert_eq!(store.list.as_deref(), Some("/b\n/c\n"));
    assert_eq!(store.invoke(&unmark(2)).code, 0);
    assert_eq!(store.list.as_deref(), Some("/b\n"));
    assert_eq!(store.invoke(&unmark(1)).code, 0);
    assert_eq!(store.list.as_deref(), Some(""));
    assert_eq!(store.invoke(&Request::List).code, 1);
}

#[test]
fn invalid_index() {
    plain();
    let mut store = store_with("/a\n/b\n");
    let outcome = store.invoke(&unmark(5));
    assert_eq!(shown(&outcome.err), "Not valid index!\n");
    assert_eq!(shown(&outcome.out), "");
    assert_eq!(outcome.code, 1);
    assert!(matches!(outcome.effect, Effect::Nothing));
    assert_eq!(store.list.as_deref(), Some("/a\n/b\n"));
    assert_eq!(store.backup, None);
}

#[test]
fn index_zero_is_invalid() {
    plain();
    let mut store = store_with("/a\n/b\n");
    let outcome = store.invoke(&unmark(0));
    assert_eq!(shown(&outcome.err), "Not valid index!\n");
    assert_eq!(outcome.code, 1);
    assert_eq!(store.list.as_deref(), Some("/a\n/b\n"));
    let clipped = store.invoke(&Request::Clip { index: 0 });
    assert_eq!(shown(&clipped.err), "Not valid index!\n");
    assert_eq!(clipped.code, 1);
    assert!(matches!(clipped.effect, Effect::Nothing));
}

#[test]
fn index_just_past_the_end_is_invalid() {
    plain();
    let mut store = store_with("/a\n/b\n");
    assert_eq!(store.invoke(&unmark(3)).code, 1);
    assert_eq!(store.invoke(&Request::Clip { index: 3 }).code, 1);
    assert_eq!(store.invoke(&unmark(usize::MAX)).code, 1);
    assert_eq!(store.list.as_deref(), Some("/a\n/b\n"));
}

#[test]
fn clear_then_restore() {
    plain();
    let mut store = store_with("/a\n/b\n");
    let cleared = store.invoke(&Request::Clear);
    assert_eq!(cleared.code, 0);
    assert!(matches!(cleared.effect, Effect::ClearWithBackup));
    assert_eq!(store.list, None);
    assert_eq!(store.backup.as_deref(), Some("/a\n/b\n"));
    let listed = store.invoke(&Request::List);
    assert_eq!(listed.code, 1);
    assert_eq!(shown(&listed.out), "");
    let restored = store.invoke(&Request::Restore);
    assert_eq!(restored.code, 0);
    assert_eq!(shown(&restored.err), "");
    assert_eq!(store.list.as_deref(), Some("/a\n/b\n"));
    let listed = store.invoke(&Request::List);
    assert_eq!(shown(&listed.out), "[1] /a\n[2] /b\n");
    assert_eq!(listed.code, 0);
}

#[test]
fn restore_keeps_the_backup() {
    plain();
    let mut store = store_with("/a\n");
    store.invoke(&Request::Clear);
    store.invoke(&Request::Restore);
    assert_eq!(store.backup.as_deref(), Some("/a\n"));
    store.invoke(&unmark(1));
    assert_eq!(store.list.as_deref(), Some(""));
    store.invoke(&Request::Restore);
    assert_eq!(store.list.as_deref(), Some("/a\n"));
}

#[test]
fn clear_overwrites_an_older_backup() {
    plain();
    let mut store = Store { list: Some("/new\n".to_string()), backup: Some("/old\n".to_string()) };
    store.invoke(&Request::Clear);
    assert_eq!(store.list, None);
    assert_eq!(store.backup.as_deref(), Some("/new\n"));
}

#[test]
fn clear_of_an_empty_list_does_nothing() {
    plain();
    let mut store = Store { list: None, backup: Some("/old\n".to_string()) };
    let outcome = store.invoke(&Request::Clear);
    assert_eq!(outcome.code, 0);
    assert_eq!(shown(&outcome.err), "");
    assert!(matches!(outcome.effect, Effect::Nothing));
    assert_eq!(store.list.as_deref(), Some(""));
    assert_eq!(store.backup.as_deref(), Some("/old\n"));
}

#[test]
fn restore_without_backup() {
    plain();
    let mut store = store_with("/a\n");
    let outcome = store.invoke(&Request::Restore);
    assert_eq!(outcome.code, 0);
    assert_eq!(shown(&outcome.err), "No backup found!\n");
    assert_eq!(shown(&outcome.out), "");
    assert!(matches!(outcome.effect, Effect::Nothing));
    assert_eq!(store.list.as_deref(), Some("/a\n"));
    assert_eq!(store.backup, None);
}

#[test]
fn status_with_mixed_existence() {
    plain();
    let mut store = store_with("/tmp/real\n/tmp/missing\n");
    let outcome = store.invoke(&Request::Status { present: vec![true, false] });
    assert_eq!(shown(&outcome.out), "[\u{2713}] /tmp/real\n[\u{2718}] /tmp/missing\n");
    assert_eq!(shown(&outcome.err), "");
    assert_eq!(outcome.code, 0);
    assert_eq!(store.list.as_deref(), Some("/tmp/real\n/tmp/missing\n"));
}

#[test]
fn status_counts_an_unanswered_entry_as_gone() {
    plain();
    let mut store = store_with("/a\n/b\n");
    let outcome = store.invoke(&Request::Status { present: vec![true] });
    assert_eq!(shown(&outcome.out), "[\u{2713}] /a\n[\u{2718}] /b\n");
}

#[test]
fn status_of_an_empty_list() {
    plain();
    let mut store = Store::new();
    let outcome = store.invoke(&Request::Status { present: Vec::new() });
    assert_eq!(outcome.code, 1);
    assert_eq!(shown(&outcome.out), "");
    assert_eq!(shown(&outcome.err), "Nothing to check!\n");
}

#[test]
fn list_of_an_empty_list() {
    plain();
    let mut store = Store::new();
    let outcome = store.invoke(&Request::List);
    assert_eq!(outcome.code, 1);
    assert_eq!(shown(&outcome.out), "");
    assert_eq!(shown(&outcome.err), "");
    assert_eq!(store.list.as_deref(), Some(""));
}

#[test]
fn unmark_the_current_directory() {
    plain();
    let mut store = store_with("/a\n/b\n/c\n");
    let outcome = store.invoke(&Request::UnmarkHere { cwd: "/b".to_string() });
    assert_eq!(outcome.code, 0);
    assert_eq!(store.list.as_deref(), Some("/a\n/c\n"));
}

#[test]
fn unmark_a_directory_that_is_not_marked() {
    plain();
    let mut store = store_with("/a\n/b\n");
    let outcome = store.invoke(&Request::UnmarkHere { cwd: "/z".to_string() });
    assert_eq!(outcome.code, 1);
    assert_eq!(shown(&outcome.err), "");
    assert_eq!(shown(&outcome.out), "");
    assert_eq!(store.list.as_deref(), Some("/a\n/b\n"));
}

#[test]
fn clip_hands_over_the_entry() {
    plain();
    let mut store = store_with("/a\n/b b\n");
    let outcome = store.invoke(&Request::Clip { index: 2 });
    assert_eq!(outcome.code, 0);
    assert_eq!(shown(&outcome.out), "");
    match outcome.effect {
        Effect::Clip(text) => assert_eq!(text, "/b b"),
        _ => panic!("nothing for the clipboard"),
    }
    assert_eq!(store.list.as_deref(), Some("/a\n/b b\n"));
}

#[test]
fn clip_hands_over_the_entry_without_white_space_around_it() {
    plain();
    let mut store = store_with("/a \n");
    let outcome = store.invoke(&Request::Clip { index: 1 });
    assert_eq!(outcome.code, 0);
    match outcome.effect {
        Effect::Clip(text) => assert_eq!(text, "/a"),
        _ => panic!("nothing for the clipboard"),
    }
    assert_eq!(store.list.as_deref(), Some("/a \n"));
}

#[test]
fn marks_keep_their_order() {
    plain();
    let mut store = Store::new();
    for dir in ["/c", "/a", "/b", "/a", "/c", "/d"] {
        store.invoke(&mark(dir));
    }
    assert_eq!(store.list.as_deref(), Some("/c\n/a\n/b\n/d\n"));
}

#[test]
fn list_numbers_past_nine() {
    plain();
    let mut store = Store::new();
    for n in 0..11 {
        store.invoke(&mark(&format!("/d{}", n)));
    }
    let listed = store.invoke(&Request::List);
    assert!(shown(&listed.out).starts_with("[1] /d0\n[2] /d1\n"));
    assert!(shown(&listed.out).ends_with("[9] /d8\n[10] /d9\n[11] /d10\n"));
}

#[test]
fn every_line_stays_closed_and_none_is_empty() {
    plain();
    let mut store = Store::new();
    let requests = vec![
        mark("/a"),
        mark("/b"),
        mark("/a"),
        unmark(1),
        unmark(7),
        Request::List,
        Request::Clear,
        Request::Restore,
        mark("/c"),
        Request::UnmarkHere { cwd: "/b".to_string() },
    ];
    for request in requests.iter() {
        store.invoke(request);
        if let Some(text) = &store.list {
            assert!(text.is_empty() || text.ends_with('\n'));
            assert!(!text.starts_with('\n'));
            assert!(!text.contains("\n\n"));
        }
    }
    assert_eq!(store.list.as_deref(), Some("/c\n"));
}

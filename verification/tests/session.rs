// One session: the model and what each command makes of it.

use hitlist::app::App;
use hitlist::command::{Effect, Request, ERROR_LABEL, NOTHING_TO_CHECK};
use hitlist::error::HitError;
use hitlist::paths::{resolve, temp_dir_key, Locations, BACKUP_FILE_NAME, LIST_FILE_NAME};
use hitlist::show::{plain, styled, Look, Piece};

fn piece(text: &str, look: Look) -> Piece {
    Piece { text: text.to_string(), look }
}

fn session(contents: &str, backed_up: bool) -> App {
    let locations = Locations {
        list: "/tmp/.hitlist".to_string(),
        backup: "/tmp/.hitlist.bak".to_string(),
    };
    App::new(locations, backed_up, contents)
}

#[test]
fn a_new_session_holds_what_it_was_given() {
    let app = session("/a\n/b\n", true);
    assert_eq!(app.len(), 2);
    assert_eq!(app.entries(), &vec!["/a".to_string(), "/b".to_string()]);
    assert_eq!(app.path(), "/tmp/.hitlist");
    assert_eq!(app.backup_path(), "/tmp/.hitlist.bak");
    assert!(app.backed_up());
    assert!(!session("", false).backed_up());
    assert_eq!(session("", false).len(), 0);
}

#[test]
fn get_counts_from_one() {
    let app = session("/a\n/b\n", false);
    assert_eq!(app.get(0), None);
    assert_eq!(app.get(1), Some(&"/a".to_string()));
    assert_eq!(app.get(2), Some(&"/b".to_string()));
    assert_eq!(app.get(3), None);
    assert_eq!(app.get(usize::MAX), None);
}

#[test]
fn contains_is_an_exact_match() {
    let app = session("/a\n/b c\n", false);
    assert!(app.contains("/a"));
    assert!(app.contains("/b c"));
    assert!(!app.contains("/b"));
    assert!(!app.contains("/a/"));
    assert!(!app.contains("/A"));
    assert!(!app.contains(""));
    assert!(!app.contains("/a\n"));
}

#[test]
fn index_of_finds_the_first_place() {
    let app = session("/a\n/b\n/a\n", false);
    assert_eq!(app.index_of("/a"), Some(1));
    assert_eq!(app.index_of("/b"), Some(2));
    assert_eq!(app.index_of("/c"), None);
}

#[test]
fn mark_hands_back_the_line_to_add() {
    let app = session("/a\n", false);
    assert_eq!(app.mark("/b"), Ok("/b".to_string()));
    assert_eq!(app.mark("/a"), Err(HitError::Duplicate));
    assert_eq!(session("", false).mark("/a"), Ok("/a".to_string()));
}

#[test]
fn unmark_hands_back_what_stays() {
    let app = session("/a\n/b\n/c\n", false);
    assert_eq!(app.unmark(&Some(1), "/x"), Ok(vec!["/b".to_string(), "/c".to_string()]));
    assert_eq!(app.unmark(&Some(2), "/x"), Ok(vec!["/a".to_string(), "/c".to_string()]));
    assert_eq!(app.unmark(&Some(3), "/x"), Ok(vec!["/a".to_string(), "/b".to_string()]));
    assert_eq!(app.unmark(&None, "/c"), Ok(vec!["/a".to_string(), "/b".to_string()]));
    assert_eq!(app.unmark(&Some(0), "/a"), Err(HitError::InvalidIndex));
    assert_eq!(app.unmark(&Some(4), "/a"), Err(HitError::InvalidIndex));
    assert_eq!(app.unmark(&None, "/x"), Err(HitError::NotMarked));
    assert_eq!(session("", false).unmark(&None, "/x"), Err(HitError::NotMarked));
    assert_eq!(session("", false).unmark(&Some(1), "/x"), Err(HitError::InvalidIndex));
}

#[test]
fn unmark_takes_only_the_first_of_two() {
    let app = session("/a\n/b\n/a\n", false);
    assert_eq!(app.unmark(&None, "/a"), Ok(vec!["/b".to_string(), "/a".to_string()]));
}

#[test]
fn clip_hands_back_the_entry() {
    let app = session("/a\n/b\n", false);
    assert_eq!(app.clip(1), Ok("/a".to_string()));
    assert_eq!(app.clip(2), Ok("/b".to_string()));
    assert_eq!(app.clip(0), Err(HitError::InvalidIndex));
    assert_eq!(app.clip(3), Err(HitError::InvalidIndex));
}

#[test]
fn clip_takes_the_white_space_off_the_ends() {
    let app = session("/a \n  /b c\t\n \n/d\r", false);
    assert_eq!(app.clip(1), Ok("/a".to_string()));
    assert_eq!(app.clip(2), Ok("/b c".to_string()));
    assert_eq!(app.clip(3), Ok(String::new()));
    assert_eq!(app.clip(4), Ok("/d".to_string()));
    assert_eq!(app.get(1), Some(&"/a ".to_string()));
    assert!(app.contains("/a "));
    assert!(!app.contains("/a"));
}

#[test]
fn clear_only_where_there_is_a_mark() {
    assert!(session("/a\n", false).clear());
    assert!(!session("", false).clear());
    assert!(!session("", true).clear());
}

#[test]
fn restore_only_where_there_was_a_backup() {
    assert_eq!(session("", true).restore(), Ok(()));
    assert_eq!(session("/a\n", false).restore(), Err(HitError::NoBackup));
}

#[test]
fn empty_lists_are_not_shown() {
    let app = session("", false);
    assert_eq!(app.list(), Err(HitError::EmptyList));
    assert_eq!(app.status(&Vec::new()), Err(HitError::EmptyList));
    assert_eq!(app.status(&vec![true]), Err(HitError::EmptyList));
}

#[test]
fn listing_in_pieces() {
    let app = session("/a\n/b\n", false);
    assert_eq!(
        app.list(),
        Ok(vec![
            piece("[1] ", Look::Plain),
            piece("/a\n", Look::Underlined),
            piece("[2] ", Look::Plain),
            piece("/b\n", Look::Underlined),
        ])
    );
}

#[test]
fn status_in_pieces() {
    let app = session("/a\n/b\n", false);
    assert_eq!(
        app.status(&vec![false, true]),
        Ok(vec![
            piece("[", Look::Plain),
            piece("\u{2718}", Look::Red),
            piece("] ", Look::Plain),
            piece("/a", Look::DimmedStruck),
            piece("\n", Look::Plain),
            piece("[", Look::Plain),
            piece("\u{2713}", Look::Green),
            piece("] ", Look::Plain),
            piece("/b", Look::Underlined),
            piece("\n", Look::Plain),
        ])
    );
}

#[test]
fn plain_listing_and_status() {
    colored::control::set_override(false);
    let app = session("/a\n/b\n", false);
    let listing = app.list().unwrap();
    assert_eq!(plain(&listing), "[1] /a\n[2] /b\n");
    assert_eq!(styled(&listing), "[1] /a\n[2] /b\n");
    let report = app.status(&vec![false, true]).unwrap();
    assert_eq!(plain(&report), "[\u{2718}] /a\n[\u{2713}] /b\n");
    assert_eq!(styled(&report), "[\u{2718}] /a\n[\u{2713}] /b\n");
    let report = app.status(&vec![true, true, true]).unwrap();
    assert_eq!(plain(&report), "[\u{2713}] /a\n[\u{2713}] /b\n");
}

#[test]
fn run_leaves_the_effect_to_the_caller() {
    colored::control::set_override(false);
    let app = session("/a\n/b\n", true);
    match app.run(&Request::Mark { cwd: "/c".to_string() }).effect {
        Effect::Append(line) => assert_eq!(line, "/c"),
        _ => panic!("no line to add"),
    }
    match app.run(&Request::Unmark { index: 1 }).effect {
        Effect::Rewrite(lines) => assert_eq!(lines, vec!["/b".to_string()]),
        _ => panic!("no lines to write"),
    }
    match app.run(&Request::UnmarkHere { cwd: "/b".to_string() }).effect {
        Effect::Rewrite(lines) => assert_eq!(lines, vec!["/a".to_string()]),
        _ => panic!("no lines to write"),
    }
    assert!(matches!(app.run(&Request::Clear).effect, Effect::ClearWithBackup));
    assert!(matches!(app.run(&Request::Restore).effect, Effect::Restore));
    assert!(matches!(app.run(&Request::List).effect, Effect::Nothing));
    assert!(matches!(app.run(&Request::Status { present: vec![] }).effect, Effect::Nothing));
    let duplicate = app.run(&Request::Mark { cwd: "/a".to_string() });
    assert_eq!(duplicate.code, 1);
    assert!(matches!(duplicate.effect, Effect::Nothing));
}

#[test]
fn exit_codes() {
    assert_eq!(HitError::EnvMissing.exit_code(), 1);
    assert_eq!(HitError::InvalidIndex.exit_code(), 1);
    assert_eq!(HitError::Duplicate.exit_code(), 1);
    assert_eq!(HitError::NotMarked.exit_code(), 1);
    assert_eq!(HitError::EmptyList.exit_code(), 1);
    assert_eq!(HitError::NoBackup.exit_code(), 0);
    assert_eq!(HitError::IoError.exit_code(), 1);
    assert_eq!(HitError::ClipboardError.exit_code(), 1);
    assert!(HitError::NoBackup.is_recoverable());
    assert!(!HitError::IoError.is_recoverable());
    assert!(!HitError::ClipboardError.is_recoverable());
    assert!(!HitError::InvalidIndex.is_recoverable());
    assert!(!HitError::EnvMissing.is_recoverable());
}

#[test]
fn messages() {
    assert_eq!(HitError::EnvMissing.message(), Some("Failed to access the tempdir!"));
    assert_eq!(HitError::InvalidIndex.message(), Some("Not valid index!"));
    assert_eq!(HitError::NoBackup.message(), Some("No backup found!"));
    assert_eq!(HitError::Duplicate.message(), None);
    assert_eq!(HitError::NotMarked.message(), None);
    assert_eq!(HitError::EmptyList.message(), None);
    assert_eq!(HitError::IoError.message(), None);
    assert_eq!(HitError::ClipboardError.message(), None);
}

#[test]
fn reports_in_pieces() {
    assert_eq!(
        HitError::EnvMissing.report(),
        vec![
            piece("Error:", Look::BoldRed),
            piece(" Failed to access the tempdir!\n", Look::Plain),
        ]
    );
    assert_eq!(
        HitError::InvalidIndex.report(),
        vec![piece("Not valid index!", Look::Red), piece("\n", Look::Plain)]
    );
    assert_eq!(
        HitError::NoBackup.report(),
        vec![piece("No backup found!", Look::Red), piece("\n", Look::Plain)]
    );
    assert_eq!(HitError::Duplicate.report(), Vec::new());
    assert_eq!(HitError::NotMarked.report(), Vec::new());
    assert_eq!(HitError::EmptyList.report(), Vec::new());
}

#[test]
fn plain_reports() {
    colored::control::set_override(false);
    assert_eq!(styled(&HitError::EnvMissing.report()), "Error: Failed to access the tempdir!\n");
    assert_eq!(plain(&HitError::EnvMissing.report()), "Error: Failed to access the tempdir!\n");
    assert_eq!(styled(&HitError::InvalidIndex.report()), "Not valid index!\n");
    assert_eq!(styled(&HitError::NoBackup.report()), "No backup found!\n");
    assert_eq!(styled(&HitError::Duplicate.report()), "");
}

#[test]
fn fixed_words() {
    assert_eq!(NOTHING_TO_CHECK, "Nothing to check!");
    assert_eq!(ERROR_LABEL, "Error:");
}

#[test]
fn the_variable_of_the_temp_directory() {
    assert_eq!(temp_dir_key(true), "TEMP");
    assert_eq!(temp_dir_key(false), "TMPDIR");
}

#[test]
fn no_temp_directory() {
    assert!(matches!(resolve(None), Err(HitError::EnvMissing)));
    assert!(matches!(resolve(Some(String::new())), Err(HitError::EnvMissing)));
}

#[test]
fn files_under_the_temp_directory() {
    assert_eq!(LIST_FILE_NAME, ".hitlist");
    assert_eq!(BACKUP_FILE_NAME, ".hitlist.bak");
    let found = resolve(Some("base".to_string()));
    let sep = std::path::MAIN_SEPARATOR;
    match found {
        Ok(locations) => {
            assert_eq!(locations.list, format!("base{}.hitlist", sep));
            assert_eq!(locations.backup, format!("base{}.hitlist.bak", sep));
        },
        Err(_) => panic!("a temp directory was given"),
    }
}

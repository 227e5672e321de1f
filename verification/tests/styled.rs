// What is printed where styling is switched on: the escape sequences come
// from the `colored` crate.

use hitlist::app::App;
use hitlist::command::Request;
use hitlist::error::HitError;
use hitlist::paths::Locations;
use hitlist::show::{plain, styled as render, styled_piece, Look, Piece};
use hitlist::store::Store;

fn styled() {
    colored::control::set_override(true);
}

fn session(contents: &str) -> App {
    let locations = Locations { list: ".hitlist".to_string(), backup: ".hitlist.bak".to_string() };
    App::new(locations, false, contents)
}

#[test]
fn styled_listing() {
    styled();
    let app = session("/a\n/b\n");
    let page = app.list().unwrap();
    assert_eq!(render(&page), "[1] \x1b[4m/a\n\x1b[0m[2] \x1b[4m/b\n\x1b[0m");
    assert_eq!(plain(&page), "[1] /a\n[2] /b\n");
}

#[test]
fn styled_status() {
    styled();
    let app = session("/tmp/real\n/tmp/missing\n");
    let page = app.status(&vec![true, false]).unwrap();
    assert_eq!(
        render(&page),
        "[\x1b[32m\u{2713}\x1b[0m] \x1b[4m/tmp/real\x1b[0m\n\
         [\x1b[31m\u{2718}\x1b[0m] \x1b[2;9m/tmp/missing\x1b[0m\n"
    );
    assert_eq!(plain(&page), "[\u{2713}] /tmp/real\n[\u{2718}] /tmp/missing\n");
}

#[test]
fn styled_reports() {
    styled();
    assert_eq!(
        render(&HitError::EnvMissing.report()),
        "\x1b[1;31mError:\x1b[0m Failed to access the tempdir!\n"
    );
    assert_eq!(render(&HitError::InvalidIndex.report()), "\x1b[31mNot valid index!\x1b[0m\n");
    assert_eq!(render(&HitError::NoBackup.report()), "\x1b[31mNo backup found!\x1b[0m\n");
}

#[test]
fn styled_messages_of_commands() {
    styled();
    let mut store = Store::new();
    let outcome = store.invoke(&Request::Status { present: Vec::new() });
    assert_eq!(render(&outcome.err), "\x1b[31mNothing to check!\x1b[0m\n");
    assert_eq!(outcome.code, 1);
    let outcome = store.invoke(&Request::Restore);
    assert_eq!(render(&outcome.err), "\x1b[31mNo backup found!\x1b[0m\n");
    assert_eq!(outcome.code, 0);
    let outcome = store.invoke(&Request::Clip { index: 1 });
    assert_eq!(render(&outcome.err), "\x1b[31mNot valid index!\x1b[0m\n");
    assert_eq!(outcome.code, 1);
}

#[test]
fn every_look() {
    styled();
    let piece = |look: Look| Piece { text: "x".to_string(), look };
    assert_eq!(styled_piece(&piece(Look::Plain)), "x");
    assert_eq!(styled_piece(&piece(Look::Green)), "\x1b[32mx\x1b[0m");
    assert_eq!(styled_piece(&piece(Look::Red)), "\x1b[31mx\x1b[0m");
    assert_eq!(styled_piece(&piece(Look::Underlined)), "\x1b[4mx\x1b[0m");
    assert_eq!(styled_piece(&piece(Look::DimmedStruck)), "\x1b[2;9mx\x1b[0m");
    assert_eq!(styled_piece(&piece(Look::BoldRed)), "\x1b[1;31mx\x1b[0m");
}

#[test]
fn styling_goes_around_the_text() {
    styled();
    for look in [Look::Green, Look::Red, Look::Underlined, Look::DimmedStruck, Look::BoldRed] {
        let piece = Piece { text: "/some/where else".to_string(), look };
        let shown = styled_piece(&piece);
        assert!(shown.contains("/some/where else"));
        assert_ne!(shown, "/some/where else");
    }
    colored::control::set_override(false);
    for look in [Look::Green, Look::Red, Look::Underlined, Look::DimmedStruck, Look::BoldRed] {
        let piece = Piece { text: "/some/where else".to_string(), look };
        assert_eq!(styled_piece(&piece), "/some/where else");
    }
}

#[test]
fn a_text_with_an_escape_sequence_is_not_kept_in_one_piece() {
    styled();
    let piece = Piece { text: "a\x1b[0mb".to_string(), look: Look::Red };
    assert_eq!(styled_piece(&piece), "\x1b[31ma\x1b[0m\x1b[31mb\x1b[0m");
    let plain = Piece { text: "a\x1b[0mb".to_string(), look: Look::Plain };
    assert_eq!(styled_piece(&plain), "a\x1b[0mb");
}

#[test]
fn styled_text_holds_sign_and_path() {
    styled();
    let app = session("/tmp/real\n/tmp/missing\n");
    let shown = render(&app.status(&vec![true, false]).unwrap());
    for part in ["\u{2713}", "/tmp/real", "\u{2718}", "/tmp/missing"] {
        assert!(shown.contains(part));
    }
    let shown = render(&app.list().unwrap());
    for part in ["[1] ", "/tmp/real\n", "[2] ", "/tmp/missing\n"] {
        assert!(shown.contains(part));
    }
}

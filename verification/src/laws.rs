//! What holds of the list across invocations.

use crate::app::{all_entries, is_entry, is_mark_list, valid_index};
use crate::command::{printed, Call};
use crate::lines::{
    is_closed, is_line, join_lines, lemma_split_appended, lemma_split_join, split_lines,
};
use crate::store::{is_list_text, Disk};
use vstd::prelude::*;

verus! {

/// The files after each of `dirs` was marked in turn, one invocation each.
pub open spec fn marked_in_turn(disk: Disk, dirs: Seq<Seq<char>>) -> Disk
    decreases dirs.len(),
{
    if dirs.len() == 0 {
        disk
    } else {
        marked_in_turn(disk, dirs.drop_last()).step(Call::Mark { cwd: dirs.last() })
    }
}

/// The list after each of `dirs` was added in turn, unless it was there.
pub open spec fn with_marks(marks: Seq<Seq<char>>, dirs: Seq<Seq<char>>) -> Seq<Seq<char>>
    decreases dirs.len(),
{
    if dirs.len() == 0 {
        marks
    } else {
        let before = with_marks(marks, dirs.drop_last());
        if before.contains(dirs.last()) {
            before
        } else {
            before.push(dirs.last())
        }
    }
}

/// Whether every line of `text` ends in a line feed and none is empty: the
/// text ends where a line ends, and every line feed stands behind a
/// character that is none.
pub open spec fn lines_closed_none_empty(text: Seq<char>) -> bool {
    &&& is_closed(text)
    &&& forall|i: int|
        0 <= i < text.len() && #[trigger] text[i] == '\n' ==> i > 0 && text[i - 1] != '\n'
}

/// One mark, from a directory whose name can be an entry, into a list file
/// that ends where a line ends: the directory becomes the last entry,
/// unless it is marked already, and then nothing changes.
pub proof fn law_mark_adds_last(disk: Disk, cwd: Seq<char>)
    requires
        is_closed(disk.text()),
        is_line(cwd),
    ensures
        disk.marks().contains(cwd) ==> disk.step(Call::Mark { cwd }) == disk.opened(),
        !disk.marks().contains(cwd) ==> disk.step(Call::Mark { cwd }).marks()
            == disk.marks().push(cwd),
        disk.step(Call::Mark { cwd }).marks() == with_marks(disk.marks(), seq![cwd]),
        disk.step(Call::Mark { cwd }).marks().contains(cwd),
        is_closed(disk.step(Call::Mark { cwd }).text()),
{
    let marks = disk.marks();
    lemma_split_appended(disk.text(), cwd);
    assert(seq![cwd].drop_last() =~= Seq::<Seq<char>>::empty());
    assert(with_marks(marks, seq![cwd].drop_last()) == marks);
    if !marks.contains(cwd) {
        assert(marks.push(cwd)[marks.len() as int] == cwd);
    }
}

/// Marks made one after the other, each from a directory whose name can be
/// an entry, into a list file that ends where a line ends: the list is then
/// the old list followed by the new directories in the order in which each
/// was first marked. Where the directories differ from each other and from
/// what was marked before, that is the old list followed by all of them.
pub proof fn law_marks_accumulate(disk: Disk, dirs: Seq<Seq<char>>)
    requires
        is_closed(disk.text()),
        forall|i: int| 0 <= i < dirs.len() ==> is_line(#[trigger] dirs[i]),
    ensures
        marked_in_turn(disk, dirs).marks() == with_marks(disk.marks(), dirs),
        is_closed(marked_in_turn(disk, dirs).text()),
        dirs.no_duplicates() && (forall|i: int|
            0 <= i < dirs.len() ==> !disk.marks().contains(#[trigger] dirs[i]))
            ==> marked_in_turn(disk, dirs).marks() == disk.marks() + dirs,
    decreases dirs.len(),
{
    if dirs.len() == 0 {
        assert(disk.marks() + dirs =~= disk.marks());
    } else {
        let earlier = dirs.drop_last();
        let dir = dirs.last();
        let before = marked_in_turn(disk, earlier);
        assert forall|i: int| 0 <= i < earlier.len() implies is_line(#[trigger] earlier[i]) by {
            assert(earlier[i] == dirs[i]);
        }
        law_marks_accumulate(disk, earlier);
        law_mark_adds_last(before, dir);
        if dirs.no_duplicates() && (forall|i: int|
            0 <= i < dirs.len() ==> !disk.marks().contains(#[trigger] dirs[i])) {
            assert(earlier.no_duplicates());
            assert forall|i: int| 0 <= i < earlier.len() implies !disk.marks().contains(
                #[trigger] earlier[i],
            ) by {
                assert(earlier[i] == dirs[i]);
            }
            assert(before.marks() == disk.marks() + earlier);
            assert(!before.marks().contains(dir)) by {
                assert(!disk.marks().contains(dirs[dirs.len() - 1]));
                assert forall|k: int| 0 <= k < before.marks().len() implies before.marks()[k]
                    != dir by {
                    if k < disk.marks().len() {
                        assert(before.marks()[k] == disk.marks()[k]);
                    } else {
                        assert(before.marks()[k] == dirs[k - disk.marks().len()]);
                    }
                }
            }
            assert((disk.marks() + earlier).push(dir) =~= disk.marks() + dirs);
        }
    }
}

/// Unmarking by a valid index, in a list whose entries come back as they
/// are when written and read again: the next session finds the list without
/// the entry at that index and with all others in their order, which is
/// what it then lists, and the command succeeds.
pub proof fn law_unmark_removes_one(disk: Disk, index: usize)
    requires
        forall|i: int| 0 <= i < disk.marks().len() ==> is_line(#[trigger] disk.marks()[i]),
        valid_index(disk.marks(), index as int),
    ensures
        disk.step(Call::Unmark { index }).marks() == disk.marks().remove(index - 1),
        printed(disk.step(Call::Unmark { index }).marks(), Call::List) == printed(
            disk.marks().remove(index - 1),
            Call::List,
        ),
        disk.status(Call::Unmark { index }) == 0,
{
    let rest = disk.marks().remove(index - 1);
    assert forall|i: int| 0 <= i < rest.len() implies is_line(#[trigger] rest[i]) by {
        if i < index - 1 {
            assert(rest[i] == disk.marks()[i]);
        } else {
            assert(rest[i] == disk.marks()[i + 1]);
        }
    }
    lemma_split_join(rest);
}

/// Unmarking the directory the command was run in, in a list whose entries
/// come back as they are when written and read again: where the directory
/// is marked, the next session finds the list without the first entry that
/// equals it and with all others in their order, and the command succeeds;
/// where it is not marked, both files keep their text and the command
/// fails.
pub proof fn law_unmark_here(disk: Disk, cwd: Seq<char>)
    requires
        forall|i: int| 0 <= i < disk.marks().len() ==> is_line(#[trigger] disk.marks()[i]),
    ensures
        !disk.marks().contains(cwd) ==> disk.step(Call::UnmarkHere { cwd }) == disk.opened()
            && disk.status(Call::UnmarkHere { cwd }) == 1,
        disk.marks().contains(cwd) ==> disk.status(Call::UnmarkHere { cwd }) == 0,
        disk.marks().contains(cwd) ==> exists|place: int|
            {
                &&& 0 <= place < disk.marks().len()
                &&& disk.marks()[place] == cwd
                &&& !disk.marks().take(place).contains(cwd)
                &&& disk.step(Call::UnmarkHere { cwd }).marks() == disk.marks().remove(place)
            },
{
    let marks = disk.marks();
    marks.index_of_first_ensures(cwd);
    if let Some(place) = marks.index_of_first(cwd) {
        let rest = marks.remove(place);
        assert forall|i: int| 0 <= i < rest.len() implies is_line(#[trigger] rest[i]) by {
            if i < place {
                assert(rest[i] == marks[i]);
            } else {
                assert(rest[i] == marks[i + 1]);
            }
        }
        lemma_split_join(rest);
        assert(!marks.take(place).contains(cwd)) by {
            assert forall|j: int| 0 <= j < marks.take(place).len() implies marks.take(place)[j]
                != cwd by {
                assert(marks.take(place)[j] == marks[j]);
            }
        }
    }
}

/// Unmarking by an index that names no entry: both files keep their text,
/// and the command fails.
pub proof fn law_bad_index_changes_nothing(disk: Disk, index: usize)
    requires
        !valid_index(disk.marks(), index as int),
    ensures
        disk.step(Call::Unmark { index }) == disk.opened(),
        disk.step(Call::Unmark { index }).text() == disk.text(),
        disk.step(Call::Unmark { index }).backup == disk.backup,
        disk.status(Call::Unmark { index }) == 1,
{
}

/// Clearing a list that holds a mark, then restoring: the list file has the
/// very text that it had before, and both commands succeed.
pub proof fn law_clear_then_restore(disk: Disk)
    requires
        disk.marks().len() > 0,
    ensures
        disk.step(Call::Clear).list is None,
        disk.step(Call::Clear).backup == Some(disk.text()),
        disk.step(Call::Clear).step(Call::Restore).list == Some(disk.text()),
        disk.step(Call::Clear).step(Call::Restore).marks() == disk.marks(),
        disk.status(Call::Clear) == 0,
        disk.step(Call::Clear).status(Call::Restore) == 0,
{
    assert(disk.text().len() > 0) by {
        if disk.text().len() == 0 {
            assert(split_lines(disk.text()).len() == 0);
        }
    }
}

/// Marking twice from one directory whose name can be an entry, into a list
/// file that ends where a line ends: the second mark changes neither file
/// and fails.
pub proof fn law_mark_idempotent(disk: Disk, cwd: Seq<char>)
    requires
        is_closed(disk.text()),
        is_line(cwd),
    ensures
        disk.step(Call::Mark { cwd }).step(Call::Mark { cwd }) == disk.step(Call::Mark { cwd }),
        disk.step(Call::Mark { cwd }).status(Call::Mark { cwd }) == 1,
{
    law_mark_adds_last(disk, cwd);
    let once = disk.step(Call::Mark { cwd });
    assert(once.opened() == once);
}

/// A list written out has every line closed and none empty.
pub proof fn lemma_written_list(marks: Seq<Seq<char>>)
    requires
        all_entries(marks),
    ensures
        lines_closed_none_empty(join_lines(marks)),
    decreases marks.len(),
{
    if marks.len() > 0 {
        let before = marks.drop_last();
        let line = marks.last();
        assert forall|i: int| 0 <= i < before.len() implies is_entry(#[trigger] before[i]) by {
            assert(before[i] == marks[i]);
        }
        lemma_written_list(before);
        let head = join_lines(before);
        let text = join_lines(marks);
        assert(text =~= head + line + seq!['\n']);
        assert forall|i: int| 0 <= i < text.len() && #[trigger] text[i] == '\n' implies i > 0
            && text[i - 1] != '\n' by {
            if i < head.len() {
                assert(text[i] == head[i]);
                assert(text[i - 1] == head[i - 1]);
            } else if i < head.len() + line.len() {
                assert(text[i] == line[i - head.len()]);
            } else {
                assert(text[i - 1] == line[line.len() - 1]);
            }
        }
    }
}

/// Whether a call keeps to what a list can hold: a mark comes from a
/// directory whose name can be an entry.
pub open spec fn is_fair(call: Call) -> bool {
    call matches Call::Mark { cwd } ==> is_entry(cwd)
}

/// Whatever the command, where both files are list files as the commands
/// write them (and, for a mark, the directory's name can be an entry), they
/// are so after the invocation too: the list file, if it is there, holds
/// zero or more lines, each closed by a line feed and none empty. If
/// neither file held an entry twice, neither does afterwards.
pub proof fn law_list_file_stays_well_formed(disk: Disk, call: Call)
    requires
        disk.valid(),
        is_fair(call),
    ensures
        disk.step(call).valid(),
        lines_closed_none_empty(disk.step(call).text()),
        disk.unique() ==> disk.step(call).unique() && is_mark_list(disk.step(call).marks()),
{
    let text = disk.text();
    let marks = disk.marks();
    assert(split_lines(Seq::<char>::empty()) =~= Seq::<Seq<char>>::empty());
    assert(is_list_text(text));
    lemma_split_join(marks);
    match call {
        Call::Mark { cwd } => {
            if !marks.contains(cwd) {
                lemma_split_appended(text, cwd);
                let longer = marks.push(cwd);
                assert(longer.drop_last() =~= marks);
                assert(join_lines(longer) =~= text + cwd.push('\n'));
                assert forall|i: int, j: int|
                    marks.no_duplicates() && 0 <= i < longer.len() && 0 <= j < longer.len() && i
                        != j implies longer[i] != longer[j] by {
                    if i < marks.len() {
                        assert(marks[i] != cwd);
                    }
                    if j < marks.len() {
                        assert(marks[j] != cwd);
                    }
                }
            }
        },
        Call::Unmark { index } => {
            if valid_index(marks, index as int) {
                lemma_rest_of_list(marks, index - 1);
            }
        },
        Call::UnmarkHere { cwd } => {
            marks.index_of_first_ensures(cwd);
            if let Some(place) = marks.index_of_first(cwd) {
                lemma_rest_of_list(marks, place);
            }
        },
        _ => {},
    }
    lemma_written_list(disk.step(call).marks());
}

/// A list without one of its entries: the others can still be entries, come
/// back as they are when written and read again, and none is there twice
/// that was not there twice before.
proof fn lemma_rest_of_list(marks: Seq<Seq<char>>, gone: int)
    requires
        all_entries(marks),
        0 <= gone < marks.len(),
    ensures
        all_entries(marks.remove(gone)),
        split_lines(join_lines(marks.remove(gone))) == marks.remove(gone),
        marks.no_duplicates() ==> marks.remove(gone).no_duplicates(),
{
    let rest = marks.remove(gone);
    assert forall|i: int| 0 <= i < rest.len() implies is_entry(#[trigger] rest[i]) by {
        if i < gone {
            assert(rest[i] == marks[i]);
        } else {
            assert(rest[i] == marks[i + 1]);
        }
    }
    assert forall|i: int, j: int|
        marks.no_duplicates() && 0 <= i < rest.len() && 0 <= j < rest.len() && i
            != j implies rest[i] != rest[j] by {
        let from_i = if i < gone {
            i
        } else {
            i + 1
        };
        let from_j = if j < gone {
            j
        } else {
            j + 1
        };
        assert(rest[i] == marks[from_i]);
        assert(rest[j] == marks[from_j]);
    }
    lemma_split_join(rest);
}

/// The files after each of `calls` was made in turn, one invocation each.
pub open spec fn run_in_turn(disk: Disk, calls: Seq<Call>) -> Disk
    decreases calls.len(),
{
    if calls.len() == 0 {
        disk
    } else {
        run_in_turn(disk, calls.drop_last()).step(calls.last())
    }
}

/// Whatever commands are run one after the other, marks coming from
/// directories whose names can be entries: files that were list files as
/// the commands write them, or not there at all, are so at the end, and
/// every line of the list file is closed by a line feed and none is empty.
/// If neither file held an entry twice, neither does at the end.
pub proof fn law_list_file_always_well_formed(disk: Disk, calls: Seq<Call>)
    requires
        disk.valid(),
        forall|i: int| 0 <= i < calls.len() ==> is_fair(#[trigger] calls[i]),
    ensures
        run_in_turn(disk, calls).valid(),
        lines_closed_none_empty(run_in_turn(disk, calls).text()),
        disk.unique() ==> run_in_turn(disk, calls).unique() && is_mark_list(
            run_in_turn(disk, calls).marks(),
        ),
        (Disk { list: None, backup: None }).valid(),
        (Disk { list: None, backup: None }).unique(),
    decreases calls.len(),
{
    if calls.len() == 0 {
        assert(is_list_text(Seq::<char>::empty())) by {
            assert(split_lines(Seq::<char>::empty()) =~= Seq::<Seq<char>>::empty());
        }
        lemma_written_list(disk.marks());
    } else {
        let earlier = calls.drop_last();
        assert forall|i: int| 0 <= i < earlier.len() implies is_fair(#[trigger] earlier[i]) by {
            assert(earlier[i] == calls[i]);
        }
        law_list_file_always_well_formed(disk, earlier);
        assert(is_fair(calls[calls.len() - 1]));
        law_list_file_stays_well_formed(run_in_turn(disk, earlier), calls.last());
    }
}

/// What each command can change. Listing, checking and copying to the
/// clipboard change no file. Only clearing changes the backup: it leaves no
/// mark in the list, and moves a list that held a mark to the backup, over
/// whatever was there. Restoring puts the text of the backup in the list
/// file and keeps the backup; without a backup it changes nothing. No
/// command that fails changes anything.
pub proof fn law_what_commands_change(disk: Disk, call: Call)
    ensures
        call is List || call is Status || call is Clip ==> disk.step(call) == disk.opened(),
        !(call is Clear) ==> disk.step(call).backup == disk.backup,
        call is Clear ==> disk.step(call).marks().len() == 0,
        call is Clear && disk.marks().len() > 0 ==> disk.step(call) == (Disk {
            list: None,
            backup: Some(disk.text()),
        }),
        call is Clear && disk.marks().len() == 0 ==> disk.step(call) == disk.opened(),
        call is Restore && disk.backup is Some ==> disk.step(call) == (Disk {
            list: disk.backup,
            backup: disk.backup,
        }),
        call is Restore && disk.backup is None ==> disk.step(call) == disk.opened(),
        disk.status(call) == 0 || disk.step(call) == disk.opened(),
{
    assert(split_lines(Seq::<char>::empty()) =~= Seq::<Seq<char>>::empty());
    if disk.text().len() == 0 {
        assert(disk.marks().len() == 0);
    }
}

} // verus!

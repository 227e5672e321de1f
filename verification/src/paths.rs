//! Where the list file and its backup live.

use crate::error::HitError;
use std::path::Path;
use vstd::prelude::*;

verus! {

/// The file that holds the list, by name.
pub const LIST_FILE_NAME: &'static str = ".hitlist";

/// The file that holds the list as it was before it was last cleared, by
/// name.
pub const BACKUP_FILE_NAME: &'static str = ".hitlist.bak";

/// The two files of a list.
#[derive(Debug, PartialEq, Eq)]
pub struct Locations {
    /// The list file.
    pub list: String,
    /// The backup beside it.
    pub backup: String,
}

/// The name of the variable that holds the temp directory.
pub open spec fn temp_dir_key_text(windows: bool) -> Seq<char> {
    if windows {
        "TEMP"@
    } else {
        "TMPDIR"@
    }
}

/// The name of the environment variable that holds the temp directory, on
/// a Windows-family platform and elsewhere.
pub fn temp_dir_key(windows: bool) -> (key: &'static str)
    ensures
        key@ == temp_dir_key_text(windows),
{
    if windows {
        "TEMP"
    } else {
        "TMPDIR"
    }
}

/// Whether `name` is the plain name of a file: not empty, without a
/// separator or a colon, and neither of the two names that stand for a
/// directory itself and for the one above it.
pub open spec fn is_file_name(name: Seq<char>) -> bool {
    &&& name.len() > 0
    &&& forall|i: int|
        0 <= i < name.len() ==> #[trigger] name[i] != '/' && name[i] != '\\' && name[i] != ':'
    &&& name != seq!['.']
    &&& name != seq!['.', '.']
}

/// Whether `root` is a path in the verbatim form of the Windows family,
/// which begins with two backslashes, a question mark and a backslash. Such
/// a path is rebuilt when it is extended; any other is left as it stands.
pub open spec fn is_verbatim(root: Seq<char>) -> bool {
    root.len() >= 4 && root[0] == '\\' && root[1] == '\\' && root[2] == '?' && root[3] == '\\'
}

/// Whether `path` is `root` extended by `name`: `root` as it stands, then
/// one separator of either kind or none, then `name`.
pub open spec fn is_joined(root: Seq<char>, name: Seq<char>, path: Seq<char>) -> bool {
    ||| path == root + name
    ||| path == root.push('/') + name
    ||| path == root.push('\\') + name
}

/// `Path::join` from std, on paths given and returned as text: `root`
/// extended by `name` as the platform writes paths. Claimed for the plain
/// name of a file: the path ends in that name, and unless `root` is in the
/// verbatim form, the path is `root` as it stands, a separator where the
/// platform puts one, and the name. Which separator, and whether there is
/// one, is for the platform to say.
#[verifier::external_body]
fn join_path(root: &str, name: &str) -> (path: String)
    requires
        is_file_name(name@),
    ensures
        name@.is_suffix_of(path@),
        !is_verbatim(root@) ==> is_joined(root@, name@, path@),
{
    Path::new(root).join(name).display().to_string()
}

/// Whether a value of the temp directory variable can be used.
pub open spec fn usable_root(root: Option<String>) -> bool {
    root matches Some(dir) && dir@.len() > 0
}

/// The two files under the temp directory `root`, the value of the variable
/// named by [`temp_dir_key`]: the directory extended by the name of the
/// list file, and by that of the backup. An unset or empty variable is an
/// error.
pub fn resolve(root: Option<String>) -> (found: Result<Locations, HitError>)
    ensures
        found is Ok <==> usable_root(root),
        found is Err ==> found == Err::<Locations, HitError>(HitError::EnvMissing),
        found is Ok ==> LIST_FILE_NAME@.is_suffix_of(found->Ok_0.list@),
        found is Ok ==> BACKUP_FILE_NAME@.is_suffix_of(found->Ok_0.backup@),
        found is Ok && !is_verbatim(root->0@) ==> is_joined(
            root->0@,
            LIST_FILE_NAME@,
            found->Ok_0.list@,
        ) && is_joined(root->0@, BACKUP_FILE_NAME@, found->Ok_0.backup@),
{
    proof {
        lemma_file_names();
    }
    match root {
        None => Err(HitError::EnvMissing),
        Some(dir) => {
            if dir.as_str().is_empty() {
                Err(HitError::EnvMissing)
            } else {
                let list = join_path(dir.as_str(), LIST_FILE_NAME);
                let backup = join_path(dir.as_str(), BACKUP_FILE_NAME);
                Ok(Locations { list, backup })
            }
        },
    }
}

/// The names of the two files are plain names of files.
proof fn lemma_file_names()
    ensures
        is_file_name(LIST_FILE_NAME@),
        is_file_name(BACKUP_FILE_NAME@),
{
    reveal_strlit(".hitlist");
    reveal_strlit(".hitlist.bak");
    let list = LIST_FILE_NAME@;
    let backup = BACKUP_FILE_NAME@;
    assert(list.len() == 8 && backup.len() == 12);
    assert forall|i: int| 0 <= i < list.len() implies #[trigger] list[i] != '/' && list[i] != '\\'
        && list[i] != ':' by {
        assert(i == 0 || i == 1 || i == 2 || i == 3 || i == 4 || i == 5 || i == 6 || i == 7);
    }
    assert forall|i: int| 0 <= i < backup.len() implies #[trigger] backup[i] != '/' && backup[i]
        != '\\' && backup[i] != ':' by {
        assert(i == 0 || i == 1 || i == 2 || i == 3 || i == 4 || i == 5 || i == 6 || i == 7 || i
            == 8 || i == 9 || i == 10 || i == 11);
    }
}

} // verus!

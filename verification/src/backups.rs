//! Removing the `Steam_backup*` folders that a Steam reset leaves behind.
use vstd::prelude::*;

use crate::scripts::{lines_text, ScriptResult, ScriptResultView};
use crate::text::{join, join_strings, owned, push_str, starts_with, str_starts_with, strs};

verus! {

/// Whether a folder in `~/.local/share` is a Steam backup (its name begins with
/// `Steam_backup`).
pub fn is_steam_backup(name: &str) -> (b: bool)
    ensures
        b == starts_with(name@, "Steam_backup"@),
{
    str_starts_with(name, "Steam_backup")
}

/// The message for a backup folder that could not be deleted.
pub fn backup_error(name: &str, err: &str) -> (r: String)
    ensures
        r@ == "Failed to delete "@ + name@ + ": "@ + err@,
{
    let mut r = owned("Failed to delete ");
    push_str(&mut r, name);
    push_str(&mut r, ": ");
    push_str(&mut r, err);
    r
}

/// The message when `~/.local/share` cannot be listed.
pub fn read_dir_error(err: &str) -> (r: String)
    ensures
        r@ == "Could not read directory: "@ + err@,
{
    let mut r = owned("Could not read directory: ");
    push_str(&mut r, err);
    r
}

/// The report after deleting backup folders: the deleted ones listed on stdout,
/// the failures on stderr, exit code 1 when something failed, and a note when
/// there was nothing to delete.
pub open spec fn backup_report_spec(deleted: Seq<Seq<char>>, errors: Seq<Seq<char>>) -> ScriptResultView {
    if deleted.len() == 0 && errors.len() == 0 {
        ScriptResultView { code: 0, stdout: "No backup folders found.\n"@, stderr: seq![] }
    } else {
        ScriptResultView {
            code: if errors.len() == 0 {
                0
            } else {
                1
            },
            stdout: if deleted.len() == 0 {
                seq![]
            } else {
                "Deleted:\n"@ + join(deleted.map_values(|d: Seq<char>| "  - "@ + d), "\n"@)
                    + "\n"@
            },
            stderr: if errors.len() == 0 {
                seq![]
            } else {
                join(errors, "\n"@) + "\n"@
            },
        }
    }
}

/// The report after deleting the folders `deleted` and failing with `errors`.
pub fn backup_report(deleted: &Vec<String>, errors: &Vec<String>) -> (r: ScriptResult)
    ensures
        r@ == backup_report_spec(strs(deleted@), strs(errors@)),
{
    if deleted.len() == 0 && errors.len() == 0 {
        return ScriptResult {
            code: 0,
            stdout: owned("No backup folders found.\n"),
            stderr: String::new(),
        };
    }
    let stdout = if deleted.len() == 0 {
        String::new()
    } else {
        let mut items: Vec<String> = Vec::new();
        let mut i: usize = 0;
        while i < deleted.len()
            invariant
                i <= deleted@.len(),
                items@.len() == i,
                forall|k: int| 0 <= k < i ==> #[trigger] items@[k]@ == "  - "@ + deleted@[k]@,
            decreases deleted@.len() - i,
        {
            let mut item = owned("  - ");
            push_str(&mut item, deleted[i].as_str());
            items.push(item);
            i = i + 1;
        }
        assert(strs(items@) =~= strs(deleted@).map_values(|d: Seq<char>| "  - "@ + d));
        let mut out = owned("Deleted:\n");
        let listed = join_strings(&items, "\n");
        push_str(&mut out, listed.as_str());
        push_str(&mut out, "\n");
        out
    };
    let stderr = if errors.len() == 0 {
        String::new()
    } else {
        let mut e = join_strings(errors, "\n");
        push_str(&mut e, "\n");
        e
    };
    ScriptResult {
        code: if errors.len() == 0 {
            0
        } else {
            1
        },
        stdout,
        stderr,
    }
}


/// Joining lines with line feeds and ending with one gives each line followed
/// by a line feed.
proof fn lemma_join_lines(ls: Seq<Seq<char>>)
    requires
        ls.len() > 0,
    ensures
        join(ls, "\n"@) + "\n"@ == lines_text(ls),
    decreases ls.len(),
{
    if ls.len() == 1 {
        assert(lines_text(ls.drop_last()) =~= Seq::<char>::empty());
        assert(join(ls, "\n"@) + "\n"@ =~= lines_text(ls));
    } else {
        lemma_join_lines(ls.drop_last());
        assert(join(ls, "\n"@) + "\n"@ =~= (join(ls.drop_last(), "\n"@) + "\n"@) + ls.last()
            + "\n"@);
    }
}

/// Whenever some folder was deleted, the report's output is `Deleted:` and then
/// a line `  - <name>` for every deleted folder, in order, whether or not other
/// deletions failed; the failures are the lines of the error output, and the
/// exit code is 1 exactly when something failed. With nothing deleted and
/// nothing failed, the output says that no backup folder was found.
pub proof fn law_backup_report_lists_deleted(deleted: Seq<Seq<char>>, errors: Seq<Seq<char>>)
    ensures
        deleted.len() > 0 ==> backup_report_spec(deleted, errors).stdout == "Deleted:\n"@
            + lines_text(deleted.map_values(|d: Seq<char>| "  - "@ + d)),
        deleted.len() == 0 && errors.len() > 0 ==> backup_report_spec(deleted, errors).stdout
            =~= Seq::<char>::empty(),
        errors.len() > 0 ==> backup_report_spec(deleted, errors).stderr == lines_text(errors),
        errors.len() == 0 ==> backup_report_spec(deleted, errors).stderr =~= Seq::<char>::empty(),
        backup_report_spec(deleted, errors).code == (if errors.len() == 0 {
            0i32
        } else {
            1i32
        }),
        deleted.len() == 0 && errors.len() == 0 ==> backup_report_spec(deleted, errors).stdout
            == "No backup folders found.\n"@,
{
    let items = deleted.map_values(|d: Seq<char>| "  - "@ + d);
    if deleted.len() > 0 {
        lemma_join_lines(items);
        assert(backup_report_spec(deleted, errors).stdout =~= "Deleted:\n"@ + (join(items, "\n"@)
            + "\n"@));
    }
    if errors.len() > 0 {
        lemma_join_lines(errors);
    }
}

} // verus!

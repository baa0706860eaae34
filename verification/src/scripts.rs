//! Running the bundled maintenance scripts: which script and arguments each
//! tool uses, the command lines (on the host, under sudo, or over SSH), the
//! cached sudo password, and the reports that the file tools produce.
use vstd::prelude::*;

use vstd::slice::slice_to_vec;
use vstd::utf8::encode_utf8;

use crate::paths::{join_path, path_join};
use crate::text::{
    chars_of, decimal, join, join_strings, owned, push_char, push_str, str_eq, strs, trim, trim_str,
    usize_to_decimal,
};

verus! {

/// What a script or a command printed and how it exited.
pub struct ScriptResult {
    pub code: i32,
    pub stdout: String,
    pub stderr: String,
}

/// The contents of a [`ScriptResult`].
pub struct ScriptResultView {
    pub code: i32,
    pub stdout: Seq<char>,
    pub stderr: Seq<char>,
}

impl View for ScriptResult {
    type V = ScriptResultView;

    open spec fn view(&self) -> ScriptResultView {
        ScriptResultView { code: self.code, stdout: self.stdout@, stderr: self.stderr@ }
    }
}

/// The result of a finished process: its exit code, or -1 when it was ended by
/// a signal, and its output.
pub fn script_result(code: Option<i32>, stdout: String, stderr: String) -> (r: ScriptResult)
    ensures
        r.code == (match code {
            Some(c) => c,
            None => -1i32,
        }),
        r.stdout@ == stdout@,
        r.stderr@ == stderr@,
{
    ScriptResult {
        code: match code {
            Some(c) => c,
            None => -1,
        },
        stdout,
        stderr,
    }
}

/// The command line that runs `program` on the host: inside the Flatpak
/// sandbox through `flatpak-spawn --host`, otherwise directly.
pub open spec fn host_command_spec(in_flatpak: bool, program: Seq<char>) -> Seq<Seq<char>> {
    if in_flatpak {
        seq!["flatpak-spawn"@, "--host"@, program]
    } else {
        seq![program]
    }
}

/// The command line that runs `program` on the host.
pub fn host_command(in_flatpak: bool, program: &str) -> (r: Vec<String>)
    ensures
        strs(r@) == host_command_spec(in_flatpak, program@),
{
    let mut r: Vec<String> = Vec::new();
    if in_flatpak {
        r.push(owned("flatpak-spawn"));
        r.push(owned("--host"));
    }
    r.push(owned(program));
    assert(strs(r@) =~= host_command_spec(in_flatpak, program@));
    r
}

/// Where the Flatpak build installs the scripts.
pub open spec fn flatpak_scripts_dir() -> Seq<char> {
    "/app/share/deck-toolbox/scripts"@
}

/// The directory of the bundled scripts: the Flatpak location when it exists,
/// otherwise `resources/scripts` under the application's resource directory
/// (paths as bytes, as the operating system gives them).
pub fn scripts_dir(flatpak_dir_exists: bool, resource_dir: &[u8]) -> (r: Vec<u8>)
    ensures
        r@ == (if flatpak_dir_exists {
            encode_utf8(flatpak_scripts_dir())
        } else {
            join_path(join_path(resource_dir@, encode_utf8("resources"@)), encode_utf8("scripts"@))
        }),
{
    if flatpak_dir_exists {
        slice_to_vec("/app/share/deck-toolbox/scripts".as_bytes())
    } else {
        let d = path_join(resource_dir, "resources");
        path_join(d.as_slice(), "scripts")
    }
}

/// The bash prelude used when a sudo password is known: it reads the password
/// from the first line of standard input, checks it once, and makes `sudo` in
/// the script feed it to `sudo -S` (dropping `-n`); the script gets no stdin.
pub open spec fn sudo_wrapper_spec() -> Seq<char> {
    "\nread -r DT_SUDO_PASS\nif ! printf '%s\\n' \"$DT_SUDO_PASS\" | command sudo -S -v 2>/dev/null; then\n    echo \"Sudo authentication failed - check the password set via Unlock\" >&2\n    exit 64\nfi\nsudo() {\n    local f=()\n    local a\n    for a in \"$@\"; do\n        [[ \"$a\" != \"-n\" ]] && f+=(\"$a\")\n    done\n    printf '%s\\n' \"$DT_SUDO_PASS\" | command sudo -S \"${f[@]}\"\n}\nexport -f sudo\nbash \"$1\" \"${@:2}\" </dev/null\n"@
}

/// The bash prelude of [`sudo_wrapper_spec`].
pub fn sudo_wrapper() -> (r: String)
    ensures
        r@ == sudo_wrapper_spec(),
{
    owned(
        "\nread -r DT_SUDO_PASS\nif ! printf '%s\\n' \"$DT_SUDO_PASS\" | command sudo -S -v 2>/dev/null; then\n    echo \"Sudo authentication failed - check the password set via Unlock\" >&2\n    exit 64\nfi\nsudo() {\n    local f=()\n    local a\n    for a in \"$@\"; do\n        [[ \"$a\" != \"-n\" ]] && f+=(\"$a\")\n    done\n    printf '%s\\n' \"$DT_SUDO_PASS\" | command sudo -S \"${f[@]}\"\n}\nexport -f sudo\nbash \"$1\" \"${@:2}\" </dev/null\n",
    )
}

/// The command line that runs a script on the host with bash: through the sudo
/// prelude (`bash -c <prelude> -- <script> <args>`) when a sudo password is
/// known, plainly (`bash <script> <args>`) otherwise.
pub open spec fn script_command_spec(
    in_flatpak: bool,
    script: Seq<char>,
    args: Seq<Seq<char>>,
    with_sudo: bool,
) -> Seq<Seq<char>> {
    host_command_spec(in_flatpak, "bash"@) + (if with_sudo {
        seq!["-c"@, sudo_wrapper_spec(), "--"@, script]
    } else {
        seq![script]
    }) + args
}

/// The command line that runs `script` with `args` on the host.
pub fn script_command(in_flatpak: bool, script: &str, args: &Vec<String>, with_sudo: bool) -> (r:
    Vec<String>)
    ensures
        strs(r@) == script_command_spec(in_flatpak, script@, strs(args@), with_sudo),
{
    let mut r = host_command(in_flatpak, "bash");
    let ghost head = strs(r@);
    if with_sudo {
        r.push(owned("-c"));
        r.push(sudo_wrapper());
        r.push(owned("--"));
    }
    r.push(owned(script));
    let ghost mid = r@;
    assert(strs(mid) =~= head + (if with_sudo {
        seq!["-c"@, sudo_wrapper_spec(), "--"@, script@]
    } else {
        seq![script@]
    }));
    let mut i: usize = 0;
    assert(strs(args@.take(0)) =~= Seq::<Seq<char>>::empty());
    while i < args.len()
        invariant
            i <= args@.len(),
            strs(r@) == strs(mid) + strs(args@.take(i as int)),
            strs(mid) == head + (if with_sudo {
                seq!["-c"@, sudo_wrapper_spec(), "--"@, script@]
            } else {
                seq![script@]
            }),
            head == host_command_spec(in_flatpak, "bash"@),
        decreases args@.len() - i,
    {
        let ghost before = r@;
        let a = owned(args[i].as_str());
        r.push(a);
        assert(strs(r@) =~= strs(before).push(args@[i as int]@));
        assert(strs(args@.take(i + 1)) =~= strs(args@.take(i as int)).push(args@[i as int]@));
        i = i + 1;
    }
    assert(strs(r@) =~= script_command_spec(in_flatpak, script@, strs(args@), with_sudo)) by {
        assert(args@.take(args@.len() as int) =~= args@);
    }
    r
}

/// A line of standard input holding `s` (what `writeln!` sends).
pub open spec fn stdin_line(s: Seq<char>) -> Seq<char> {
    s.push('\n')
}

/// `s` followed by a line feed.
pub fn line_of(s: &str) -> (r: String)
    ensures
        r@ == stdin_line(s@),
{
    let mut r = owned(s);
    push_char(&mut r, '\n');
    r
}

/// The command line that checks a sudo password (`sudo -S -v`), which reads the
/// password from standard input.
pub fn sudo_validate_command(in_flatpak: bool) -> (r: Vec<String>)
    ensures
        strs(r@) == host_command_spec(in_flatpak, "sudo"@) + seq!["-S"@, "-v"@],
{
    let mut r = host_command(in_flatpak, "sudo");
    let ghost head = strs(r@);
    r.push(owned("-S"));
    r.push(owned("-v"));
    assert(strs(r@) =~= head + seq!["-S"@, "-v"@]);
    r
}

/// The command line that tells whether sudo accepts an empty password (`sudo -S true`).
pub fn sudo_probe_command(in_flatpak: bool) -> (r: Vec<String>)
    ensures
        strs(r@) == host_command_spec(in_flatpak, "sudo"@) + seq!["-S"@, "true"@],
{
    let mut r = host_command(in_flatpak, "sudo");
    let ghost head = strs(r@);
    r.push(owned("-S"));
    r.push(owned("true"));
    assert(strs(r@) =~= head + seq!["-S"@, "true"@]);
    r
}

/// Whether the `deck` user has a password, from whether `sudo -S true` with an
/// empty password succeeded (absent when it could not be run): it has one
/// unless the empty password was accepted.
pub fn has_password(empty_password_accepted: Option<bool>) -> (b: bool)
    ensures
        b == !(empty_password_accepted == Some(true)),
{
    match empty_password_accepted {
        Some(ok) => !ok,
        None => true,
    }
}

/// The password that scripts run with, once sudo has accepted it.
pub struct SudoPassword(pub Option<String>);

impl SudoPassword {
    /// The stored password, as a spec value.
    pub open spec fn password(&self) -> Option<Seq<char>> {
        match self.0 {
            Some(p) => Some(p@),
            None => None,
        }
    }

    /// No password stored.
    pub fn new() -> (r: SudoPassword)
        ensures
            r.password() is None,
    {
        SudoPassword(None)
    }

    /// Stores `password`.
    pub fn store(&mut self, password: String)
        ensures
            final(self).password() == Some(password@),
    {
        self.0 = Some(password);
    }

    /// The stored password, if any.
    pub fn current(&self) -> (r: Option<String>)
        ensures
            match r {
                Some(p) => self.password() == Some(p@),
                None => self.password() is None,
            },
    {
        match &self.0 {
            Some(p) => Some(owned(p.as_str())),
            None => None,
        }
    }

    /// After `sudo -S -v` ran with `password` and exited with `code`: the password
    /// is stored when sudo accepted it (exit code 0), and nothing changes otherwise.
    pub fn record_validation(&mut self, password: String, code: i32)
        ensures
            final(self).password() == after_validation(old(self).password(), password@, code),
    {
        if code == 0 {
            self.0 = Some(password);
        }
    }

    /// After a saved password was read back and checked with sudo (`valid`, absent
    /// when sudo could not be run): a valid one is stored and returned; otherwise
    /// the empty string is returned and the saved file is to be removed (the `bool`).
    pub fn accept_saved(&mut self, password: String, valid: Option<bool>) -> (r: (String, bool))
        ensures
            valid == Some(true) ==> final(self).password() == Some(password@) && r.0@
                == password@ && !r.1,
            valid != Some(true) ==> final(self).password() == old(self).password() && r.0@
                == Seq::<char>::empty() && r.1,
    {
        match valid {
            Some(true) => {
                let p = owned(password.as_str());
                self.0 = Some(password);
                (p, false)
            },
            _ => (String::new(), true),
        }
    }
}

/// The stored password after sudo checked `pw` and exited with `code`.
pub open spec fn after_validation(stored: Option<Seq<char>>, pw: Seq<char>, code: i32) -> Option<
    Seq<char>,
> {
    if code == 0 {
        Some(pw)
    } else {
        stored
    }
}

/// A password that sudo accepted is the one scripts then run with, whatever was
/// stored before.
pub proof fn law_accepted_password_is_used(stored: Option<Seq<char>>, pw: Seq<char>)
    ensures
        after_validation(stored, pw, 0) == Some(pw),
{
}

/// A password that sudo refused leaves the stored one as it was.
pub proof fn law_refused_password_is_ignored(stored: Option<Seq<char>>, pw: Seq<char>, code: i32)
    requires
        code != 0,
    ensures
        after_validation(stored, pw, code) == stored,
{
}

/// The result shown after exporting the log: the path it was saved to, or
/// `cancelled` when no file was chosen.
pub fn export_log_result(saved_to: Option<String>) -> (r: String)
    ensures
        r@ == (match saved_to {
            Some(p) => p@,
            None => "cancelled"@,
        }),
{
    match saved_to {
        Some(p) => p,
        None => owned("cancelled"),
    }
}


/// A tool of the toolbox that runs one of the bundled scripts, with its inputs.
pub enum ScriptJob {
    Maintenance { force_heavy: String },
    SteamReset,
    GamescopeReset,
    FullRecovery,
    DuplicateRomFinder { paths: Vec<String> },
    FindDeckyLeftovers,
    FindLostRoms { paths: Vec<String> },
    LargeFileFinder { exclude_roms: String, mode: String, count: String },
    RemoveRomsMetadata,
    RomSizeSorter { paths: Vec<String> },
    DeckDeclutter,
    UninstallDecky,
    RomFinder { search: String, paths: Vec<String> },
    CleanupDupes { mode: String, internal_root: String, sd_root: String },
    FixRomPaths { mode: String, paths: Vec<String> },
    RebalanceRoms {
        mode: String,
        internal_root: String,
        sd_root: String,
        strategy: String,
        threshold: String,
    },
}

/// The file name of the script a tool runs.
pub open spec fn job_script_spec(job: ScriptJob) -> Seq<char> {
    match job {
        ScriptJob::Maintenance { .. } => "maintenance.sh"@,
        ScriptJob::SteamReset => "steam-reset.sh"@,
        ScriptJob::GamescopeReset => "gamescope-reset.sh"@,
        ScriptJob::FullRecovery => "full-recovery.sh"@,
        ScriptJob::DuplicateRomFinder { .. } => "duplicate_rom_finder.sh"@,
        ScriptJob::FindDeckyLeftovers => "find_decky_leftovers.sh"@,
        ScriptJob::FindLostRoms { .. } => "find_lost_roms.sh"@,
        ScriptJob::LargeFileFinder { .. } => "large_file_finder.sh"@,
        ScriptJob::RemoveRomsMetadata => "remove_roms_metadata.sh"@,
        ScriptJob::RomSizeSorter { .. } => "rom_size_sorter.sh"@,
        ScriptJob::DeckDeclutter => "deck_declutter.sh"@,
        ScriptJob::UninstallDecky => "uninstall_decky.sh"@,
        ScriptJob::RomFinder { .. } => "rom_finder.sh"@,
        ScriptJob::CleanupDupes { .. } => "cleanup_dupes.sh"@,
        ScriptJob::FixRomPaths { .. } => "fix_rom_paths.sh"@,
        ScriptJob::RebalanceRoms { .. } => "rebalance_roms.sh"@,
    }
}

/// The arguments a tool passes to its script, in order.
pub open spec fn job_args_spec(job: ScriptJob) -> Seq<Seq<char>> {
    match job {
        ScriptJob::Maintenance { force_heavy } => seq![force_heavy@],
        ScriptJob::DuplicateRomFinder { paths } => strs(paths@),
        ScriptJob::FindLostRoms { paths } => strs(paths@),
        ScriptJob::LargeFileFinder { exclude_roms, mode, count } => seq![
            exclude_roms@,
            mode@,
            count@,
        ],
        ScriptJob::RomSizeSorter { paths } => strs(paths@),
        ScriptJob::RomFinder { search, paths } => seq![search@] + strs(paths@),
        ScriptJob::CleanupDupes { mode, internal_root, sd_root } => seq![
            mode@,
            internal_root@,
            sd_root@,
        ],
        ScriptJob::FixRomPaths { mode, paths } => seq![mode@] + strs(paths@),
        ScriptJob::RebalanceRoms { mode, internal_root, sd_root, strategy, threshold } => seq![
            mode@,
            internal_root@,
            sd_root@,
            strategy@,
            threshold@,
        ],
        _ => seq![],
    }
}

/// Copies of the strings of `v`, after `first`.
fn copy_strings(first: Vec<String>, v: &Vec<String>) -> (r: Vec<String>)
    ensures
        strs(r@) == strs(first@) + strs(v@),
{
    let mut r = first;
    let ghost start = strs(r@);
    let mut i: usize = 0;
    assert(strs(v@.take(0)) =~= Seq::<Seq<char>>::empty());
    while i < v.len()
        invariant
            i <= v@.len(),
            strs(r@) == start + strs(v@.take(i as int)),
        decreases v@.len() - i,
    {
        let ghost before = r@;
        r.push(owned(v[i].as_str()));
        assert(strs(r@) =~= strs(before).push(v@[i as int]@));
        assert(strs(v@.take(i + 1)) =~= strs(v@.take(i as int)).push(v@[i as int]@));
        i = i + 1;
    }
    assert(v@.take(v@.len() as int) =~= v@);
    r
}

/// A vector of copies of the given strings.
fn strings_of(parts: &[&str]) -> (r: Vec<String>)
    ensures
        r@.len() == parts@.len(),
        forall|k: int| 0 <= k < parts@.len() ==> #[trigger] r@[k]@ == parts@[k]@,
{
    let mut r: Vec<String> = Vec::new();
    let mut i: usize = 0;
    while i < parts.len()
        invariant
            i <= parts@.len(),
            r@.len() == i,
            forall|k: int| 0 <= k < i ==> #[trigger] r@[k]@ == parts@[k]@,
        decreases parts@.len() - i,
    {
        r.push(owned(parts[i]));
        i = i + 1;
    }
    r
}

/// The script a tool runs and the arguments it passes.
pub fn job_script(job: &ScriptJob) -> (r: (String, Vec<String>))
    ensures
        r.0@ == job_script_spec(*job),
        strs(r.1@) == job_args_spec(*job),
{
    let (name, args): (&str, Vec<String>) = match job {
        ScriptJob::Maintenance { force_heavy } => (
            "maintenance.sh",
            strings_of(&[force_heavy.as_str()]),
        ),
        ScriptJob::SteamReset => ("steam-reset.sh", Vec::new()),
        ScriptJob::GamescopeReset => ("gamescope-reset.sh", Vec::new()),
        ScriptJob::FullRecovery => ("full-recovery.sh", Vec::new()),
        ScriptJob::DuplicateRomFinder { paths } => (
            "duplicate_rom_finder.sh",
            copy_strings(Vec::new(), paths),
        ),
        ScriptJob::FindDeckyLeftovers => ("find_decky_leftovers.sh", Vec::new()),
        ScriptJob::FindLostRoms { paths } => ("find_lost_roms.sh", copy_strings(Vec::new(), paths)),
        ScriptJob::LargeFileFinder { exclude_roms, mode, count } => (
            "large_file_finder.sh",
            strings_of(&[exclude_roms.as_str(), mode.as_str(), count.as_str()]),
        ),
        ScriptJob::RemoveRomsMetadata => ("remove_roms_metadata.sh", Vec::new()),
        ScriptJob::RomSizeSorter { paths } => (
            "rom_size_sorter.sh",
            copy_strings(Vec::new(), paths),
        ),
        ScriptJob::DeckDeclutter => ("deck_declutter.sh", Vec::new()),
        ScriptJob::UninstallDecky => ("uninstall_decky.sh", Vec::new()),
        ScriptJob::RomFinder { search, paths } => (
            "rom_finder.sh",
            copy_strings(strings_of(&[search.as_str()]), paths),
        ),
        ScriptJob::CleanupDupes { mode, internal_root, sd_root } => (
            "cleanup_dupes.sh",
            strings_of(&[mode.as_str(), internal_root.as_str(), sd_root.as_str()]),
        ),
        ScriptJob::FixRomPaths { mode, paths } => (
            "fix_rom_paths.sh",
            copy_strings(strings_of(&[mode.as_str()]), paths),
        ),
        ScriptJob::RebalanceRoms { mode, internal_root, sd_root, strategy, threshold } => (
            "rebalance_roms.sh",
            strings_of(
                &[
                    mode.as_str(),
                    internal_root.as_str(),
                    sd_root.as_str(),
                    strategy.as_str(),
                    threshold.as_str(),
                ],
            ),
        ),
    };
    assert(strs(args@) =~= job_args_spec(*job));
    (owned(name), args)
}


/// How moving one file to the Trash with `gio trash` went.
pub enum TrashOutcome {
    /// The file was moved.
    Trashed,
    /// `gio` failed and printed this on its standard error.
    Failed(String),
    /// `gio` could not be run; the error's message.
    NotRun(String),
}

/// The report line for one file.
pub open spec fn trash_line(file: Seq<char>, o: TrashOutcome) -> Seq<char> {
    match o {
        TrashOutcome::Trashed => "Trashed: "@ + file,
        TrashOutcome::Failed(err) => "Failed: "@ + file + " - "@ + trim(err@),
        TrashOutcome::NotRun(msg) => "Failed: "@ + file + " - "@ + msg@,
    }
}

/// The report lines of the moved files, in order.
pub open spec fn trashed_lines(files: Seq<Seq<char>>, os: Seq<TrashOutcome>) -> Seq<Seq<char>>
    decreases files.len(),
{
    if files.len() == 0 || os.len() == 0 {
        seq![]
    } else {
        let rest = trashed_lines(files.drop_last(), os.drop_last());
        if os.last() is Trashed {
            rest.push(trash_line(files.last(), os.last()))
        } else {
            rest
        }
    }
}

/// The report lines of the files that could not be moved, in order.
pub open spec fn failed_lines(files: Seq<Seq<char>>, os: Seq<TrashOutcome>) -> Seq<Seq<char>>
    decreases files.len(),
{
    if files.len() == 0 || os.len() == 0 {
        seq![]
    } else {
        let rest = failed_lines(files.drop_last(), os.drop_last());
        if os.last() is Trashed {
            rest
        } else {
            rest.push(trash_line(files.last(), os.last()))
        }
    }
}

/// Each line followed by a line feed, all concatenated.
pub open spec fn lines_text(ls: Seq<Seq<char>>) -> Seq<char>
    decreases ls.len(),
{
    if ls.len() == 0 {
        seq![]
    } else {
        lines_text(ls.drop_last()) + ls.last() + "\n"@
    }
}

/// The report of moving files to the Trash: a line per moved file, then a line
/// per failure, then the counts; exit code 1 when something failed.
pub open spec fn trash_report(files: Seq<Seq<char>>, os: Seq<TrashOutcome>) -> ScriptResultView {
    let t = trashed_lines(files, os);
    let f = failed_lines(files, os);
    ScriptResultView {
        code: if f.len() == 0 {
            0
        } else {
            1
        },
        stdout: if t.len() == 0 && f.len() == 0 {
            "No files selected.\n"@
        } else {
            lines_text(t) + lines_text(f) + "\n"@ + decimal(t.len()) + " moved to Trash, "@
                + decimal(f.len()) + " failed.\n"@
        },
        stderr: seq![],
    }
}

/// The report line for `file` moved to the Trash or not.
fn trash_line_of(file: &str, o: &TrashOutcome) -> (r: String)
    ensures
        r@ == trash_line(file@, *o),
{
    let mut r = String::new();
    match o {
        TrashOutcome::Trashed => {
            push_str(&mut r, "Trashed: ");
            push_str(&mut r, file);
        },
        TrashOutcome::Failed(err) => {
            push_str(&mut r, "Failed: ");
            push_str(&mut r, file);
            push_str(&mut r, " - ");
            let t = trim_str(err.as_str());
            push_str(&mut r, t.as_str());
        },
        TrashOutcome::NotRun(msg) => {
            push_str(&mut r, "Failed: ");
            push_str(&mut r, file);
            push_str(&mut r, " - ");
            push_str(&mut r, msg.as_str());
        },
    }
    r
}

/// Appends each line followed by a line feed.
fn push_lines(out: &mut String, ls: &Vec<String>)
    ensures
        final(out)@ == old(out)@ + lines_text(strs(ls@)),
{
    let ghost start = out@;
    let mut i: usize = 0;
    assert(strs(ls@.take(0)) =~= Seq::<Seq<char>>::empty());
    while i < ls.len()
        invariant
            i <= ls@.len(),
            out@ == start + lines_text(strs(ls@.take(i as int))),
        decreases ls@.len() - i,
    {
        push_str(out, ls[i].as_str());
        push_str(out, "\n");
        assert(strs(ls@.take(i + 1)).drop_last() =~= strs(ls@.take(i as int)));
        i = i + 1;
    }
    assert(ls@.take(ls@.len() as int) =~= ls@);
}

/// The report after moving `files` to the Trash, `outcomes[i]` telling how it
/// went for `files[i]`.
pub fn delete_files_report(files: &Vec<String>, outcomes: &Vec<TrashOutcome>) -> (r: ScriptResult)
    requires
        files@.len() == outcomes@.len(),
    ensures
        r@ == trash_report(strs(files@), outcomes@),
{
    let mut trashed: Vec<String> = Vec::new();
    let mut errors: Vec<String> = Vec::new();
    let mut i: usize = 0;
    assert(strs(files@).take(0) =~= Seq::<Seq<char>>::empty());
    while i < files.len()
        invariant
            i <= files@.len(),
            files@.len() == outcomes@.len(),
            strs(trashed@) == trashed_lines(strs(files@).take(i as int), outcomes@.take(i as int)),
            strs(errors@) == failed_lines(strs(files@).take(i as int), outcomes@.take(i as int)),
        decreases files@.len() - i,
    {
        let line = trash_line_of(files[i].as_str(), &outcomes[i]);
        let ghost fs = strs(files@).take(i + 1);
        let ghost os = outcomes@.take(i + 1);
        assert(fs.drop_last() =~= strs(files@).take(i as int));
        assert(os.drop_last() =~= outcomes@.take(i as int));
        assert(fs.last() == files@[i as int]@);
        assert(os.last() == outcomes@[i as int]);
        let ghost before_t = trashed@;
        let ghost before_e = errors@;
        match &outcomes[i] {
            TrashOutcome::Trashed => {
                trashed.push(line);
                assert(strs(trashed@) =~= strs(before_t).push(line@));
            },
            _ => {
                errors.push(line);
                assert(strs(errors@) =~= strs(before_e).push(line@));
            },
        }
        i = i + 1;
    }
    assert(strs(files@).take(files@.len() as int) =~= strs(files@));
    assert(outcomes@.take(outcomes@.len() as int) =~= outcomes@);
    let stdout = if trashed.len() == 0 && errors.len() == 0 {
        owned("No files selected.\n")
    } else {
        let mut out = String::new();
        push_lines(&mut out, &trashed);
        push_lines(&mut out, &errors);
        push_str(&mut out, "\n");
        let nt = usize_to_decimal(trashed.len());
        push_str(&mut out, nt.as_str());
        push_str(&mut out, " moved to Trash, ");
        let ne = usize_to_decimal(errors.len());
        push_str(&mut out, ne.as_str());
        push_str(&mut out, " failed.\n");
        out
    };
    ScriptResult {
        code: if errors.len() == 0 {
            0
        } else {
            1
        },
        stdout,
        stderr: String::new(),
    }
}


/// The command line that sets a password with `chpasswd` under sudo.
pub fn chpasswd_command(in_flatpak: bool) -> (r: Vec<String>)
    ensures
        strs(r@) == host_command_spec(in_flatpak, "sudo"@) + seq!["-S"@, "chpasswd"@],
{
    let mut r = host_command(in_flatpak, "sudo");
    let ghost head = strs(r@);
    r.push(owned("-S"));
    r.push(owned("chpasswd"));
    assert(strs(r@) =~= head + seq!["-S"@, "chpasswd"@]);
    r
}

/// What `sudo -S chpasswd` reads: an empty sudo password (the `deck` user has
/// none by default), then `deck:<new password>`.
pub fn chpasswd_input(new_password: &str) -> (r: String)
    ensures
        r@ == stdin_line(seq![]) + stdin_line("deck:"@ + new_password@),
{
    let mut r = String::new();
    push_char(&mut r, '\n');
    push_str(&mut r, "deck:");
    push_str(&mut r, new_password);
    push_char(&mut r, '\n');
    r
}

/// The command line of the fallback, `passwd --stdin deck`.
pub fn passwd_command(in_flatpak: bool) -> (r: Vec<String>)
    ensures
        strs(r@) == host_command_spec(in_flatpak, "passwd"@) + seq!["--stdin"@, "deck"@],
{
    let mut r = host_command(in_flatpak, "passwd");
    let ghost head = strs(r@);
    r.push(owned("--stdin"));
    r.push(owned("deck"));
    assert(strs(r@) =~= head + seq!["--stdin"@, "deck"@]);
    r
}

/// What comes of setting the password: the `chpasswd` result when it succeeded,
/// otherwise the result of the `passwd` fallback (run only in that case).
pub fn set_password_result(chpasswd: ScriptResult, chpasswd_ok: bool, fallback: Option<ScriptResult>) -> (r:
    Option<ScriptResult>)
    ensures
        chpasswd_ok ==> r == Some(chpasswd),
        !chpasswd_ok ==> r == fallback,
{
    if chpasswd_ok {
        Some(chpasswd)
    } else {
        fallback
    }
}

/// The command that opens `url` in the desktop's browser on the given operating
/// system (empty where there is none).
pub open spec fn url_opener_spec(os: Seq<char>, url: Seq<char>) -> Seq<Seq<char>> {
    if os == "linux"@ {
        seq!["xdg-open"@, url]
    } else if os == "windows"@ {
        seq!["cmd"@, "/C"@, "start"@, url]
    } else if os == "macos"@ {
        seq!["open"@, url]
    } else {
        seq![]
    }
}

/// The command that opens `url` on `os`.
pub fn url_opener(os: &str, url: &str) -> (r: Vec<String>)
    ensures
        strs(r@) == url_opener_spec(os@, url@),
{
    let parts: Vec<String> = if str_eq(os, "linux") {
        strings_of(&["xdg-open", url])
    } else if str_eq(os, "windows") {
        strings_of(&["cmd", "/C", "start", url])
    } else if str_eq(os, "macos") {
        strings_of(&["open", url])
    } else {
        Vec::new()
    };
    assert(strs(parts@) =~= url_opener_spec(os@, url@));
    parts
}

/// `s` as one single-quoted bash word: each `'` becomes `'\''`.
pub open spec fn shell_quote_spec(s: Seq<char>) -> Seq<char> {
    "'"@ + quote_body(s) + "'"@
}

/// The inside of a single-quoted bash word for `s`.
pub open spec fn quote_body(s: Seq<char>) -> Seq<char>
    decreases s.len(),
{
    if s.len() == 0 {
        seq![]
    } else {
        quote_body(s.drop_last()) + (if s.last() == '\'' {
            "'\\''"@
        } else {
            seq![s.last()]
        })
    }
}

/// `s` quoted for bash.
pub fn shell_quote(s: &str) -> (r: String)
    ensures
        r@ == shell_quote_spec(s@),
{
    let cs = chars_of(s);
    let mut r = owned("'");
    let ghost start = r@;
    let mut i: usize = 0;
    assert(cs@.take(0) =~= Seq::<char>::empty());
    while i < cs.len()
        invariant
            cs@ == s@,
            i <= cs@.len(),
            r@ == start + quote_body(cs@.take(i as int)),
            start == "'"@,
        decreases cs@.len() - i,
    {
        if cs[i] == '\'' {
            push_str(&mut r, "'\\''");
        } else {
            push_char(&mut r, cs[i]);
        }
        assert(cs@.take(i + 1).drop_last() =~= cs@.take(i as int));
        i = i + 1;
    }
    assert(cs@.take(cs@.len() as int) =~= cs@);
    push_str(&mut r, "'");
    r
}

/// Where scripts are copied to on the Deck.
pub open spec fn remote_scripts_dir() -> Seq<char> {
    "/home/deck/.cache/deck-toolbox/scripts"@
}

/// The remote command that creates the scripts directory on the Deck.
pub fn remote_mkdir_command() -> (r: String)
    ensures
        r@ == "mkdir -p '"@ + remote_scripts_dir() + "'"@,
{
    let mut r = owned("mkdir -p '");
    push_str(&mut r, "/home/deck/.cache/deck-toolbox/scripts");
    push_str(&mut r, "'");
    r
}

/// Where a script is uploaded to on the Deck.
pub fn remote_script_path(script_name: &str) -> (r: String)
    ensures
        r@ == remote_scripts_dir() + "/"@ + script_name@,
{
    let mut r = owned("/home/deck/.cache/deck-toolbox/scripts");
    push_str(&mut r, "/");
    push_str(&mut r, script_name);
    r
}

/// The remote command that runs an uploaded script with its arguments, each
/// quoted for bash: `bash <path> <arg> <arg> ...`.
pub open spec fn remote_run_spec(path: Seq<char>, args: Seq<Seq<char>>) -> Seq<char> {
    "bash "@ + shell_quote_spec(path) + " "@ + join(args.map_values(|a: Seq<char>| shell_quote_spec(a)), " "@)
}

/// The remote command that runs the script at `path` with `args`.
pub fn remote_run_command(path: &str, args: &Vec<String>) -> (r: String)
    ensures
        r@ == remote_run_spec(path@, strs(args@)),
{
    let mut quoted: Vec<String> = Vec::new();
    let mut i: usize = 0;
    while i < args.len()
        invariant
            i <= args@.len(),
            quoted@.len() == i,
            forall|k: int| 0 <= k < i ==> #[trigger] quoted@[k]@ == shell_quote_spec(args@[k]@),
        decreases args@.len() - i,
    {
        quoted.push(shell_quote(args[i].as_str()));
        i = i + 1;
    }
    assert(strs(quoted@) =~= strs(args@).map_values(|a: Seq<char>| shell_quote_spec(a)));
    let mut r = owned("bash ");
    let q = shell_quote(path);
    push_str(&mut r, q.as_str());
    push_str(&mut r, " ");
    let j = join_strings(&quoted, " ");
    push_str(&mut r, j.as_str());
    r
}


/// Every file of a Trash run is reported exactly once: the moved files and the
/// failures add up to the files asked for, so the counts printed sum to it.
pub proof fn law_trash_counts(files: Seq<Seq<char>>, os: Seq<TrashOutcome>)
    requires
        files.len() == os.len(),
    ensures
        trashed_lines(files, os).len() + failed_lines(files, os).len() == files.len(),
    decreases files.len(),
{
    if files.len() > 0 {
        law_trash_counts(files.drop_last(), os.drop_last());
    }
}


/// The number of leading characters of `s` before the first `'`.
pub open spec fn plain_len(s: Seq<char>) -> nat
    decreases s.len(),
{
    if s.len() > 0 && s[0] != '\'' {
        1 + plain_len(s.drop_first())
    } else {
        0
    }
}

pub proof fn lemma_plain_len(s: Seq<char>)
    ensures
        plain_len(s) <= s.len(),
        plain_len(s) < s.len() ==> s[plain_len(s) as int] == '\'',
        forall|i: int| 0 <= i < plain_len(s) ==> s[i] != '\'',
    decreases s.len(),
{
    if s.len() > 0 && s[0] != '\'' {
        lemma_plain_len(s.drop_first());
        assert forall|i: int| 0 <= i < plain_len(s) implies s[i] != '\'' by {
            if i > 0 {
                assert(s[i] == s.drop_first()[i - 1]);
            }
        }
    }
}

/// How bash reads one word made of single-quoted parts and backslash escapes:
/// the characters it stands for, or nothing when the word is not of that form.
pub open spec fn unquote_word(w: Seq<char>) -> Option<Seq<char>>
    decreases w.len(),
{
    if w.len() == 0 {
        Some(seq![])
    } else if w[0] == '\'' {
        let k = plain_len(w.skip(1)) as int;
        proof {
            lemma_plain_len(w.skip(1));
        }
        if k + 1 >= w.len() {
            None
        } else {
            match unquote_word(w.skip(k + 2)) {
                Some(r) => Some(w.subrange(1, k + 1) + r),
                None => None,
            }
        }
    } else if w[0] == '\\' && w.len() >= 2 {
        match unquote_word(w.skip(2)) {
            Some(r) => Some(seq![w[1]] + r),
            None => None,
        }
    } else {
        None
    }
}

proof fn lemma_quote_body_concat(a: Seq<char>, b: Seq<char>)
    ensures
        quote_body(a + b) == quote_body(a) + quote_body(b),
    decreases b.len(),
{
    if b.len() == 0 {
        assert(a + b =~= a);
    } else {
        lemma_quote_body_concat(a, b.drop_last());
        assert((a + b).drop_last() =~= a + b.drop_last());
    }
}

proof fn lemma_quote_body_plain(s: Seq<char>)
    requires
        forall|i: int| 0 <= i < s.len() ==> s[i] != '\'',
    ensures
        quote_body(s) == s,
    decreases s.len(),
{
    if s.len() > 0 {
        lemma_quote_body_plain(s.drop_last());
        assert(s.drop_last().push(s.last()) =~= s);
    }
}

proof fn lemma_plain_len_concat(a: Seq<char>, b: Seq<char>)
    requires
        forall|i: int| 0 <= i < a.len() ==> a[i] != '\'',
    ensures
        plain_len(a + b) == a.len() + plain_len(b),
    decreases a.len(),
{
    if a.len() > 0 {
        lemma_plain_len_concat(a.drop_first(), b);
        assert((a + b).drop_first() =~= a.drop_first() + b);
    } else {
        assert(a + b =~= b);
    }
}

/// An argument quoted with `shell_quote` reaches the remote bash as one word
/// that stands for exactly the argument, whatever quotes it holds.
pub proof fn law_shell_quote_roundtrip(s: Seq<char>)
    ensures
        unquote_word(shell_quote_spec(s)) == Some(s),
    decreases s.len(),
{
    reveal_strlit("'");
    reveal_strlit("'\\''");
    let k = plain_len(s) as int;
    lemma_plain_len(s);
    let q = shell_quote_spec(s);
    if k == s.len() {
        lemma_quote_body_plain(s);
        assert(q =~= seq!['\''] + s + seq!['\'']);
        assert(q.skip(1) =~= s + seq!['\'']);
        lemma_plain_len_concat(s, seq!['\'']);
        assert(plain_len(q.skip(1)) == s.len());
        assert(q.subrange(1, k + 1) =~= s);
        assert(q.skip(k + 2) =~= Seq::<char>::empty());
        assert(q[0] == '\'');
        assert(unquote_word(q.skip(k + 2)) == Some(Seq::<char>::empty()));
        assert(unquote_word(q) == Some(s + Seq::<char>::empty()));
        assert(s + Seq::<char>::empty() =~= s);
    } else {
        let p = s.take(k);
        let r = s.skip(k + 1);
        assert(s =~= p + seq!['\''] + r);
        lemma_quote_body_concat(p + seq!['\''], r);
        lemma_quote_body_concat(p, seq!['\'']);
        lemma_quote_body_plain(p);
        assert(quote_body(seq!['\'']) =~= "'\\''"@) by {
            assert(seq!['\''].drop_last() =~= Seq::<char>::empty());
            assert(quote_body(Seq::<char>::empty()) =~= Seq::<char>::empty());
            assert(quote_body(seq!['\'']) == quote_body(Seq::<char>::empty()) + "'\\''"@);
        }
        let tail = seq!['\\', '\''] + shell_quote_spec(r);
        assert(q =~= seq!['\''] + p + seq!['\''] + tail);
        assert(q.skip(1) =~= p + (seq!['\''] + tail));
        lemma_plain_len_concat(p, seq!['\''] + tail);
        assert(plain_len(q.skip(1)) == k);
        assert(q.subrange(1, k + 1) =~= p);
        assert(q.skip(k + 2) =~= tail);
        assert(tail.skip(2) =~= shell_quote_spec(r));
        law_shell_quote_roundtrip(r);
        assert(tail[0] == '\\' && tail.len() >= 2 && tail[1] == '\'');
        assert(unquote_word(tail) == Some(seq!['\''] + r));
        assert(q[0] == '\'');
        assert(unquote_word(q) == Some(p + (seq!['\''] + r)));
        assert(p + (seq!['\''] + r) =~= s);
    }
}


/// Every tool runs its own script with its own inputs, in the order the script
/// reads them; the storage tools pass the internal root before the SD card root.
pub proof fn law_job_arguments(job: ScriptJob)
    ensures
        (job matches ScriptJob::Maintenance { force_heavy } ==> job_script_spec(job)
            == "maintenance.sh"@ && job_args_spec(job) == seq![force_heavy@]),
        (job is SteamReset ==> job_script_spec(job) == "steam-reset.sh"@ && job_args_spec(job)
            =~= Seq::<Seq<char>>::empty()),
        (job is GamescopeReset ==> job_script_spec(job) == "gamescope-reset.sh"@
            && job_args_spec(job) =~= Seq::<Seq<char>>::empty()),
        (job is FullRecovery ==> job_script_spec(job) == "full-recovery.sh"@ && job_args_spec(job)
            =~= Seq::<Seq<char>>::empty()),
        (job matches ScriptJob::DuplicateRomFinder { paths } ==> job_script_spec(job)
            == "duplicate_rom_finder.sh"@ && job_args_spec(job).len() == paths@.len() && forall|
            k: int,
        | 0 <= k < paths@.len() ==> #[trigger] job_args_spec(job)[k] == paths@[k]@),
        (job is FindDeckyLeftovers ==> job_script_spec(job) == "find_decky_leftovers.sh"@
            && job_args_spec(job) =~= Seq::<Seq<char>>::empty()),
        (job matches ScriptJob::FindLostRoms { paths } ==> job_script_spec(job)
            == "find_lost_roms.sh"@ && job_args_spec(job).len() == paths@.len() && forall|k: int|
            0 <= k < paths@.len() ==> #[trigger] job_args_spec(job)[k] == paths@[k]@),
        (job matches ScriptJob::LargeFileFinder { exclude_roms, mode, count } ==> job_script_spec(
            job,
        ) == "large_file_finder.sh"@ && job_args_spec(job) == seq![exclude_roms@, mode@, count@]),
        (job is RemoveRomsMetadata ==> job_script_spec(job) == "remove_roms_metadata.sh"@
            && job_args_spec(job) =~= Seq::<Seq<char>>::empty()),
        (job matches ScriptJob::RomSizeSorter { paths } ==> job_script_spec(job)
            == "rom_size_sorter.sh"@ && job_args_spec(job).len() == paths@.len() && forall|k: int|
            0 <= k < paths@.len() ==> #[trigger] job_args_spec(job)[k] == paths@[k]@),
        (job is DeckDeclutter ==> job_script_spec(job) == "deck_declutter.sh"@ && job_args_spec(job)
            =~= Seq::<Seq<char>>::empty()),
        (job is UninstallDecky ==> job_script_spec(job) == "uninstall_decky.sh"@
            && job_args_spec(job) =~= Seq::<Seq<char>>::empty()),
        (job matches ScriptJob::RomFinder { search, paths } ==> job_script_spec(job)
            == "rom_finder.sh"@ && job_args_spec(job).len() == paths@.len() + 1
            && job_args_spec(job)[0] == search@ && forall|k: int|
            0 <= k < paths@.len() ==> #[trigger] job_args_spec(job)[k + 1] == paths@[k]@),
        (job matches ScriptJob::CleanupDupes { mode, internal_root, sd_root } ==> job_script_spec(
            job,
        ) == "cleanup_dupes.sh"@ && job_args_spec(job) == seq![mode@, internal_root@, sd_root@]),
        (job matches ScriptJob::FixRomPaths { mode, paths } ==> job_script_spec(job)
            == "fix_rom_paths.sh"@ && job_args_spec(job).len() == paths@.len() + 1
            && job_args_spec(job)[0] == mode@ && forall|k: int|
            0 <= k < paths@.len() ==> #[trigger] job_args_spec(job)[k + 1] == paths@[k]@),
        (job matches ScriptJob::RebalanceRoms { mode, internal_root, sd_root, strategy, threshold }
            ==> job_script_spec(job) == "rebalance_roms.sh"@ && job_args_spec(job) == seq![
            mode@,
            internal_root@,
            sd_root@,
            strategy@,
            threshold@,
        ]),
{
}

/// Scripts always run on the host: inside the Flatpak sandbox the command line
/// begins with `flatpak-spawn --host bash`, whether or not a sudo password is
/// known, and outside it with `bash`. Then comes the script (after
/// `-c <prelude> --` when a password is known) and its arguments, unchanged.
pub proof fn law_script_runs_on_host(
    in_flatpak: bool,
    script: Seq<char>,
    args: Seq<Seq<char>>,
    with_sudo: bool,
)
    ensures
        in_flatpak ==> script_command_spec(in_flatpak, script, args, with_sudo).take(3) == seq![
            "flatpak-spawn"@,
            "--host"@,
            "bash"@,
        ],
        !in_flatpak ==> script_command_spec(in_flatpak, script, args, with_sudo)[0] == "bash"@,
        !with_sudo ==> script_command_spec(in_flatpak, script, args, with_sudo) == (if in_flatpak {
            seq!["flatpak-spawn"@, "--host"@, "bash"@]
        } else {
            seq!["bash"@]
        }) + seq![script] + args,
        with_sudo ==> script_command_spec(in_flatpak, script, args, with_sudo) == (if in_flatpak {
            seq!["flatpak-spawn"@, "--host"@, "bash"@]
        } else {
            seq!["bash"@]
        }) + seq!["-c"@, sudo_wrapper_spec(), "--"@, script] + args,
{
    let c = script_command_spec(in_flatpak, script, args, with_sudo);
    if in_flatpak {
        assert(c[0] == "flatpak-spawn"@ && c[1] == "--host"@ && c[2] == "bash"@);
        assert(c.take(3) =~= seq!["flatpak-spawn"@, "--host"@, "bash"@]);
    }
    assert(c =~= (if in_flatpak {
        seq!["flatpak-spawn"@, "--host"@, "bash"@]
    } else {
        seq!["bash"@]
    }) + (if with_sudo {
        seq!["-c"@, sudo_wrapper_spec(), "--"@, script]
    } else {
        seq![script]
    }) + args);
}


/// `piece` occurs somewhere in `text`.
pub open spec fn occurs_in(piece: Seq<char>, text: Seq<char>) -> bool {
    exists|j: int|
        0 <= j && j + piece.len() <= text.len() && #[trigger] text.subrange(j, j + piece.len())
            == piece
}

proof fn lemma_occurs_in_prefix(piece: Seq<char>, a: Seq<char>, b: Seq<char>)
    requires
        occurs_in(piece, a),
    ensures
        occurs_in(piece, a + b),
{
    let j = choose|j: int|
        0 <= j && j + piece.len() <= a.len() && #[trigger] a.subrange(j, j + piece.len())
            == piece;
    assert((a + b).subrange(j, j + piece.len()) =~= a.subrange(j, j + piece.len()));
}

/// A line of the list occurs, with its line feed, in the text of the list.
proof fn lemma_line_occurs(ls: Seq<Seq<char>>, x: Seq<char>)
    requires
        ls.contains(x),
    ensures
        occurs_in(x + "\n"@, lines_text(ls)),
    decreases ls.len(),
{
    let d = ls.drop_last();
    if ls.last() == x {
        let a = lines_text(d);
        let t = lines_text(ls);
        assert(t =~= a + (x + "\n"@));
        assert(t.subrange(a.len() as int, a.len() + (x + "\n"@).len() as int) =~= x + "\n"@);
    } else {
        let k = choose|k: int| 0 <= k < ls.len() && ls[k] == x;
        assert(k < ls.len() - 1);
        assert(d[k] == x);
        lemma_line_occurs(d, x);
        lemma_occurs_in_prefix(x + "\n"@, lines_text(d), ls.last() + "\n"@);
        assert(lines_text(ls) =~= lines_text(d) + (ls.last() + "\n"@));
    }
}

/// The line of file `i` is among the moved lines when it was moved, among the
/// failed lines otherwise.
proof fn lemma_trash_line_listed(files: Seq<Seq<char>>, os: Seq<TrashOutcome>, i: int)
    requires
        files.len() == os.len(),
        0 <= i < files.len(),
    ensures
        os[i] is Trashed ==> trashed_lines(files, os).contains(trash_line(files[i], os[i])),
        !(os[i] is Trashed) ==> failed_lines(files, os).contains(trash_line(files[i], os[i])),
    decreases files.len(),
{
    let n = files.len() - 1;
    let t = trashed_lines(files.drop_last(), os.drop_last());
    let f = failed_lines(files.drop_last(), os.drop_last());
    let x = trash_line(files[i], os[i]);
    if i == n {
        if os[i] is Trashed {
            assert(trashed_lines(files, os)[t.len() as int] == x);
        } else {
            assert(failed_lines(files, os)[f.len() as int] == x);
        }
    } else {
        lemma_trash_line_listed(files.drop_last(), os.drop_last(), i);
        assert(files.drop_last()[i] == files[i] && os.drop_last()[i] == os[i]);
        if os[i] is Trashed {
            let k = choose|k: int| 0 <= k < t.len() && t[k] == x;
            assert(trashed_lines(files, os)[k] == x);
        } else {
            let k = choose|k: int| 0 <= k < f.len() && f[k] == x;
            assert(failed_lines(files, os)[k] == x);
        }
    }
}

/// Nothing failed exactly when every file was moved.
proof fn lemma_no_failures(files: Seq<Seq<char>>, os: Seq<TrashOutcome>)
    requires
        files.len() == os.len(),
    ensures
        failed_lines(files, os).len() == 0 <==> forall|i: int|
            0 <= i < os.len() ==> #[trigger] os[i] is Trashed,
    decreases files.len(),
{
    if files.len() > 0 {
        lemma_no_failures(files.drop_last(), os.drop_last());
        if failed_lines(files, os).len() == 0 {
            assert forall|i: int| 0 <= i < os.len() implies #[trigger] os[i] is Trashed by {
                if i < os.len() - 1 {
                    assert(os.drop_last()[i] == os[i]);
                }
            }
        }
        if forall|i: int| 0 <= i < os.len() ==> #[trigger] os[i] is Trashed {
            assert(os[os.len() - 1] is Trashed);
            assert forall|i: int| 0 <= i < os.drop_last().len() implies #[trigger] os.drop_last()[
                i
            ] is Trashed by {
                assert(os[i] is Trashed);
            }
        }
    }
}

/// The report of moving files to the Trash says "No files selected." exactly
/// when no file was given; otherwise every file has its own line in it,
/// `Trashed: <file>` or `Failed: <file> - <why>`. It exits with 0 exactly when
/// every file was moved.
pub proof fn law_trash_report_lists_every_file(files: Seq<Seq<char>>, os: Seq<TrashOutcome>)
    requires
        files.len() == os.len(),
    ensures
        (trash_report(files, os).stdout == "No files selected.\n"@) <==> files.len() == 0,
        forall|i: int|
            #![trigger files[i]]
            0 <= i < files.len() ==> occurs_in(
                (match os[i] {
                    TrashOutcome::Trashed => "Trashed: "@ + files[i],
                    TrashOutcome::Failed(e) => "Failed: "@ + files[i] + " - "@ + trim(e@),
                    TrashOutcome::NotRun(m) => "Failed: "@ + files[i] + " - "@ + m@,
                }) + "\n"@,
                trash_report(files, os).stdout,
            ),
        trash_report(files, os).code == 0 <==> forall|i: int|
            0 <= i < os.len() ==> #[trigger] os[i] is Trashed,
{
    let t = trashed_lines(files, os);
    let f = failed_lines(files, os);
    let out = trash_report(files, os).stdout;
    law_trash_counts(files, os);
    lemma_no_failures(files, os);
    let rest = "\n"@ + decimal(t.len()) + " moved to Trash, "@ + decimal(f.len()) + " failed.\n"@;
    if files.len() > 0 {
        assert(out =~= (lines_text(t) + lines_text(f)) + rest);
        let tail = " failed.\n"@;
        let msg = "No files selected.\n"@;
        if out == msg {
            reveal_strlit(" failed.\n");
            reveal_strlit("No files selected.\n");
            let head = lines_text(t) + lines_text(f) + "\n"@ + decimal(t.len()) + " moved to Trash, "@
                + decimal(f.len());
            assert(out =~= head + tail);
            assert(out[out.len() - 5] == tail[4]);
            assert(msg[14] == 't');
        }
    }
    assert forall|i: int| #![trigger files[i]] 0 <= i < files.len() implies occurs_in(
        (match os[i] {
            TrashOutcome::Trashed => "Trashed: "@ + files[i],
            TrashOutcome::Failed(e) => "Failed: "@ + files[i] + " - "@ + trim(e@),
            TrashOutcome::NotRun(m) => "Failed: "@ + files[i] + " - "@ + m@,
        }) + "\n"@,
        out,
    ) by {
        let x = trash_line(files[i], os[i]);
        lemma_trash_line_listed(files, os, i);
        if os[i] is Trashed {
            lemma_line_occurs(t, x);
            lemma_occurs_in_prefix(x + "\n"@, lines_text(t), lines_text(f));
        } else {
            lemma_line_occurs(f, x);
            let j = choose|j: int|
                0 <= j && j + (x + "\n"@).len() <= lines_text(f).len() && #[trigger] lines_text(
                    f,
                ).subrange(j, j + (x + "\n"@).len()) == x + "\n"@;
            let lt = lines_text(t);
            assert((lt + lines_text(f)).subrange(lt.len() + j, lt.len() + j + (x + "\n"@).len())
                =~= lines_text(f).subrange(j, j + (x + "\n"@).len()));
        }
        lemma_occurs_in_prefix(x + "\n"@, lines_text(t) + lines_text(f), rest);
    }
}

} // verus!

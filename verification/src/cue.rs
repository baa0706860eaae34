//! `.cue` sheets for MODE2/2352 `.bin` disc images.
use vstd::prelude::*;

use crate::text::{chars_of, owned, push_str, string_from_chars};

verus! {

/// What became of one picked `.bin` file.
pub struct CueFileResult {
    pub file: String,
    pub status: String,
    pub msg: String,
}

/// The outcome of a run: whether the file dialog was cancelled, and a result per file.
pub struct CueResult {
    pub canceled: bool,
    pub results: Vec<CueFileResult>,
}

/// The contents of a [`CueFileResult`].
pub struct CueFileResultView {
    pub file: Seq<char>,
    pub status: Seq<char>,
    pub msg: Seq<char>,
}

impl View for CueFileResult {
    type V = CueFileResultView;

    open spec fn view(&self) -> CueFileResultView {
        CueFileResultView { file: self.file@, status: self.status@, msg: self.msg@ }
    }
}

/// The cue sheet for a `.bin` image: one MODE2/2352 data track covering the file.
pub open spec fn cue_sheet_spec(bin_name: Seq<char>) -> Seq<char> {
    "FILE \""@ + bin_name + "\" BINARY\n  TRACK 01 MODE2/2352\n    INDEX 01 00:00:00\n"@
}

/// The cue sheet for the image file named `bin_name`.
pub fn cue_sheet(bin_name: &str) -> (r: String)
    ensures
        r@ == cue_sheet_spec(bin_name@),
{
    let mut r = owned("FILE \"");
    push_str(&mut r, bin_name);
    push_str(&mut r, "\" BINARY\n  TRACK 01 MODE2/2352\n    INDEX 01 00:00:00\n");
    r
}

/// The index of the last `.` in `s`, if there is one.
pub open spec fn last_dot(s: Seq<char>) -> Option<int>
    decreases s.len(),
{
    if s.len() == 0 {
        None
    } else if s.last() == '.' {
        Some(s.len() - 1)
    } else {
        last_dot(s.drop_last())
    }
}

/// The stem of a file name, as `Path::file_stem` gives it: the part before the
/// last `.`, unless that part would be empty (or the name is `..`), in which
/// case the whole name.
pub open spec fn file_stem(name: Seq<char>) -> Seq<char> {
    if name == ".."@ {
        name
    } else {
        match last_dot(name) {
            Some(k) => if k > 0 {
                name.take(k)
            } else {
                name
            },
            None => name,
        }
    }
}

/// The name of the cue sheet next to an image named `bin_name`: its stem with the
/// extension `cue` (as `Path::with_extension("cue")` names it).
pub open spec fn cue_name_spec(bin_name: Seq<char>) -> Seq<char> {
    file_stem(bin_name) + ".cue"@
}

/// The name of the cue sheet for the image named `bin_name`.
pub fn cue_file_name(bin_name: &str) -> (r: String)
    ensures
        r@ == cue_name_spec(bin_name@),
{
    let cs = chars_of(bin_name);
    let n = cs.len();
    let mut k: usize = n;
    assert(cs@.take(n as int) =~= cs@);
    while k > 0 && cs[k - 1] != '.'
        invariant
            k <= n,
            n == cs@.len(),
            cs@ == bin_name@,
            last_dot(cs@) == last_dot(cs@.take(k as int)),
        decreases k,
    {
        assert(cs@.take(k as int).drop_last() =~= cs@.take(k - 1));
        k = k - 1;
    }
    assert(cs@.take(n as int) =~= cs@);
    proof {
        if k > 0 {
            assert(last_dot(cs@.take(k as int)) == Some(k - 1));
        }
    }
    let is_dotdot = n == 2 && cs[0] == '.' && cs[1] == '.';
    proof {
        reveal_strlit("..");
        if is_dotdot {
            assert(cs@ =~= ".."@);
        } else {
            assert(cs@ != ".."@);
        }
    }
    let stem = if !is_dotdot && k > 1 {
        let mut part: Vec<char> = Vec::new();
        let mut i: usize = 0;
        while i < k - 1
            invariant
                k <= n,
                n == cs@.len(),
                i <= k - 1,
                part@ == cs@.take(i as int),
            decreases k - 1 - i,
        {
            part.push(cs[i]);
            assert(cs@.take(i + 1) =~= cs@.take(i as int).push(cs@[i as int]));
            i = i + 1;
        }
        string_from_chars(part.as_slice())
    } else {
        owned(bin_name)
    };
    let mut r = stem;
    push_str(&mut r, ".cue");
    r
}

/// What to do for one picked image.
pub enum CueAction {
    /// A cue sheet is already there: leave it alone.
    Skip,
    /// Write a cue sheet with this name and these contents next to the image.
    Write { name: String, contents: String },
}

/// What to do for the image `bin_name`, given whether its cue sheet exists: an
/// existing cue sheet is never overwritten.
pub fn cue_action(bin_name: &str, cue_exists: bool) -> (r: CueAction)
    ensures
        cue_exists ==> r is Skip,
        !cue_exists ==> (r matches CueAction::Write { name, contents } && name@ == cue_name_spec(
            bin_name@,
        ) && contents@ == cue_sheet_spec(bin_name@)),
{
    if cue_exists {
        CueAction::Skip
    } else {
        CueAction::Write { name: cue_file_name(bin_name), contents: cue_sheet(bin_name) }
    }
}

/// What became of writing the cue sheet for one image.
pub enum CueOutcome {
    /// A cue sheet of that name already exists; nothing was written.
    AlreadyExists,
    /// The cue sheet was written.
    Written,
    /// Writing failed with this message.
    WriteFailed(String),
}

/// The result shown for the image `bin_name` after `outcome`.
pub open spec fn cue_file_result_spec(bin_name: Seq<char>, outcome: CueOutcome) -> CueFileResultView {
    match outcome {
        CueOutcome::AlreadyExists => CueFileResultView {
            file: bin_name,
            status: "skipped"@,
            msg: ".cue already exists"@,
        },
        CueOutcome::Written => CueFileResultView {
            file: bin_name,
            status: "ok"@,
            msg: "Created "@ + cue_name_spec(bin_name),
        },
        CueOutcome::WriteFailed(e) => CueFileResultView {
            file: bin_name,
            status: "error"@,
            msg: e@,
        },
    }
}

/// The result shown for the image `bin_name`.
pub fn cue_file_result(bin_name: &str, outcome: CueOutcome) -> (r: CueFileResult)
    ensures
        r@ == cue_file_result_spec(bin_name@, outcome),
{
    match outcome {
        CueOutcome::AlreadyExists => CueFileResult {
            file: owned(bin_name),
            status: owned("skipped"),
            msg: owned(".cue already exists"),
        },
        CueOutcome::Written => {
            let mut msg = owned("Created ");
            let name = cue_file_name(bin_name);
            push_str(&mut msg, name.as_str());
            CueFileResult { file: owned(bin_name), status: owned("ok"), msg }
        },
        CueOutcome::WriteFailed(e) => CueFileResult {
            file: owned(bin_name),
            status: owned("error"),
            msg: e,
        },
    }
}

/// The outcome when the file dialog was cancelled: nothing to report.
pub fn cue_canceled() -> (r: CueResult)
    ensures
        r.canceled,
        r.results@.len() == 0,
{
    CueResult { canceled: true, results: Vec::new() }
}

/// The outcome of a run over the picked files.
pub fn cue_done(results: Vec<CueFileResult>) -> (r: CueResult)
    ensures
        !r.canceled,
        r.results@ == results@,
{
    CueResult { canceled: false, results }
}

} // verus!

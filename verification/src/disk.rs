//! Disk usage: reading `df -B1 --output=target,size,used` output and choosing
//! the internal storage and the SD card to report.
use vstd::prelude::*;

use crate::text::{
    chars_of, lines, parse_u64, parse_u64_spec, push_str, split_lines, split_words,
    string_from_chars, words,
};

verus! {

/// Usage of one mounted file system.
pub struct DiskInfo {
    pub kind: String,
    pub mount: String,
    pub label: String,
    pub total: u64,
    pub used: u64,
}

/// The contents of a [`DiskInfo`].
pub struct DiskInfoView {
    pub kind: Seq<char>,
    pub mount: Seq<char>,
    pub label: Seq<char>,
    pub total: u64,
    pub used: u64,
}

impl View for DiskInfo {
    type V = DiskInfoView;

    open spec fn view(&self) -> DiskInfoView {
        DiskInfoView {
            kind: self.kind@,
            mount: self.mount@,
            label: self.label@,
            total: self.total,
            used: self.used,
        }
    }
}

/// The first of the given `df` lines that has at least three fields decides:
/// its first field is the mount point, and its second and third must parse as
/// the size and the used bytes, or there is no entry.
pub open spec fn df_scan(ls: Seq<Seq<char>>) -> Option<(Seq<char>, u64, u64)>
    decreases ls.len(),
{
    if ls.len() == 0 {
        None
    } else {
        let f = words(ls[0]);
        if f.len() >= 3 {
            match (parse_u64_spec(f[1]), parse_u64_spec(f[2])) {
                (Some(t), Some(u)) => Some((f[0], t, u)),
                _ => None,
            }
        } else {
            df_scan(ls.drop_first())
        }
    }
}

/// The entry that `df` output holds, its header line skipped.
pub open spec fn df_entry(out: Seq<char>) -> Option<(Seq<char>, u64, u64)> {
    let ls = lines(out);
    if ls.len() == 0 {
        None
    } else {
        df_scan(ls.drop_first())
    }
}

/// The disk described by `df` output, with the given kind and label.
pub open spec fn df_disk(out: Seq<char>, kind: Seq<char>, label: Seq<char>) -> Option<
    DiskInfoView,
> {
    match df_entry(out) {
        Some((m, t, u)) => Some(DiskInfoView { kind, mount: m, label, total: t, used: u }),
        None => None,
    }
}

/// Whether an optional disk holds the given view, or both are absent.
pub open spec fn disk_matches(r: Option<DiskInfo>, v: Option<DiskInfoView>) -> bool {
    match v {
        Some(d) => r matches Some(x) && x@ == d,
        None => r is None,
    }
}

/// Reads the output of `df -B1 --output=target,size,used <path>` into a [`DiskInfo`]
/// with the given kind and label.
pub fn parse_df_output(stdout: &str, kind: &str, label: &str) -> (r: Option<DiskInfo>)
    ensures
        disk_matches(r, df_disk(stdout@, kind@, label@)),
{
    let cs = chars_of(stdout);
    let ls = split_lines(&cs);
    if ls.len() == 0 {
        return None;
    }
    let ghost all = lines(stdout@);
    let mut i: usize = 1;
    assert(all.drop_first().skip(0) =~= all.drop_first());
    while i < ls.len()
        invariant
            1 <= i <= ls@.len(),
            ls@.len() == all.len(),
            all == lines(stdout@),
            cs@ == stdout@,
            forall|k: int| 0 <= k < ls@.len() ==> #[trigger] ls@[k]@ == all[k],
            df_scan(all.drop_first().skip(i - 1)) == df_entry(stdout@),
        decreases ls@.len() - i,
    {
        let f = split_words(&ls[i]);
        let ghost rest = all.drop_first().skip(i - 1);
        assert(rest[0] == ls@[i as int]@);
        if f.len() >= 3 {
            assert(f@[1]@ == words(rest[0])[1]);
            assert(f@[2]@ == words(rest[0])[2]);
            assert(f@[0]@ == words(rest[0])[0]);
            let total = parse_u64(&f[1]);
            let used = parse_u64(&f[2]);
            match (total, used) {
                (Some(t), Some(u)) => {
                    let mount = string_from_chars(f[0].as_slice());
                    let k = string_from_chars(chars_of(kind).as_slice());
                    let l = string_from_chars(chars_of(label).as_slice());
                    return Some(DiskInfo { kind: k, mount, label: l, total: t, used: u });
                },
                _ => {
                    return None;
                },
            }
        }
        assert(rest.drop_first() =~= all.drop_first().skip(i as int));
        i = i + 1;
    }
    assert(all.drop_first().skip(i - 1) =~= Seq::<Seq<char>>::empty());
    None
}

/// Whether a directory is a mount point, from its device id and its parent's
/// (each absent when it could not be read): it is one when both are known and differ.
pub fn is_mountpoint(dev: Option<u64>, parent_dev: Option<u64>) -> (b: bool)
    ensures
        b == (dev is Some && parent_dev is Some && dev->0 != parent_dev->0),
{
    match (dev, parent_dev) {
        (Some(d), Some(p)) => d != p,
        _ => false,
    }
}

/// The disks to report: the internal storage (the file system of `/home`, or of
/// `/` when that could not be read), then the SD card when one was found.
pub fn disk_list(home: Option<DiskInfo>, root: Option<DiskInfo>, sd: Option<DiskInfo>) -> (r: Vec<
    DiskInfo,
>)
    ensures
        r@.len() == (if home is Some || root is Some {
            1int
        } else {
            0int
        }) + (if sd is Some {
            1int
        } else {
            0int
        }),
        home matches Some(h) ==> r@[0] == h,
        home is None && root is Some ==> r@[0] == root->0,
        sd matches Some(s) ==> r@[r@.len() - 1] == s,
{
    let mut disks: Vec<DiskInfo> = Vec::new();
    if let Some(d) = home {
        disks.push(d);
    } else if let Some(d) = root {
        disks.push(d);
    }
    if let Some(s) = sd {
        disks.push(s);
    }
    disks
}

/// A directory under `/run/media` that may hold the SD card: its path, its last
/// component (absent when it has none), and whether it is a mount point.
pub struct SdCandidate {
    pub path: String,
    pub name: Option<String>,
    pub mountpoint: bool,
}

/// The label of an SD card mounted at a directory with the given name.
pub open spec fn sd_label(name: Option<Seq<char>>) -> Seq<char> {
    match name {
        Some(n) => "SD Card ("@ + n + ")"@,
        None => "SD Card ("@ + "SD Card"@ + ")"@,
    }
}

/// The label shown for an SD card mounted at a directory named `name`.
pub fn sd_card_label(name: &Option<String>) -> (r: String)
    ensures
        r@ == sd_label(
            match name {
                Some(n) => Some(n@),
                None => None,
            },
        ),
{
    let mut r = String::new();
    push_str(&mut r, "SD Card (");
    match name {
        Some(n) => push_str(&mut r, n.as_str()),
        None => push_str(&mut r, "SD Card"),
    }
    push_str(&mut r, ")");
    r
}

/// The candidates in the order they are tried: the directories directly under
/// `/run/media` first, then those one level deeper.
pub fn sd_candidates(top: Vec<SdCandidate>, nested: Vec<SdCandidate>) -> (r: Vec<SdCandidate>)
    ensures
        r@ == top@ + nested@,
{
    let mut r = top;
    let mut nested = nested;
    r.append(&mut nested);
    r
}

/// What to do next in the search for the SD card.
pub enum SdStep {
    /// Run `df` on the candidate at this index.
    Probe(usize),
    /// The SD card is found.
    Found(DiskInfo),
    /// No candidate holds the SD card.
    NotFound,
}

/// The name of a candidate as a spec value.
pub open spec fn cand_name(c: SdCandidate) -> Option<Seq<char>> {
    match c.name {
        Some(n) => Some(n@),
        None => None,
    }
}

/// The first mount-point candidate at or after `start`.
pub open spec fn next_mount(cands: Seq<SdCandidate>, start: int) -> Option<int>
    decreases cands.len() - start,
{
    if start < 0 || start >= cands.len() {
        None
    } else if cands[start].mountpoint {
        Some(start)
    } else {
        next_mount(cands, start + 1)
    }
}

/// The step of the search that follows `df` output `out` for the candidate at
/// `at`: that candidate is the SD card when the output holds an entry; otherwise
/// the next mount point after it is probed, or the search ends.
pub open spec fn sd_step_spec(
    cands: Seq<SdCandidate>,
    at: Option<int>,
    out: Option<Seq<char>>,
) -> (Option<DiskInfoView>, Option<int>) {
    let found = match (at, out) {
        (Some(i), Some(o)) => df_disk(o, "sd"@, sd_label(cand_name(cands[i]))),
        _ => None,
    };
    if found is Some {
        (found, None)
    } else {
        (
            None,
            next_mount(
                cands,
                match at {
                    Some(i) => i + 1,
                    None => 0,
                },
            ),
        )
    }
}

/// One step of the search for the SD card among `cands`. `at` is the candidate
/// that `df` was last run on and `df_output` what it printed (absent when it
/// failed); at the start both are absent. The first mount-point candidate whose
/// `df` output holds an entry is the SD card, of kind `sd`.
pub fn find_sd_card(cands: &Vec<SdCandidate>, at: Option<usize>, df_output: Option<&str>) -> (r:
    SdStep)
    requires
        at matches Some(i) ==> i < cands@.len(),
    ensures
        ({
            let (found, probe) = sd_step_spec(
                cands@,
                match at {
                    Some(i) => Some(i as int),
                    None => None,
                },
                match df_output {
                    Some(o) => Some(o@),
                    None => None,
                },
            );
            match r {
                SdStep::Found(d) => found == Some(d@),
                SdStep::Probe(j) => found is None && probe == Some(j as int),
                SdStep::NotFound => found is None && probe is None,
            }
        }),
{
    let ghost at_spec = match at {
        Some(i) => Some(i as int),
        None => None,
    };
    let ghost out_spec = match df_output {
        Some(o) => Some(o@),
        None => None,
    };
    let ghost spec_step = sd_step_spec(cands@, at_spec, out_spec);
    match (at, df_output) {
        (Some(i), Some(out)) => {
            let label = sd_card_label(&cands[i].name);
            let d = parse_df_output(out, "sd", label.as_str());
            match d {
                Some(d) => {
                    return SdStep::Found(d);
                },
                None => {},
            }
        },
        _ => {},
    }
    assert(spec_step.0 is None);
    let mut j: usize = match at {
        Some(i) => if i < cands.len() {
            i + 1
        } else {
            cands.len()
        },
        None => 0,
    };
    let ghost start = j as int;
    assert(spec_step.1 == next_mount(cands@, start));
    while j < cands.len()
        invariant
            start <= j <= cands@.len(),
            next_mount(cands@, start) == next_mount(cands@, j as int),
            spec_step == sd_step_spec(cands@, at_spec, out_spec),
            spec_step == (None::<DiskInfoView>, next_mount(cands@, start)),
            at_spec == (match at {
                Some(i) => Some(i as int),
                None => None,
            }),
            out_spec == (match df_output {
                Some(o) => Some(o@),
                None => None,
            }),
        decreases cands@.len() - j,
    {
        if cands[j].mountpoint {
            return SdStep::Probe(j);
        }
        j = j + 1;
    }
    SdStep::NotFound
}


/// The first mount-point candidate at or after `start` whose `df` output (as given
/// in `outs`) holds an entry, as the SD card.
pub open spec fn sd_first(
    cands: Seq<SdCandidate>,
    outs: Seq<Option<Seq<char>>>,
    start: int,
) -> Option<DiskInfoView>
    decreases cands.len() - start,
{
    if start < 0 || start >= cands.len() {
        None
    } else {
        let here = match outs[start] {
            Some(o) => df_disk(o, "sd"@, sd_label(cand_name(cands[start]))),
            None => None,
        };
        if cands[start].mountpoint && here is Some {
            here
        } else {
            sd_first(cands, outs, start + 1)
        }
    }
}

/// `next_mount` finds a mount point at or after where it starts, and none before it.
pub proof fn lemma_next_mount(cands: Seq<SdCandidate>, start: int)
    requires
        0 <= start,
    ensures
        next_mount(cands, start) matches Some(j) ==> start <= j < cands.len()
            && cands[j].mountpoint,
        forall|k: int|
            start <= k < cands.len() && (next_mount(cands, start) matches Some(j) ==> k < j)
                ==> !(#[trigger] cands[k]).mountpoint,
    decreases cands.len() - start,
{
    if start < cands.len() && !cands[start].mountpoint {
        lemma_next_mount(cands, start + 1);
    }
}

/// The outcome of running the search step by step from the candidate at `at`,
/// `df` printing `outs[i]` for candidate `i`.
pub open spec fn sd_run(
    cands: Seq<SdCandidate>,
    outs: Seq<Option<Seq<char>>>,
    at: Option<int>,
) -> Option<DiskInfoView>
    decreases cands.len() - (match at {
        Some(i) => i + 1,
        None => 0,
    }),
{
    let out = match at {
        Some(i) => outs[i],
        None => None,
    };
    let (found, probe) = sd_step_spec(cands, at, out);
    if found is Some {
        found
    } else {
        match probe {
            Some(j) => {
                proof {
                    lemma_next_mount(
                        cands,
                        match at {
                            Some(i) => if i + 1 >= 0 {
                                i + 1
                            } else {
                                0
                            },
                            None => 0,
                        },
                    );
                }
                if j >= (match at {
                    Some(i) => i + 1,
                    None => 0,
                }) && j < cands.len() {
                    sd_run(cands, outs, Some(j))
                } else {
                    None
                }
            },
            None => None,
        }
    }
}

/// Driving `find_sd_card` from the start, running `df` on each candidate it asks
/// for, reports the first mount-point candidate (in the order given) whose `df`
/// output holds an entry, and nothing when there is none.
pub proof fn law_sd_search_first(cands: Seq<SdCandidate>, outs: Seq<Option<Seq<char>>>)
    requires
        outs.len() == cands.len(),
    ensures
        sd_run(cands, outs, None) == sd_first(cands, outs, 0),
{
    lemma_sd_run_from(cands, outs, None);
}

proof fn lemma_sd_first_skip(
    cands: Seq<SdCandidate>,
    outs: Seq<Option<Seq<char>>>,
    start: int,
    stop: int,
)
    requires
        0 <= start <= stop <= cands.len(),
        forall|k: int| start <= k < stop ==> !(#[trigger] cands[k]).mountpoint,
    ensures
        sd_first(cands, outs, start) == sd_first(cands, outs, stop),
    decreases stop - start,
{
    if start < stop {
        lemma_sd_first_skip(cands, outs, start + 1, stop);
    }
}

proof fn lemma_sd_run_from(
    cands: Seq<SdCandidate>,
    outs: Seq<Option<Seq<char>>>,
    at: Option<int>,
)
    requires
        outs.len() == cands.len(),
        at matches Some(i) ==> 0 <= i < cands.len() && cands[i].mountpoint,
    ensures
        sd_run(cands, outs, at) == (match at {
            Some(i) => sd_first(cands, outs, i),
            None => sd_first(cands, outs, 0),
        }),
    decreases cands.len() - (match at {
        Some(i) => i + 1,
        None => 0,
    }),
{
    let start = match at {
        Some(i) => i + 1,
        None => 0,
    };
    lemma_next_mount(cands, start);
    let out = match at {
        Some(i) => outs[i],
        None => None,
    };
    let (found, probe) = sd_step_spec(cands, at, out);
    if found is Some {
    } else {
        let stop = match probe {
            Some(j) => j,
            None => cands.len() as int,
        };
        lemma_sd_first_skip(cands, outs, start, stop);
        if let Some(j) = probe {
            lemma_sd_run_from(cands, outs, Some(j));
        }
    }
}

} // verus!

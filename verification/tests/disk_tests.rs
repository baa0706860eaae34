use deck_toolbox::disk::{
    disk_list, find_sd_card, is_mountpoint, parse_df_output, sd_candidates, sd_card_label,
    DiskInfo, SdCandidate, SdStep,
};

const DF_HOME: &str = "Mounted on          1B-blocks        Used\n/home            498213588992 98765432109\n";

fn disk(kind: &str, mount: &str, label: &str, total: u64, used: u64) -> DiskInfo {
    DiskInfo {
        kind: kind.to_string(),
        mount: mount.to_string(),
        label: label.to_string(),
        total,
        used,
    }
}

fn same(a: &DiskInfo, b: &DiskInfo) -> bool {
    a.kind == b.kind && a.mount == b.mount && a.label == b.label && a.total == b.total
        && a.used == b.used
}

#[test]
fn df_output_is_read() {
    let d = parse_df_output(DF_HOME, "internal", "Internal Storage").unwrap();
    assert!(same(&d, &disk("internal", "/home", "Internal Storage", 498213588992, 98765432109)));
}

#[test]
fn df_header_only_gives_nothing() {
    assert!(parse_df_output("Mounted on 1B-blocks Used\n", "internal", "x").is_none());
    assert!(parse_df_output("", "internal", "x").is_none());
}

#[test]
fn df_short_lines_are_skipped() {
    let out = "Mounted on 1B-blocks Used\n\nonly two\n/run/media/sd 100 40\n";
    let d = parse_df_output(out, "sd", "SD Card (sd)").unwrap();
    assert_eq!(d.mount, "/run/media/sd");
    assert_eq!(d.total, 100);
    assert_eq!(d.used, 40);
}

#[test]
fn df_bad_numbers_give_nothing() {
    let out = "Mounted on 1B-blocks Used\n/ 12x 5\n/home 100 40\n";
    assert!(parse_df_output(out, "internal", "x").is_none());
}

#[test]
fn mountpoint_needs_both_devices_different() {
    assert!(is_mountpoint(Some(2049), Some(2050)));
    assert!(!is_mountpoint(Some(2049), Some(2049)));
    assert!(!is_mountpoint(None, Some(1)));
    assert!(!is_mountpoint(Some(1), None));
}

#[test]
fn internal_storage_prefers_home() {
    let l = disk_list(
        Some(disk("internal", "/home", "Internal Storage", 10, 5)),
        Some(disk("internal", "/", "Internal Storage", 20, 6)),
        None,
    );
    assert_eq!(l.len(), 1);
    assert_eq!(l[0].mount, "/home");
    let l2 = disk_list(None, Some(disk("internal", "/", "Internal Storage", 20, 6)), Some(disk(
        "sd",
        "/run/media/deck/SD",
        "SD Card (SD)",
        30,
        7,
    )));
    assert_eq!(l2.len(), 2);
    assert_eq!(l2[0].mount, "/");
    assert_eq!(l2[1].kind, "sd");
    assert_eq!(disk_list(None, None, None).len(), 0);
}

#[test]
fn sd_label_names_the_directory() {
    assert_eq!(sd_card_label(&Some("deck".to_string())), "SD Card (deck)");
    assert_eq!(sd_card_label(&None), "SD Card (SD Card)");
}

fn cand(path: &str, name: &str, mountpoint: bool) -> SdCandidate {
    SdCandidate { path: path.to_string(), name: Some(name.to_string()), mountpoint }
}

fn run_search(cands: &Vec<SdCandidate>, outputs: &[Option<&str>]) -> (Option<DiskInfo>, Vec<usize>) {
    let mut probed = Vec::new();
    let mut at = None;
    let mut out: Option<&str> = None;
    loop {
        match find_sd_card(cands, at, out) {
            SdStep::Probe(j) => {
                probed.push(j);
                at = Some(j);
                out = outputs[j];
            }
            SdStep::Found(d) => return (Some(d), probed),
            SdStep::NotFound => return (None, probed),
        }
    }
}

#[test]
fn sd_search_takes_first_mountpoint_with_df_entry() {
    let cands = sd_candidates(
        vec![cand("/run/media/deck", "deck", false), cand("/run/media/usb", "usb", true)],
        vec![cand("/run/media/deck/SD", "SD", true), cand("/run/media/deck/X", "X", true)],
    );
    let outputs = [
        None,
        Some("Mounted on 1B-blocks Used\n"),
        Some("Mounted on 1B-blocks Used\n/run/media/deck/SD 1000 10\n"),
        Some("Mounted on 1B-blocks Used\n/run/media/deck/X 2000 20\n"),
    ];
    let (found, probed) = run_search(&cands, &outputs);
    let d = found.unwrap();
    assert_eq!(probed, vec![1, 2]);
    assert!(same(&d, &disk("sd", "/run/media/deck/SD", "SD Card (SD)", 1000, 10)));
}

#[test]
fn sd_search_without_mountpoints_finds_nothing() {
    let cands = vec![cand("/run/media/deck", "deck", false)];
    let (found, probed) = run_search(&cands, &[None]);
    assert!(found.is_none());
    assert!(probed.is_empty());
    let (found2, _) = run_search(&vec![], &[]);
    assert!(found2.is_none());
}

#[test]
fn sd_search_skips_failed_df() {
    let cands = vec![cand("/a", "a", true), cand("/b", "b", true)];
    let outputs = [None, Some("h\n/b 5 1\n")];
    let (found, probed) = run_search(&cands, &outputs);
    assert_eq!(probed, vec![0, 1]);
    assert_eq!(found.unwrap().label, "SD Card (b)");
}

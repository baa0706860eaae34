use deck_toolbox::backups::{backup_error, backup_report, is_steam_backup, read_dir_error};
use deck_toolbox::cue::{cue_action, cue_canceled, cue_done, cue_file_name, cue_file_result, cue_sheet, CueAction, CueOutcome};
use deck_toolbox::paths::{config_dir_in, password_file, password_file_in, path_join, script_cache_dir_in, steam_share_dir_in};
use deck_toolbox::scripts::{
    chpasswd_command, chpasswd_input, delete_files_report, export_log_result, has_password, host_command, job_script, line_of,
    passwd_command, remote_mkdir_command, remote_run_command, remote_script_path, script_command,
    script_result, scripts_dir, set_password_result, shell_quote, sudo_probe_command,
    sudo_validate_command, sudo_wrapper, url_opener, ScriptJob, ScriptResult, SudoPassword,
    TrashOutcome,
};
use deck_toolbox::transport::{deck_address, platform_name, windows_only_message, DeckConnection};

fn v(xs: &[&str]) -> Vec<String> {
    xs.iter().map(|s| s.to_string()).collect()
}

#[test]
fn host_commands() {
    assert_eq!(host_command(false, "bash"), v(&["bash"]));
    assert_eq!(host_command(true, "bash"), v(&["flatpak-spawn", "--host", "bash"]));
    assert_eq!(sudo_validate_command(false), v(&["sudo", "-S", "-v"]));
    assert_eq!(sudo_probe_command(true), v(&["flatpak-spawn", "--host", "sudo", "-S", "true"]));
    assert_eq!(chpasswd_command(false), v(&["sudo", "-S", "chpasswd"]));
    assert_eq!(passwd_command(false), v(&["passwd", "--stdin", "deck"]));
}

#[test]
fn script_command_lines() {
    let args = v(&["1", "two words"]);
    assert_eq!(
        script_command(false, "/home/deck/.cache/deck-toolbox/scripts/x.sh", &args, false),
        v(&["bash", "/home/deck/.cache/deck-toolbox/scripts/x.sh", "1", "two words"])
    );
    let with_sudo = script_command(true, "/s.sh", &args, true);
    assert_eq!(with_sudo.len(), 9);
    assert_eq!(&with_sudo[..4], &v(&["flatpak-spawn", "--host", "bash", "-c"])[..]);
    assert_eq!(with_sudo[4], sudo_wrapper());
    assert_eq!(&with_sudo[5..], &v(&["--", "/s.sh", "1", "two words"])[..]);
    assert!(sudo_wrapper().contains("read -r DT_SUDO_PASS"));
    assert!(sudo_wrapper().ends_with("bash \"$1\" \"${@:2}\" </dev/null\n"));
}

#[test]
fn stdin_payloads() {
    assert_eq!(line_of("secret"), "secret\n");
    assert_eq!(chpasswd_input("n3w"), "\ndeck:n3w\n");
}

#[test]
fn exit_codes() {
    let r = script_result(Some(3), "out".to_string(), "err".to_string());
    assert_eq!((r.code, r.stdout.as_str(), r.stderr.as_str()), (3, "out", "err"));
    assert_eq!(script_result(None, String::new(), String::new()).code, -1);
}

#[test]
fn password_detection() {
    assert!(!has_password(Some(true)));
    assert!(has_password(Some(false)));
    assert!(has_password(None));
}

#[test]
fn set_password_falls_back_to_passwd() {
    let first = ScriptResult { code: 0, stdout: "ok".into(), stderr: String::new() };
    assert_eq!(set_password_result(first, true, None).unwrap().stdout, "ok");
    let failed = ScriptResult { code: 1, stdout: String::new(), stderr: "no".into() };
    let second = ScriptResult { code: 0, stdout: "passwd".into(), stderr: String::new() };
    assert_eq!(set_password_result(failed, false, Some(second)).unwrap().stdout, "passwd");
}

#[test]
fn sudo_password_state() {
    let mut s = SudoPassword::new();
    assert!(s.current().is_none());
    s.record_validation("bad".to_string(), 1);
    assert!(s.current().is_none());
    s.record_validation("good".to_string(), 0);
    assert_eq!(s.current().unwrap(), "good");
    s.record_validation("worse".to_string(), 1);
    assert_eq!(s.current().unwrap(), "good");
    let (pw, remove) = s.accept_saved("saved".to_string(), Some(true));
    assert_eq!((pw.as_str(), remove), ("saved", false));
    assert_eq!(s.current().unwrap(), "saved");
    let (pw2, remove2) = s.accept_saved("stale".to_string(), Some(false));
    assert_eq!((pw2.as_str(), remove2), ("", true));
    let (pw3, remove3) = s.accept_saved("x".to_string(), None);
    assert_eq!((pw3.as_str(), remove3), ("", true));
    assert_eq!(s.current().unwrap(), "saved");
    s.store("stored".to_string());
    assert_eq!(s.current().unwrap(), "stored");
}

#[test]
fn saved_password_round_trip() {
    let saved = deck_toolbox::base64::base64_encode("deck pw");
    assert_eq!(saved, "ZGVjayBwdw==");
    assert_eq!(deck_toolbox::base64::base64_decode(&format!("{}\n", saved)).unwrap(), "deck pw");
}

#[test]
fn export_log_results() {
    assert_eq!(export_log_result(Some("/tmp/log.txt".to_string())), "/tmp/log.txt");
    assert_eq!(export_log_result(None), "cancelled");
}

#[test]
fn trash_report_lists_moves_then_failures() {
    let files = v(&["/a.iso", "/b.iso", "/c.iso"]);
    let outcomes = vec![
        TrashOutcome::Failed("  gio: no such file \n".to_string()),
        TrashOutcome::Trashed,
        TrashOutcome::NotRun("No such file or directory (os error 2)".to_string()),
    ];
    let r = delete_files_report(&files, &outcomes);
    assert_eq!(r.code, 1);
    assert_eq!(
        r.stdout,
        "Trashed: /b.iso\nFailed: /a.iso - gio: no such file\nFailed: /c.iso - No such file or directory (os error 2)\n\n1 moved to Trash, 2 failed.\n"
    );
    assert_eq!(r.stderr, "");
}

#[test]
fn trash_report_empty_and_success() {
    let r = delete_files_report(&vec![], &vec![]);
    assert_eq!((r.code, r.stdout.as_str()), (0, "No files selected.\n"));
    let r2 = delete_files_report(&v(&["/x"]), &vec![TrashOutcome::Trashed]);
    assert_eq!((r2.code, r2.stdout.as_str()), (0, "Trashed: /x\n\n1 moved to Trash, 0 failed.\n"));
}

#[test]
fn script_jobs() {
    let (name, args) = job_script(&ScriptJob::Maintenance { force_heavy: "true".into() });
    assert_eq!((name.as_str(), args), ("maintenance.sh", v(&["true"])));
    let (name, args) = job_script(&ScriptJob::SteamReset);
    assert_eq!((name.as_str(), args.len()), ("steam-reset.sh", 0));
    let (name, args) = job_script(&ScriptJob::RomFinder { search: "mario".into(), paths: v(&["/r1", "/r2"]) });
    assert_eq!((name.as_str(), args), ("rom_finder.sh", v(&["mario", "/r1", "/r2"])));
    let (name, args) = job_script(&ScriptJob::FixRomPaths { mode: "scan".into(), paths: v(&["/p"]) });
    assert_eq!((name.as_str(), args), ("fix_rom_paths.sh", v(&["scan", "/p"])));
    let (name, args) = job_script(&ScriptJob::RebalanceRoms {
        mode: "m".into(),
        internal_root: "/i".into(),
        sd_root: "/s".into(),
        strategy: "st".into(),
        threshold: "80".into(),
    });
    assert_eq!((name.as_str(), args), ("rebalance_roms.sh", v(&["m", "/i", "/s", "st", "80"])));
    let (name, args) = job_script(&ScriptJob::LargeFileFinder { exclude_roms: "1".into(), mode: "files".into(), count: "20".into() });
    assert_eq!((name.as_str(), args), ("large_file_finder.sh", v(&["1", "files", "20"])));
    let (name, _) = job_script(&ScriptJob::GamescopeReset);
    assert_eq!(name, "gamescope-reset.sh");
    let (name, _) = job_script(&ScriptJob::UninstallDecky);
    assert_eq!(name, "uninstall_decky.sh");
}

#[test]
fn paths_are_joined() {
    assert_eq!(path_join(b"/home/deck", "x"), b"/home/deck/x".to_vec());
    assert_eq!(path_join(b"/", "x"), b"/x".to_vec());
    assert_eq!(path_join(b"", "x"), b"x".to_vec());
    assert_eq!(config_dir_in(b"/home/deck"), b"/home/deck/.config/deck-toolbox".to_vec());
    assert_eq!(
        password_file_in(Some(b"/home/deck".to_vec())).unwrap(),
        b"/home/deck/.config/deck-toolbox/.credentials".to_vec()
    );
    assert_eq!(password_file_in(None).unwrap_err(), "Cannot find home directory");
    assert_eq!(script_cache_dir_in(b"/home/deck/"), b"/home/deck/.cache/deck-toolbox/scripts".to_vec());
    assert_eq!(steam_share_dir_in(b"/home/deck"), b"/home/deck/.local/share".to_vec());
    assert_eq!(scripts_dir(true, b"/usr/lib/deck-toolbox"), b"/app/share/deck-toolbox/scripts".to_vec());
    assert_eq!(scripts_dir(false, b"/usr/lib/deck-toolbox"), b"/usr/lib/deck-toolbox/resources/scripts".to_vec());
}

#[test]
fn home_that_is_not_utf8_is_kept() {
    let home: Vec<u8> = vec![b'/', b'h', 0xff, 0xfe, b'x'];
    let mut expected = home.clone();
    expected.extend_from_slice(b"/.config/deck-toolbox/.credentials");
    assert_eq!(password_file_in(Some(home.clone())).unwrap(), expected);
    let mut share = home.clone();
    share.extend_from_slice(b"/.local/share");
    assert_eq!(steam_share_dir_in(&home), share);
    let mut cache = home.clone();
    cache.extend_from_slice(b"/.cache/deck-toolbox/scripts");
    assert_eq!(script_cache_dir_in(&home), cache);
    let mut res = home.clone();
    res.extend_from_slice(b"/resources/scripts");
    assert_eq!(scripts_dir(false, &home), res);
}

#[test]
fn password_file_of_current_user() {
    match password_file() {
        Ok(p) => assert!(p.ends_with(b"/.config/deck-toolbox/.credentials")),
        Err(e) => assert_eq!(e, "Cannot find home directory"),
    }
}

#[test]
fn url_openers() {
    assert_eq!(url_opener("linux", "https://x"), v(&["xdg-open", "https://x"]));
    assert_eq!(url_opener("windows", "https://x"), v(&["cmd", "/C", "start", "https://x"]));
    assert_eq!(url_opener("macos", "https://x"), v(&["open", "https://x"]));
    assert!(url_opener("freebsd", "https://x").is_empty());
}

#[test]
fn remote_commands() {
    assert_eq!(shell_quote("a b"), "'a b'");
    assert_eq!(shell_quote("it's"), "'it'\\''s'");
    assert_eq!(remote_mkdir_command(), "mkdir -p '/home/deck/.cache/deck-toolbox/scripts'");
    let p = remote_script_path("x.sh");
    assert_eq!(p, "/home/deck/.cache/deck-toolbox/scripts/x.sh");
    assert_eq!(remote_run_command(&p, &v(&["a", "b'c"])), "bash '/home/deck/.cache/deck-toolbox/scripts/x.sh' 'a' 'b'\\''c'");
    assert_eq!(remote_run_command("/s.sh", &vec![]), "bash '/s.sh' ");
}

#[test]
fn backups_report() {
    assert!(is_steam_backup("Steam_backup_1"));
    assert!(!is_steam_backup("Steam"));
    assert_eq!(backup_error("Steam_backup_1", "denied"), "Failed to delete Steam_backup_1: denied");
    assert_eq!(read_dir_error("gone"), "Could not read directory: gone");
    let none = backup_report(&vec![], &vec![]);
    assert_eq!((none.code, none.stdout.as_str(), none.stderr.as_str()), (0, "No backup folders found.\n", ""));
    let r = backup_report(&v(&["Steam_backup_a", "Steam_backup_b"]), &v(&["Failed to delete Steam_backup_c: x"]));
    assert_eq!(r.code, 1);
    assert_eq!(r.stdout, "Deleted:\n  - Steam_backup_a\n  - Steam_backup_b\n");
    assert_eq!(r.stderr, "Failed to delete Steam_backup_c: x\n");
    let ok = backup_report(&v(&["Steam_backup_a"]), &vec![]);
    assert_eq!((ok.code, ok.stderr.as_str()), (0, ""));
    let bad = backup_report(&vec![], &v(&["e1", "e2"]));
    assert_eq!((bad.code, bad.stdout.as_str(), bad.stderr.as_str()), (1, "", "e1\ne2\n"));
}

#[test]
fn cue_sheets() {
    assert_eq!(cue_sheet("game.bin"), "FILE \"game.bin\" BINARY\n  TRACK 01 MODE2/2352\n    INDEX 01 00:00:00\n");
    assert_eq!(cue_file_name("game.bin"), "game.cue");
    assert_eq!(cue_file_name("game.disc1.bin"), "game.disc1.cue");
    assert_eq!(cue_file_name("noext"), "noext.cue");
    assert_eq!(cue_file_name(".hidden"), ".hidden.cue");
    assert_eq!(cue_file_name("trail."), "trail.cue");
    for name in ["game.bin", "game.disc1.bin", "noext", ".hidden", "trail.", "a..b", "..."] {
        let p = std::path::Path::new("/roms").join(name).with_extension("cue");
        assert_eq!(cue_file_name(name), p.file_name().unwrap().to_string_lossy());
    }
    let s = cue_file_result("g.bin", CueOutcome::AlreadyExists);
    assert_eq!((s.file.as_str(), s.status.as_str(), s.msg.as_str()), ("g.bin", "skipped", ".cue already exists"));
    let o = cue_file_result("g.bin", CueOutcome::Written);
    assert_eq!((o.status.as_str(), o.msg.as_str()), ("ok", "Created g.cue"));
    let e = cue_file_result("g.bin", CueOutcome::WriteFailed("Permission denied (os error 13)".into()));
    assert_eq!((e.status.as_str(), e.msg.as_str()), ("error", "Permission denied (os error 13)"));
    let c = cue_canceled();
    assert!(c.canceled && c.results.is_empty());
    let d = cue_done(vec![o]);
    assert!(!d.canceled && d.results.len() == 1);
}

#[test]
fn deck_connection_state() {
    let mut c = DeckConnection::new();
    assert!(!c.is_connected());
    assert_eq!(c.current_credentials().err().unwrap(), "Not connected to a Steam Deck. Use the Connect screen first.");
    let r = c.connect("10.0.0.2".into(), "pw".into(), Err("ssh handshake: timeout".into()));
    assert_eq!(r.unwrap_err(), "ssh handshake: timeout");
    assert!(!c.is_connected());
    assert!(c.connect("10.0.0.2".into(), "pw".into(), Ok(())).is_ok());
    assert!(c.is_connected());
    let creds = c.current_credentials().ok().unwrap();
    assert_eq!((creds.ip.as_str(), creds.password.as_str()), ("10.0.0.2", "pw"));
    assert!(c.disconnect().is_ok());
    assert!(!c.is_connected());
    assert!(c.current_credentials().is_err());
}

#[test]
fn transport_texts() {
    assert_eq!(platform_name("windows"), "windows");
    assert_eq!(platform_name("linux"), "linux");
    assert_eq!(platform_name("macos"), "macos");
    assert_eq!(platform_name("freebsd"), "other");
    assert_eq!(windows_only_message("connect_to_deck"), "connect_to_deck is only used in the Windows build of deck-toolbox.");
    assert_eq!(deck_address("192.168.1.5"), "192.168.1.5:22");
}

#[test]
fn existing_cue_is_never_overwritten() {
    assert!(matches!(cue_action("game.bin", true), CueAction::Skip));
    match cue_action("game.bin", false) {
        CueAction::Write { name, contents } => {
            assert_eq!(name, "game.cue");
            assert_eq!(contents, cue_sheet("game.bin"));
        }
        CueAction::Skip => panic!("expected a write"),
    }
}

#[test]
fn sudo_prelude_text() {
    let expected = r#"
read -r DT_SUDO_PASS
if ! printf '%s\n' "$DT_SUDO_PASS" | command sudo -S -v 2>/dev/null; then
    echo "Sudo authentication failed - check the password set via Unlock" >&2
    exit 64
fi
sudo() {
    local f=()
    local a
    for a in "$@"; do
        [[ "$a" != "-n" ]] && f+=("$a")
    done
    printf '%s\n' "$DT_SUDO_PASS" | command sudo -S "${f[@]}"
}
export -f sudo
bash "$1" "${@:2}" </dev/null
"#;
    assert_eq!(sudo_wrapper(), expected);
}

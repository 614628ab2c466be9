use easyadb::backup::{Backup, BackupAction, Member};
use easyadb::device::AppPackage;
use easyadb::restore::{ExtractedBackup, Restore};
use easyadb::transport::{Reply, Step};

fn s(x: &str) -> String {
    x.to_string()
}

fn package() -> AppPackage {
    AppPackage {
        name: s("com.example.app"),
        path: s("/data/app/~~r==/com.example.app-1/base.apk"),
        is_system: false,
    }
}

fn describe(a: &BackupAction) -> String {
    match a {
        BackupAction::Bridge(args) => format!("bridge {}", args.join(" ")),
        BackupAction::ClearDir(d) => format!("clear {}", d),
        BackupAction::MakeDir(d) => format!("mkdir {}", d),
        BackupAction::FileExists(f) => format!("exists {}", f),
        BackupAction::WriteContainer { dest, .. } => format!("write {}", dest),
        BackupAction::RemoveDir(d) => format!("remove {}", d),
        BackupAction::Finish(r) => format!("finish {:?}", r),
    }
}

/// Runs a backup, answering each action with `answer`, and returns the
/// actions in order (the last is the finish).
fn run_backup(mut answer: impl FnMut(&BackupAction) -> Reply) -> (Vec<String>, Vec<BackupAction>) {
    let mut b = Backup::new("dev1", package(), "/out/x.easybckp", "/tmp/work");
    let mut log = Vec::new();
    let mut actions = Vec::new();
    for _ in 0..100 {
        let a = b.pending();
        log.push(describe(&a));
        if let BackupAction::Finish(_) = a {
            actions.push(a);
            return (log, actions);
        }
        let reply = answer(&a);
        actions.push(a);
        b.step(reply);
    }
    panic!("backup did not finish");
}

fn is_listing(a: &BackupAction) -> bool {
    matches!(a, BackupAction::Bridge(args) if args.len() == 5 && args[3] == "ls" && args[4] == "/data/app/~~r==/com.example.app-1")
}

fn written(actions: &[BackupAction]) -> (usize, bool, usize) {
    for a in actions {
        if let BackupAction::WriteContainer { members, metadata, .. } = a {
            let apks = members
                .iter()
                .filter(|m| matches!(m, Member::Stored { name, .. } if name.starts_with("apks/")))
                .count();
            return (apks, metadata.is_split, members.len());
        }
    }
    panic!("no container written");
}

#[test]
fn single_apk_backup_is_not_split() {
    let (log, actions) = run_backup(|a| {
        if is_listing(a) {
            Ok(s("base.apk\n"))
        } else {
            Ok(s(""))
        }
    });
    let (apks, split, _) = written(&actions);
    assert_eq!(apks, 1);
    assert!(!split);
    assert!(log.contains(&s("bridge -s dev1 pull /data/app/~~r==/com.example.app-1/base.apk /tmp/work/com.example.app/apks/base.apk")));
    assert_eq!(log.last().unwrap(), "finish Ok(\"Backup created at /out/x.easybckp\")");
}

#[test]
fn listing_failure_falls_back_to_base_apk() {
    let (log, actions) = run_backup(|a| if is_listing(a) { Err(s("ls failed")) } else { Ok(s("")) });
    let (apks, split, _) = written(&actions);
    assert_eq!((apks, split), (1, false));
    assert!(log.contains(&s("bridge -s dev1 pull /data/app/~~r==/com.example.app-1/base.apk /tmp/work/com.example.app/apks/base.apk")));
}

#[test]
fn split_backup_has_one_entry_per_apk() {
    let (log, actions) = run_backup(|a| {
        if is_listing(a) {
            Ok(s("base.apk\nsplit_config.arm64_v8a.apk\r\n  split_config.en.apk \nlib\noat\n"))
        } else {
            Ok(s(""))
        }
    });
    let (apks, split, members) = written(&actions);
    assert_eq!(apks, 3);
    assert!(split);
    // three APKs, the OBB directory, the data archive, the descriptor
    assert_eq!(members, 6);
    assert!(log.contains(&s("bridge -s dev1 pull /data/app/~~r==/com.example.app-1/split_config.en.apk /tmp/work/com.example.app/apks/split_config.en.apk")));
    assert!(log.contains(&s("bridge -s dev1 shell su -c tar -czf /sdcard/easyadb_com.example.app_data.tar.gz -C /data/data com.example.app")));
}

#[test]
fn optional_parts_missing_still_back_up() {
    let (log, actions) = run_backup(|a| match a {
        BackupAction::Bridge(args) if args.contains(&s("-d")) => Err(s("no obb")),
        BackupAction::Bridge(args) if args.contains(&s("id")) => Err(s("no su")),
        a if is_listing(a) => Ok(s("base.apk\n")),
        _ => Ok(s("")),
    });
    let (apks, split, members) = written(&actions);
    assert_eq!((apks, split, members), (1, false, 2));
    assert!(log.last().unwrap().starts_with("finish Ok("));
}

#[test]
fn staging_removed_after_failed_pull() {
    let (log, _) = run_backup(|a| match a {
        BackupAction::Bridge(args) if args[2] == "pull" => Err(s("ADB Internal Error: failed to pull")),
        a if is_listing(a) => Ok(s("base.apk\nsplit.apk\n")),
        _ => Ok(s("")),
    });
    let n = log.len();
    assert_eq!(log[n - 2], "remove /tmp/work/com.example.app");
    assert_eq!(log[n - 1], "finish Err(\"ADB Internal Error: failed to pull\")");
}

#[test]
fn staging_removed_after_failed_write() {
    let (log, _) = run_backup(|a| match a {
        BackupAction::WriteContainer { .. } => Err(s("disk full")),
        a if is_listing(a) => Ok(s("base.apk\n")),
        _ => Ok(s("")),
    });
    let n = log.len();
    assert_eq!(log[0], "clear /tmp/work/com.example.app");
    assert_eq!(log[n - 2], "remove /tmp/work/com.example.app");
    assert_eq!(log[n - 1], "finish Err(\"disk full\")");
}

#[test]
fn staging_removed_after_success() {
    let (log, _) = run_backup(|a| if is_listing(a) { Ok(s("base.apk\n")) } else { Ok(s("")) });
    let n = log.len();
    assert_eq!(log[n - 2], "remove /tmp/work/com.example.app");
}

fn layout(apks: Option<Vec<&str>>, legacy: bool) -> ExtractedBackup {
    ExtractedBackup {
        staging: s("/tmp/restore/x"),
        apk_dir_files: apks.map(|v| v.into_iter().map(s).collect()),
        has_legacy_apk: legacy,
        obb_files: None,
        package_name: Some(s("com.example.app")),
        declares_data: false,
        has_data_archive: false,
    }
}

fn run_restore(mut r: Restore, mut answer: impl FnMut(&Vec<String>) -> Reply) -> (Vec<String>, Result<String, String>) {
    let mut log = Vec::new();
    for _ in 0..100 {
        match r.pending() {
            Step::Done(x) => return (log, x),
            Step::Run(args) => {
                log.push(args.join(" "));
                let reply = answer(&args);
                r.step(reply);
            }
        }
    }
    panic!("restore did not finish");
}

#[test]
fn install_without_success_marker_fails() {
    let r = Restore::new("dev1", layout(Some(vec!["base.apk", "split.apk", "notes.txt"]), false));
    let (log, result) = run_restore(r, |_| Ok(s("Performing Streamed Install\nFailure [INSTALL_FAILED_VERSION_DOWNGRADE]")));
    assert_eq!(log, vec![s("-s dev1 install-multiple -r /tmp/restore/x/apks/base.apk /tmp/restore/x/apks/split.apk")]);
    assert_eq!(
        result,
        Err(s("Install Failed: Performing Streamed Install\nFailure [INSTALL_FAILED_VERSION_DOWNGRADE]"))
    );
}

#[test]
fn install_with_success_marker_completes() {
    let r = Restore::new("dev1", layout(Some(vec!["base.apk"]), false));
    let (log, result) = run_restore(r, |_| Ok(s("Success")));
    assert_eq!(log, vec![s("-s dev1 install -r /tmp/restore/x/apks/base.apk")]);
    assert_eq!(result, Ok(s("Restore completed")));
}

#[test]
fn missing_apks_fail_before_install() {
    let r = Restore::new("dev1", layout(None, false));
    let (log, result) = run_restore(r, |_| Ok(s("Success")));
    assert!(log.is_empty());
    assert_eq!(result, Err(s("Invalid backup structure: No APKs found")));
    let empty = Restore::new("dev1", layout(Some(vec!["readme.txt"]), false));
    let (log, result) = run_restore(empty, |_| Ok(s("Success")));
    assert!(log.is_empty());
    assert_eq!(result, Err(s("Invalid backup structure: No APKs found")));
}

#[test]
fn legacy_apk_is_installed() {
    let r = Restore::new("dev1", layout(None, true));
    let (log, result) = run_restore(r, |_| Ok(s("Success")));
    assert_eq!(log, vec![s("-s dev1 install -r /tmp/restore/x/base.apk")]);
    assert_eq!(result, Ok(s("Restore completed")));
}

#[test]
fn obb_and_data_are_restored() {
    let mut l = layout(Some(vec!["base.apk"]), false);
    l.obb_files = Some(vec![s("main.1.com.example.app.obb")]);
    l.declares_data = true;
    l.has_data_archive = true;
    let r = Restore::new("dev1", l);
    let (log, result) = run_restore(r, |args| {
        if args.iter().any(|a| a.starts_with("chown")) {
            Err(s("chown: bad"))
        } else if args[2] == "install" {
            Ok(s("Success"))
        } else {
            Ok(s(""))
        }
    });
    assert_eq!(result, Ok(s("Restore completed")));
    assert_eq!(log[1], "-s dev1 shell mkdir -p /sdcard/Android/obb/com.example.app/");
    assert_eq!(log[2], "-s dev1 push /tmp/restore/x/obb/main.1.com.example.app.obb /sdcard/Android/obb/com.example.app/main.1.com.example.app.obb");
    assert_eq!(log[3], "-s dev1 shell su -c id");
    assert_eq!(log[5], "-s dev1 shell su -c tar -xzf /sdcard/easyadb_restore_data.tar.gz -C /data/data");
    assert_eq!(log[7], "-s dev1 shell su -c restorecon -R /data/data/com.example.app");
    assert_eq!(log.len(), 9);
}

#[test]
fn data_skipped_without_root() {
    let mut l = layout(Some(vec!["base.apk"]), false);
    l.declares_data = true;
    l.has_data_archive = true;
    let r = Restore::new("dev1", l);
    let (log, result) = run_restore(r, |args| if args[2] == "install" { Ok(s("Success")) } else { Err(s("su: not found")) });
    assert_eq!(log.len(), 2);
    assert_eq!(result, Ok(s("Restore completed")));
}

#[test]
fn round_trip_installs_what_was_backed_up() {
    let (_, actions) = run_backup(|a| {
        if is_listing(a) {
            Ok(s("base.apk\nsplit_config.en.apk\n"))
        } else {
            Ok(s(""))
        }
    });
    let mut stored = Vec::new();
    for a in &actions {
        if let BackupAction::WriteContainer { members, .. } = a {
            for m in members {
                if let Member::Stored { name, .. } = m {
                    stored.push(name.trim_start_matches("apks/").to_string());
                }
            }
        }
    }
    assert_eq!(stored, vec![s("base.apk"), s("split_config.en.apk")]);
    let mut l = layout(None, false);
    l.apk_dir_files = Some(stored);
    let (log, result) = run_restore(Restore::new("dev1", l), |_| Ok(s("Performing Streamed Install")));
    assert_eq!(log, vec![s("-s dev1 install-multiple -r /tmp/restore/x/apks/base.apk /tmp/restore/x/apks/split_config.en.apk")]);
    assert_eq!(result, Err(s("Install Failed: Performing Streamed Install")));
}

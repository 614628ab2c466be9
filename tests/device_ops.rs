use easyadb::device::{
    disable_package, enable_package, execute_unified_command, get_all_packages, get_devices,
    get_package_size, get_packages, is_device_rooted, reinstall_package, size_from_listing,
    uninstall_package, KnowledgeEntry, Tool,
};
use easyadb::transport::{judge_output, Reply, Step};

fn s(x: &str) -> String {
    x.to_string()
}

fn args(v: &[&str]) -> Vec<String> {
    v.iter().map(|a| a.to_string()).collect()
}

fn ran<T>(step: Step<T>) -> Vec<String> {
    match step {
        Step::Run(a) => a,
        Step::Done(_) => panic!("expected a command"),
    }
}

fn done<T>(step: Step<T>) -> T {
    match step {
        Step::Done(x) => x,
        Step::Run(a) => panic!("expected a result, got command {:?}", a),
    }
}

#[test]
fn size_heuristic_skips_columns() {
    let line = "-rw-r--r-- 1 system system 20117036 2023-11-20 18:27 base.apk";
    let replies: Vec<Reply> = vec![Err(s("stat: not supported")), Ok(s(line))];
    assert_eq!(done(get_package_size("dev1", "/data/app/x/base.apk", &replies)), Ok(20117036));
}

#[test]
fn size_from_stat_first() {
    let first = ran(get_package_size("dev1", "/p/base.apk", &vec![]));
    assert_eq!(first, args(&["-s", "dev1", "shell", "stat", "-c", "%s", "/p/base.apk"]));
    let replies: Vec<Reply> = vec![Ok(s("  4096\n"))];
    assert_eq!(done(get_package_size("dev1", "/p/base.apk", &replies)), Ok(4096));
}

#[test]
fn size_falls_back_to_listing() {
    let replies: Vec<Reply> = vec![Ok(s("stat: unknown option"))];
    let next = ran(get_package_size("dev1", "/p/base.apk", &replies));
    assert_eq!(next, args(&["-s", "dev1", "shell", "ls", "-l", "/p/base.apk"]));
}

#[test]
fn size_listing_without_size_fails() {
    assert_eq!(size_from_listing("-rw-r--r-- 1 1000 1000 12 base.apk"), Err(s("Could not determine file size")));
    assert_eq!(size_from_listing("total 5000"), Ok(5000));
}

#[test]
fn size_listing_error_is_passed_on() {
    let replies: Vec<Reply> = vec![Err(s("x")), Err(s("ADB Command Failed: offline"))];
    assert_eq!(done(get_package_size("d", "/p", &replies)), Err(s("ADB Command Failed: offline")));
}

#[test]
fn judge_tolerates_not_found_in_shell() {
    let a = args(&["-s", "d", "shell", "ls", "/x"]);
    assert_eq!(judge_output(&a, true, "ls: /x: Not Found\n", ""), Ok(s("ls: /x: Not Found\n")));
}

#[test]
fn judge_rejects_error_marker_in_shell() {
    let a = args(&["-s", "d", "shell", "pm", "x"]);
    assert_eq!(
        judge_output(&a, true, "  Error: unknown command\n", ""),
        Err(s("ADB Internal Error: Error: unknown command"))
    );
}

#[test]
fn judge_rejects_marker_outside_shell() {
    let a = args(&["-s", "d", "pull", "/x", "y"]);
    assert_eq!(
        judge_output(&a, true, "adb: error: remote object '/x' does not exist", ""),
        Err(s("ADB Internal Error: adb: error: remote object '/x' does not exist"))
    );
    assert_eq!(
        judge_output(&a, true, "PERMISSION DENIED somewhere", ""),
        Err(s("ADB Internal Error: PERMISSION DENIED somewhere"))
    );
}

#[test]
fn judge_reports_failed_exit() {
    let a = args(&["devices"]);
    assert_eq!(judge_output(&a, false, "", "  device offline \n"), Err(s("ADB Command Failed: device offline")));
    assert_eq!(judge_output(&a, true, "List of devices attached\n", ""), Ok(s("List of devices attached\n")));
}

#[test]
fn root_needs_uid_zero() {
    assert_eq!(ran(is_device_rooted("d", &vec![])), args(&["-s", "d", "shell", "su", "-c", "id"]));
    let yes: Vec<Reply> = vec![Ok(s("uid=0(root) gid=0(root)"))];
    assert!(done(is_device_rooted("d", &yes)));
    let no: Vec<Reply> = vec![Ok(s("uid=2000(shell)"))];
    assert!(!done(is_device_rooted("d", &no)));
    let fail: Vec<Reply> = vec![Err(s("su: not found"))];
    assert!(!done(is_device_rooted("d", &fail)));
}

#[test]
fn package_switches() {
    assert_eq!(
        ran(disable_package("d", "com.a", &vec![])),
        args(&["-s", "d", "shell", "pm", "disable-user", "--user", "0", "com.a"])
    );
    let ok: Vec<Reply> = vec![Ok(s(""))];
    assert_eq!(done(disable_package("d", "com.a", &ok)), Ok(s("Package 'com.a' disabled.")));
    assert_eq!(done(enable_package("d", "com.a", &ok)), Ok(s("Package 'com.a' enabled.")));
    assert_eq!(
        ran(uninstall_package("d", "com.a", &vec![])),
        args(&["-s", "d", "shell", "pm", "uninstall", "-k", "--user", "0", "com.a"])
    );
    assert_eq!(
        done(uninstall_package("d", "com.a", &ok)),
        Ok(s("Package 'com.a' uninstalled for current user."))
    );
    let err: Vec<Reply> = vec![Err(s("boom"))];
    assert_eq!(done(enable_package("d", "com.a", &err)), Err(s("boom")));
}

#[test]
fn reinstall_falls_back_to_pm() {
    let ok: Vec<Reply> = vec![Ok(s("installed"))];
    assert_eq!(done(reinstall_package("d", "com.a", &ok)), Ok(s("Package 'com.a' reinstalled successfully.")));
    let first: Vec<Reply> = vec![Err(s("no cmd"))];
    assert_eq!(
        ran(reinstall_package("d", "com.a", &first)),
        args(&["-s", "d", "shell", "pm", "install-existing", "com.a"])
    );
    let legacy: Vec<Reply> = vec![Err(s("no cmd")), Ok(s(""))];
    assert_eq!(done(reinstall_package("d", "com.a", &legacy)), Ok(s("Package 'com.a' reinstalled (legacy method).")));
    let both: Vec<Reply> = vec![Err(s("no cmd")), Err(s("gone"))];
    let e = done(reinstall_package("d", "com.a", &both)).unwrap_err();
    assert!(e.starts_with("Failed to reinstall 'com.a'. NOTE:"));
    assert!(e.ends_with("Original Error: gone"));
}

#[test]
fn unified_command_routes_tools() {
    let f = execute_unified_command(Some("d"), "  fastboot   reboot bootloader ").unwrap();
    assert!(matches!(f.tool, Tool::Fastboot));
    assert_eq!(f.args, args(&["reboot", "bootloader"]));
    let a = execute_unified_command(Some("d"), "adb shell ls").unwrap();
    assert!(matches!(a.tool, Tool::Adb));
    assert_eq!(a.args, args(&["-s", "d", "shell", "ls"]));
    let b = execute_unified_command(None, "shell ls").unwrap();
    assert_eq!(b.args, args(&["shell", "ls"]));
    assert_eq!(execute_unified_command(None, "   ").err(), Some(s("Empty command")));
}

#[test]
fn packages_parsed_and_sorted() {
    assert_eq!(ran(get_packages("d", &vec![])), args(&["-s", "d", "shell", "pm", "list", "packages", "-s"]));
    let sys: Vec<Reply> = vec![Ok(s("package:com.android.settings\n"))];
    assert_eq!(ran(get_packages("d", &sys)), args(&["-s", "d", "shell", "pm", "list", "packages", "-f"]));
    let listing = "package:/data/app/~~x==/org.zed-1/base.apk=org.zed\r\n  package:/system/app/Settings/Settings.apk=com.android.settings \nnoise\npackage:/data/app/b.apk=com.b\n";
    let replies: Vec<Reply> = vec![Ok(s("package:com.android.settings\n")), Ok(s(listing))];
    let ps = done(get_packages("d", &replies)).unwrap();
    let names: Vec<&str> = ps.iter().map(|p| p.name.as_str()).collect();
    assert_eq!(names, vec!["com.android.settings", "com.b", "org.zed"]);
    assert_eq!(ps[0].path, "/system/app/Settings/Settings.apk");
    assert!(ps[0].is_system);
    assert!(!ps[1].is_system);
    assert_eq!(ps[2].path, "/data/app/~~x==/org.zed-1/base.apk");
}

#[test]
fn packages_listing_failure_fails() {
    let replies: Vec<Reply> = vec![Err(s("x")), Err(s("ADB Command Failed: no device"))];
    assert_eq!(done(get_packages("d", &replies)).err(), Some(s("ADB Command Failed: no device")));
}

#[test]
fn all_packages_flags_and_knowledge() {
    let kb = vec![KnowledgeEntry {
        id: s("com.bloat"),
        description: s("Vendor bloat"),
        recommendation: s("safe"),
    }];
    assert_eq!(ran(get_all_packages("d", &kb, &vec![])), args(&["-s", "d", "shell", "pm", "list", "packages"]));
    let replies: Vec<Reply> = vec![
        Ok(s("package:com.bloat\npackage:com.app\n")),
        Ok(s("package:com.app\npackage:com.bloat\npackage:com.gone\n")),
        Ok(s("package:com.bloat\n")),
        Ok(s("package:com.bloat\n")),
    ];
    let ps = done(get_all_packages("d", &kb, &replies)).unwrap();
    let names: Vec<&str> = ps.iter().map(|p| p.name.as_str()).collect();
    assert_eq!(names, vec!["com.app", "com.bloat", "com.gone"]);
    assert!(ps[1].is_system && ps[1].is_disabled && !ps[1].is_uninstalled);
    assert_eq!(ps[1].description, Some(s("Vendor bloat")));
    assert_eq!(ps[1].recommendation, Some(s("safe")));
    assert!(ps[2].is_uninstalled);
    assert_eq!(ps[0].description, None);
}

#[test]
fn all_packages_blank_full_listing_uses_installed() {
    let replies: Vec<Reply> = vec![Ok(s("package:com.a\n")), Ok(s("  \n")), Err(s("x")), Err(s("x"))];
    let ps = done(get_all_packages("d", &vec![], &replies)).unwrap();
    assert_eq!(ps.len(), 1);
    assert_eq!(ps[0].name, "com.a");
}

#[test]
fn all_packages_none_found() {
    let replies: Vec<Reply> = vec![Err(s("x")), Err(s("x")), Err(s("x")), Err(s("x"))];
    assert_eq!(
        done(get_all_packages("d", &vec![], &replies)).err(),
        Some(s("No packages found. ADB connection failure or locked device."))
    );
}

#[test]
fn devices_listed_with_root_checks() {
    assert_eq!(ran(get_devices(&vec![])), args(&["devices", "-l"]));
    let listing = "List of devices attached\nABC123 device usb:1-1 product:x model:Pixel_7_Pro device:y\nDEF unauthorized usb:2\n\nGHI device\n";
    let one: Vec<Reply> = vec![Ok(s(listing))];
    assert_eq!(ran(get_devices(&one)), args(&["-s", "ABC123", "shell", "which", "su"]));
    let two: Vec<Reply> = vec![Ok(s(listing)), Ok(s("/system/bin/su\n"))];
    assert_eq!(ran(get_devices(&two)), args(&["-s", "GHI", "shell", "which", "su"]));
    let all: Vec<Reply> = vec![Ok(s(listing)), Ok(s("/system/bin/su\n")), Ok(s("su not found"))];
    let ds = done(get_devices(&all)).unwrap();
    assert_eq!(ds.len(), 3);
    assert_eq!(ds[0].id, "ABC123");
    assert_eq!(ds[0].model, "Pixel 7 Pro");
    assert!(ds[0].authorized && ds[0].is_rooted);
    assert_eq!(ds[1].state, "unauthorized");
    assert!(!ds[1].authorized && !ds[1].is_rooted);
    assert_eq!(ds[1].model, "Unknown Device");
    assert!(ds[2].authorized && !ds[2].is_rooted);
}

#[test]
fn devices_listing_failure_fails() {
    let r: Vec<Reply> = vec![Err(s("ADB Command Failed: daemon"))];
    assert_eq!(done(get_devices(&r)).err(), Some(s("ADB Command Failed: daemon")));
}

use easyadb::device::{AppPackage, DebloaterPackage};
use easyadb::device_cache::{CachedPackage, DeviceCache, DeviceProfile};
use easyadb::package_db::PackageDB;
use easyadb::seed_data::get_seed_data;

fn s(x: &str) -> String {
    x.to_string()
}

fn live(name: &str, disabled: bool) -> DebloaterPackage {
    DebloaterPackage {
        name: s(name),
        is_system: false,
        is_disabled: disabled,
        is_uninstalled: false,
        description: None,
        recommendation: None,
    }
}

fn sorted(mut v: Vec<String>) -> Vec<String> {
    v.sort();
    v
}

#[test]
fn diff_reports_added_removed_changed() {
    let mut cache = DeviceCache::new(vec![]);
    cache.sync_with_device("dev", Ok(vec![live("A", false), live("B", false), live("C", false)])).unwrap();
    let r = cache.sync_with_device("dev", Ok(vec![live("A", true), live("B", false), live("D", false)])).unwrap();
    assert_eq!(r.added, vec![s("D")]);
    assert_eq!(r.removed, vec![s("C")]);
    assert_eq!(r.changed, vec![s("A")]);
    assert_eq!(r.total, 3);
}

#[test]
fn resync_without_change_is_empty() {
    let mut cache = DeviceCache::new(vec![]);
    let list = || vec![live("x.a", false), live("x.b", true), live("x.c", false)];
    let first = cache.sync_with_device("dev", Ok(list())).unwrap();
    assert_eq!(sorted(first.added), vec![s("x.a"), s("x.b"), s("x.c")]);
    let second = cache.sync_with_device("dev", Ok(list())).unwrap();
    assert!(second.added.is_empty() && second.removed.is_empty() && second.changed.is_empty());
    assert_eq!(second.total, first.total);
}

#[test]
fn failed_sync_keeps_snapshot() {
    let mut cache = DeviceCache::new(vec![]);
    cache.sync_with_device("dev", Ok(vec![live("A", false)])).unwrap();
    let r = cache.sync_with_device("dev", Err(s("ADB Command Failed: offline")));
    assert_eq!(r.err(), Some(s("ADB Command Failed: offline")));
    let kept = cache.get_packages("dev").unwrap();
    assert_eq!(kept.len(), 1);
    assert_eq!(kept[0].name, "A");
    assert!(cache.get_packages("other").is_none());
}

#[test]
fn removal_dominates_change() {
    let mut cache = DeviceCache::new(vec![]);
    cache.sync_with_device("dev", Ok(vec![live("A", false)])).unwrap();
    let r = cache.sync_with_device("dev", Ok(vec![])).unwrap();
    assert_eq!(r.removed, vec![s("A")]);
    assert!(r.changed.is_empty());
    assert_eq!(r.total, 0);
}

#[test]
fn backup_sync_replaces_snapshot() {
    let mut cache = DeviceCache::new(vec![]);
    cache.sync_with_device("dev", Ok(vec![live("old", true)])).unwrap();
    let pkgs = vec![AppPackage { name: s("com.a"), path: s("/data/app/a/base.apk"), is_system: true }];
    let cached = cache.sync_backup_packages("dev", Ok(pkgs)).unwrap();
    assert_eq!(cached.len(), 1);
    assert_eq!(cached[0].path, "/data/app/a/base.apk");
    assert!(cached[0].is_system && !cached[0].is_disabled && !cached[0].is_uninstalled);
    let now = cache.get_packages("dev").unwrap();
    assert_eq!(now.len(), 1);
    assert_eq!(now[0].name, "com.a");
}

#[test]
fn loaded_profiles_later_wins() {
    let p = |serial: &str, name: &str| DeviceProfile {
        serial: s(serial),
        model: None,
        last_sync: s("2024-01-01T00:00:00"),
        packages: vec![CachedPackage {
            name: s(name),
            path: String::new(),
            is_system: false,
            is_disabled: false,
            is_uninstalled: false,
            label: None,
        }],
    };
    let cache = DeviceCache::new(vec![p("a", "one"), p("b", "two"), p("a", "three")]);
    assert_eq!(cache.get_packages("a").unwrap()[0].name, "three");
    assert_eq!(cache.get_packages("b").unwrap()[0].name, "two");
}

#[test]
fn label_db_seeded_and_overridden() {
    let seed = get_seed_data();
    assert_eq!(seed.len(), 329);
    let mut db = PackageDB::new(vec![(s("com.termux"), s("My Terminal"))]);
    assert_eq!(db.get("com.android.vending"), Some(s("Google Play Store")));
    assert_eq!(db.get("com.termux"), Some(s("My Terminal")));
    assert_eq!(db.get("org.unknown"), None);
    db.insert(s("org.unknown"), s("Unknown App"));
    db.insert(s("org.unknown"), s("Known App"));
    assert_eq!(db.get("org.unknown"), Some(s("Known App")));
    let n = db.entries().iter().filter(|(k, _)| k == "org.unknown").count();
    assert_eq!(n, 1);
}

use easyadb::clock::to_seconds;
use easyadb::backup::{newest_first, BackupFile};
use easyadb::package_db::label_from_headings;
use easyadb::sideload::{progress_from_match, progress_of_line};

fn file(name: &str, date: &str) -> BackupFile {
    BackupFile { name: name.to_string(), path: format!("/b/{}", name), size: 1, date: date.to_string() }
}

#[test]
fn progress_read_from_line() {
    assert_eq!(progress_of_line("serving: 'update.zip'  (~45%)"), Some(45));
    assert_eq!(progress_of_line("serving: 'update.zip'  (7%)"), Some(7));
    assert_eq!(progress_of_line("Total xfer: 1.00x"), Some(0));
}

#[test]
fn progress_from_captured_digits() {
    assert_eq!(progress_from_match(None), Some(0));
    assert_eq!(progress_from_match(Some("100".to_string())), Some(100));
    assert_eq!(progress_from_match(Some("99999999999".to_string())), None);
}

#[test]
fn backups_listed_newest_first() {
    let files = vec![
        file("a", "2024-01-02 10:00:00"),
        file("b", "2024-03-01 09:00:00"),
        file("c", "2024-01-02 10:00:00"),
        file("d", "2023-12-31 23:59:59"),
    ];
    let sorted = newest_first(&files);
    let names: Vec<&str> = sorted.iter().map(|f| f.name.as_str()).collect();
    assert_eq!(names, vec!["b", "a", "c", "d"]);
}

#[test]
fn store_page_heading_rules() {
    let s = |x: &str| Some(x.to_string());
    assert_eq!(label_from_headings(s("WhatsApp"), s("Other")), s("WhatsApp"));
    assert_eq!(label_from_headings(None, s("Telegram")), s("Telegram"));
    assert_eq!(label_from_headings(None, s("")), None);
    assert_eq!(label_from_headings(None, Some("x".repeat(100))), None);
    assert_eq!(label_from_headings(None, Some("é".repeat(50))), None);
    assert_eq!(label_from_headings(None, Some("é".repeat(49))), Some("é".repeat(49)));
    assert_eq!(label_from_headings(None, None), None);
}

#[test]
fn snapshot_stamp_to_the_second() {
    assert_eq!(to_seconds("2023-11-20T18:27:05.123+03:00"), "2023-11-20T18:27:05");
    assert_eq!(to_seconds("2023-11-20T18:27:05+03:00"), "2023-11-20T18:27:05");
    assert_eq!(to_seconds("short"), "short");
}

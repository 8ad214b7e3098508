use std::collections::HashMap;

use gamespace::entry::{Entry, EntryKind};
use gamespace::scan::{Event, Notice, Scan, Stage, Work};

fn dir(path: &str, name: &str) -> Entry {
    Entry { path: path.to_string(), name: name.to_string(), kind: EntryKind::Directory }
}

fn file(path: &str, name: &str) -> Entry {
    Entry { path: path.to_string(), name: name.to_string(), kind: EntryKind::File }
}

fn strings(items: &[&str]) -> Vec<String> {
    items.iter().map(|s| s.to_string()).collect()
}

/// Drives a scan against an in-memory tree. Returns the paths listed, the
/// paths removed and the notices given, in order.
fn drive(
    scan: &mut Scan,
    disk: &HashMap<String, Vec<Entry>>,
) -> (Vec<String>, Vec<String>, Vec<Notice>) {
    let mut listed = Vec::new();
    let mut removed = Vec::new();
    let mut notices = Vec::new();
    let mut steps = 0;
    while !scan.is_halted() {
        steps += 1;
        assert!(steps < 100);
        let subject = scan.subject().to_string();
        let event = match scan.pending() {
            Work::ListRoot => match disk.get(&subject) {
                Some(entries) => {
                    listed.push(subject);
                    Event::Listed(entries.clone())
                }
                None => Event::Missing,
            },
            Work::ListTarget => match disk.get(&subject) {
                Some(entries) => {
                    listed.push(subject);
                    Event::Listed(entries.clone())
                }
                None => Event::Failed,
            },
            Work::RemoveTarget => {
                removed.push(subject);
                Event::Removed
            }
            Work::Halt => unreachable!(),
        };
        let notice = scan.advance(event);
        if notice != Notice::Silent {
            notices.push(notice);
        }
    }
    (listed, removed, notices)
}

fn two_libraries() -> HashMap<String, Vec<Entry>> {
    let mut disk = HashMap::new();
    disk.insert(
        "/games/epic".to_string(),
        vec![dir("/games/epic/Portal2", "Portal2"), dir("/games/epic/Celeste", "Celeste")],
    );
    disk.insert("/games/epic/Portal2".to_string(), vec![file("/games/epic/Portal2/readme.txt", "readme.txt")]);
    disk.insert("/games/epic/Celeste".to_string(), vec![]);
    disk.insert("/games/steam".to_string(), vec![dir("/games/steam/Portal", "Portal")]);
    disk.insert("/games/steam/Portal".to_string(), vec![]);
    disk
}

#[test]
fn single_empty_match_is_removed() {
    let mut disk = HashMap::new();
    disk.insert("/a".to_string(), vec![dir("/a/Other", "Other")]);
    disk.insert("/b".to_string(), vec![dir("/b/Hades", "Hades"), dir("/b/Other", "Other")]);
    disk.insert("/b/Hades".to_string(), vec![]);
    disk.insert("/c".to_string(), vec![dir("/c/Hades", "Hades")]);
    let mut scan = Scan::new(strings(&["/a", "/b", "/c"]), "Hades".to_string());
    let (listed, removed, notices) = drive(&mut scan, &disk);
    assert_eq!(removed, vec!["/b/Hades".to_string()]);
    assert_eq!(listed, strings(&["/a", "/b", "/b/Hades"]));
    assert_eq!(notices, vec![Notice::Removing]);
    assert_eq!(scan.stage(), Stage::Removed);
    assert_eq!(scan.root(), 1);
    assert_eq!(scan.target(), "/b/Hades");
    assert_eq!(scan.subject(), "/b/Hades");
    assert_eq!(scan.pending(), Work::Halt);
}

#[test]
fn executable_blocks_removal_and_halts() {
    let mut disk = HashMap::new();
    disk.insert("/a".to_string(), vec![dir("/a/Hades", "Hades")]);
    disk.insert(
        "/a/Hades".to_string(),
        vec![file("/a/Hades/notes.txt", "notes.txt"), file("/a/Hades/Hades.exe", "Hades.exe")],
    );
    disk.insert("/b".to_string(), vec![dir("/b/Hades", "Hades")]);
    disk.insert("/b/Hades".to_string(), vec![]);
    let mut scan = Scan::new(strings(&["/a", "/b"]), "Hades".to_string());
    let (listed, removed, notices) = drive(&mut scan, &disk);
    assert!(removed.is_empty());
    assert_eq!(listed, strings(&["/a", "/a/Hades"]));
    assert_eq!(notices, vec![Notice::NotSafe]);
    assert_eq!(scan.stage(), Stage::Unsafe);
    assert_eq!(scan.root(), 0);
    assert_eq!(scan.target(), "/a/Hades");
}

#[test]
fn first_root_in_order_wins() {
    let disk = two_libraries();
    let mut scan = Scan::new(strings(&["/games/steam", "/games/epic"]), "Portal".to_string());
    let (listed, removed, _) = drive(&mut scan, &disk);
    assert_eq!(removed, vec!["/games/steam/Portal".to_string()]);
    assert_eq!(listed, strings(&["/games/steam", "/games/steam/Portal"]));
    assert_eq!(scan.root(), 0);
}

#[test]
fn ambiguous_root_is_reported_and_passed() {
    let mut disk = HashMap::new();
    disk.insert(
        "/a".to_string(),
        vec![dir("/a/Doom", "Doom"), dir("/a/Doom Eternal", "Doom Eternal")],
    );
    disk.insert("/a/Doom".to_string(), vec![]);
    disk.insert("/a/Doom Eternal".to_string(), vec![]);
    disk.insert("/b".to_string(), vec![dir("/b/Doom", "Doom")]);
    disk.insert("/b/Doom".to_string(), vec![]);
    let mut scan = Scan::new(strings(&["/a", "/b"]), "Doom".to_string());
    let (listed, removed, notices) = drive(&mut scan, &disk);
    assert_eq!(notices, vec![Notice::Ambiguous, Notice::Removing]);
    assert_eq!(listed, strings(&["/a", "/b", "/b/Doom"]));
    assert_eq!(removed, vec!["/b/Doom".to_string()]);
    assert_eq!(scan.root(), 1);
}

#[test]
fn ambiguous_only_root_removes_nothing() {
    let mut disk = HashMap::new();
    disk.insert(
        "/a".to_string(),
        vec![dir("/a/Doom", "Doom"), dir("/a/Doom Eternal", "Doom Eternal")],
    );
    let mut scan = Scan::new(strings(&["/a"]), "Doom".to_string());
    let (_, removed, notices) = drive(&mut scan, &disk);
    assert!(removed.is_empty());
    assert_eq!(notices, vec![Notice::Ambiguous]);
    assert_eq!(scan.stage(), Stage::NoMatch);
    assert_eq!(scan.root(), 1);
    assert_eq!(scan.target(), "");
}

#[test]
fn missing_root_is_skipped() {
    let mut disk = HashMap::new();
    disk.insert("/b".to_string(), vec![dir("/b/Hades", "Hades")]);
    disk.insert("/b/Hades".to_string(), vec![]);
    let mut scan = Scan::new(strings(&["/nowhere", "/b"]), "Hades".to_string());
    assert_eq!(scan.pending(), Work::ListRoot);
    assert_eq!(scan.subject(), "/nowhere");
    assert_eq!(scan.advance(Event::Missing), Notice::Silent);
    assert_eq!(scan.stage(), Stage::Probing);
    assert_eq!(scan.root(), 1);
    assert_eq!(scan.subject(), "/b");
    let (_, removed, _) = drive(&mut scan, &disk);
    assert_eq!(removed, vec!["/b/Hades".to_string()]);
}

#[test]
fn all_roots_missing_ends_without_match() {
    let disk = HashMap::new();
    let mut scan = Scan::new(strings(&["/x", "/y"]), "Hades".to_string());
    let (listed, removed, notices) = drive(&mut scan, &disk);
    assert!(listed.is_empty());
    assert!(removed.is_empty());
    assert!(notices.is_empty());
    assert_eq!(scan.stage(), Stage::NoMatch);
    assert_eq!(scan.root(), 2);
}

#[test]
fn portal_example() {
    let disk = two_libraries();
    let mut scan = Scan::new(strings(&["/games/epic", "/games/steam"]), "Portal".to_string());
    assert_eq!(scan.fragment(), "Portal");
    let (listed, removed, notices) = drive(&mut scan, &disk);
    assert_eq!(removed, vec!["/games/epic/Portal2".to_string()]);
    assert_eq!(listed, strings(&["/games/epic", "/games/epic/Portal2"]));
    assert_eq!(notices, vec![Notice::Removing]);
    assert_eq!(scan.stage(), Stage::Removed);
    assert_eq!(scan.root(), 0);
    assert_eq!(scan.target(), "/games/epic/Portal2");
}

#[test]
fn no_roots_is_halted_at_once() {
    let scan = Scan::new(Vec::new(), "Hades".to_string());
    assert!(scan.is_halted());
    assert_eq!(scan.stage(), Stage::NoMatch);
    assert_eq!(scan.pending(), Work::Halt);
    assert_eq!(scan.root(), 0);
}

#[test]
fn unreadable_root_halts() {
    let mut scan = Scan::new(strings(&["/a", "/b"]), "Hades".to_string());
    assert_eq!(scan.advance(Event::Failed), Notice::Silent);
    assert_eq!(scan.stage(), Stage::RootUnreadable);
    assert!(scan.is_halted());
    assert_eq!(scan.subject(), "/a");
    assert_eq!(scan.root(), 0);
}

#[test]
fn unreadable_target_halts() {
    let mut disk = HashMap::new();
    disk.insert("/a".to_string(), vec![dir("/a/Hades", "Hades")]);
    let mut scan = Scan::new(strings(&["/a", "/b"]), "Hades".to_string());
    let (_, removed, _) = drive(&mut scan, &disk);
    assert!(removed.is_empty());
    assert_eq!(scan.stage(), Stage::TargetUnreadable);
    assert_eq!(scan.subject(), "/a/Hades");
}

#[test]
fn failed_removal_halts() {
    let mut scan = Scan::new(strings(&["/a"]), "Hades".to_string());
    scan.advance(Event::Listed(vec![dir("/a/Hades", "Hades")]));
    assert_eq!(scan.stage(), Stage::Inspecting);
    assert_eq!(scan.pending(), Work::ListTarget);
    assert_eq!(scan.advance(Event::Listed(vec![])), Notice::Removing);
    assert_eq!(scan.stage(), Stage::Removing);
    assert_eq!(scan.pending(), Work::RemoveTarget);
    assert_eq!(scan.subject(), "/a/Hades");
    assert_eq!(scan.advance(Event::Failed), Notice::Silent);
    assert_eq!(scan.stage(), Stage::NotRemoved);
    assert_eq!(scan.target(), "/a/Hades");
}

#[test]
fn unfitting_event_changes_nothing() {
    let mut scan = Scan::new(strings(&["/a"]), "Hades".to_string());
    assert_eq!(scan.advance(Event::Removed), Notice::Silent);
    assert_eq!(scan.stage(), Stage::Probing);
    assert_eq!(scan.root(), 0);
    scan.advance(Event::Listed(vec![dir("/a/Hades", "Hades")]));
    assert_eq!(scan.advance(Event::Missing), Notice::Silent);
    assert_eq!(scan.stage(), Stage::Inspecting);
    assert_eq!(scan.target(), "/a/Hades");
}

#[test]
fn halted_scan_stays_halted() {
    let mut scan = Scan::new(strings(&["/a"]), "Hades".to_string());
    scan.advance(Event::Missing);
    assert_eq!(scan.stage(), Stage::NoMatch);
    assert_eq!(scan.advance(Event::Listed(vec![dir("/a/Hades", "Hades")])), Notice::Silent);
    assert_eq!(scan.stage(), Stage::NoMatch);
    assert_eq!(scan.root(), 1);
}

#[test]
fn files_are_no_candidates() {
    let mut scan = Scan::new(strings(&["/a"]), "Hades".to_string());
    scan.advance(Event::Listed(vec![file("/a/Hades", "Hades"), dir("/a/Other", "Other")]));
    assert_eq!(scan.stage(), Stage::NoMatch);
}

#[test]
fn match_is_made_on_the_whole_path() {
    let mut scan = Scan::new(strings(&["/games/epic"]), "epic".to_string());
    let notice = scan.advance(Event::Listed(vec![
        dir("/games/epic/Portal2", "Portal2"),
        dir("/games/epic/Celeste", "Celeste"),
    ]));
    assert_eq!(notice, Notice::Ambiguous);
    assert_eq!(scan.stage(), Stage::NoMatch);
}

#[test]
fn match_is_case_sensitive() {
    let mut scan = Scan::new(strings(&["/a"]), "hades".to_string());
    scan.advance(Event::Listed(vec![dir("/a/Hades", "Hades")]));
    assert_eq!(scan.stage(), Stage::NoMatch);
}

#[test]
fn executable_directory_does_not_block() {
    let mut scan = Scan::new(strings(&["/a"]), "Hades".to_string());
    scan.advance(Event::Listed(vec![dir("/a/Hades", "Hades")]));
    let notice = scan.advance(Event::Listed(vec![dir("/a/Hades/bin.exe", "bin.exe")]));
    assert_eq!(notice, Notice::Removing);
    assert_eq!(scan.stage(), Stage::Removing);
}

#[test]
fn unreadable_root_stops_the_scan_before_later_roots() {
    let mut disk = HashMap::new();
    disk.insert("/b".to_string(), vec![dir("/b/Hades", "Hades")]);
    disk.insert("/b/Hades".to_string(), vec![]);
    let mut scan = Scan::new(strings(&["/nowhere", "/locked", "/b"]), "Hades".to_string());
    assert_eq!(scan.advance(Event::Missing), Notice::Silent);
    assert_eq!(scan.subject(), "/locked");
    assert_eq!(scan.advance(Event::Failed), Notice::Silent);
    let (listed, removed, notices) = drive(&mut scan, &disk);
    assert!(listed.is_empty());
    assert!(removed.is_empty());
    assert!(notices.is_empty());
    assert_eq!(scan.stage(), Stage::RootUnreadable);
    assert_eq!(scan.root(), 1);
    assert_eq!(scan.subject(), "/locked");
    assert_eq!(scan.target(), "");
    assert_eq!(scan.pending(), Work::Halt);
}

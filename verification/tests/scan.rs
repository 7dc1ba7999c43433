use rmus::db::{from_row, to_row};
use rmus::library::{LibraryEntry, LibraryError};
use rmus::scan::{expand_home, is_mp3, scan, FoundPath, Item, ScanStep};

fn file(place: &'static str) -> FoundPath<&'static str> {
    let extension = match place.rfind('.') {
        Some(at) => Some(place[at + 1..].to_string()),
        None => None,
    };
    FoundPath { place, extension, is_dir: false }
}

fn dir(place: &'static str) -> FoundPath<&'static str> {
    FoundPath { place, extension: None, is_dir: true }
}

fn mp3_bytes() -> Vec<u8> {
    let mut bytes = Vec::new();
    for _ in 0..20 {
        bytes.extend_from_slice(&[0xff, 0xfb, 0x90, 0x00]);
        bytes.resize(bytes.len() + 413, 0);
    }
    bytes
}

fn listing(place: &str) -> Result<Vec<Item<&'static str>>, String> {
    match place {
        "/m" => Ok(vec![Ok(file("/m/1.mp3")), Ok(dir("/m/d")), Ok(file("/m/2.MP3")), Ok(file("/m/cover.jpg"))]),
        "/m/d" => Ok(vec![Ok(dir("/m/d/e")), Ok(file("/m/d/3.Mp3")), Ok(file("/m/d/mp3"))]),
        "/m/d/e" => Ok(vec![Ok(file("/m/d/e/4.mp3"))]),
        "/bad" => Ok(vec![Ok(file("/bad/1.mp3")), Err("broken entry".to_string()), Ok(file("/bad/2.mp3"))]),
        "/locked" => Err("permission denied".to_string()),
        "/outer" => Ok(vec![Ok(file("/outer/1.mp3")), Ok(dir("/locked")), Ok(file("/outer/2.mp3"))]),
        _ => panic!("{place} was not to be listed"),
    }
}

fn contents(place: &str) -> Option<Vec<u8>> {
    match place {
        "/m/1.mp3" => Some(b"no music".to_vec()),
        "/m/2.MP3" => None,
        _ => Some(mp3_bytes()),
    }
}

fn drive(path: &'static str, exists: bool, root: FoundPath<&'static str>) -> (Vec<&'static str>, Result<Vec<LibraryEntry>, LibraryError>) {
    let mut read = Vec::new();
    let mut s = scan(path, exists, root);
    loop {
        match s.next() {
            ScanStep::ListDirectory(place) => s.listed(listing(place)),
            ScanStep::ReadFile(place) => {
                read.push(place);
                s.file_read(place.to_string(), Some("stem".to_string()), contents(place));
            }
            ScanStep::Done => return (read, s.finish()),
        }
    }
}

#[test]
fn extensions_are_compared_without_case() {
    assert!(is_mp3(&Some("mp3".to_string())));
    assert!(is_mp3(&Some("MP3".to_string())));
    assert!(is_mp3(&Some("mP3".to_string())));
    assert!(!is_mp3(&Some("mp4".to_string())));
    assert!(!is_mp3(&Some("mp33".to_string())));
    assert!(!is_mp3(&Some("".to_string())));
    assert!(!is_mp3(&None));
}

#[test]
fn a_missing_path_is_an_error() {
    let (read, result) = drive("/nowhere", false, dir("/nowhere"));
    assert_eq!(read.len(), 0);
    assert_eq!(result.unwrap_err().message, "path does not exist: /nowhere");
}

#[test]
fn all_mp3_files_are_found_in_order_and_unreadable_ones_skipped() {
    let (read, result) = drive("/m", true, dir("/m"));
    assert_eq!(read, vec!["/m/1.mp3", "/m/d/e/4.mp3", "/m/d/3.Mp3", "/m/2.MP3"]);
    let entries = result.unwrap();
    let paths: Vec<&str> = entries.iter().map(|e| e.path.as_str()).collect();
    assert_eq!(paths, vec!["/m/d/e/4.mp3", "/m/d/3.Mp3"]);
    assert_eq!(entries[0].title, "stem");
    assert_eq!(entries[0].artist, "Unknown Artist");
    for entry in &entries {
        assert!(entry.duration.secs > 0 || entry.duration.nanos > 0);
        assert!(entry.duration.nanos < 1_000_000_000);
        assert_eq!(entry.duration.nanos % 1_000_000, 0);
        assert_eq!(from_row(to_row(entry)).duration, entry.duration);
    }
}

#[test]
fn a_single_file_can_be_scanned() {
    let (read, result) = drive("/one.mp3", true, file("/one.mp3"));
    assert_eq!(read, vec!["/one.mp3"]);
    assert_eq!(result.unwrap().len(), 1);
    let (read, result) = drive("/one.txt", true, file("/one.txt"));
    assert_eq!(read.len(), 0);
    assert_eq!(result.unwrap().len(), 0);
}

#[test]
fn an_error_while_listing_ends_the_scan_before_any_file_is_read() {
    let (read, result) = drive("/bad", true, dir("/bad"));
    assert_eq!(read.len(), 0);
    assert_eq!(result.unwrap_err().message, "broken entry");
    let (read, result) = drive("/outer", true, dir("/outer"));
    assert_eq!(read.len(), 0);
    assert_eq!(result.unwrap_err().message, "permission denied");
}

#[test]
fn a_tilde_stands_for_home() {
    let home = || Some("/home/me".to_string());
    assert_eq!(expand_home("~/Music", home()), "/home/me/Music");
    assert_eq!(expand_home("~", home()), "/home/me");
    assert_eq!(expand_home("~other/Music", home()), "~other/Music");
    assert_eq!(expand_home("/a/~/b", home()), "/a/~/b");
    assert_eq!(expand_home("~/Music", None), "~/Music");
    assert_eq!(expand_home("", home()), "");
}

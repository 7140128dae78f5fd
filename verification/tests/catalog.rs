use viddeck::catalog::{is_under_any, Catalog, Stamp};
use viddeck::paths::{is_video_file, relative_path, video_id};
use viddeck::scanner::{collect_candidates, record_probe, should_probe};

fn stamp(secs: i64) -> Option<Stamp> {
    Some(Stamp { secs, nanos: 0 })
}

#[test]
fn video_files_by_extension() {
    assert!(is_video_file("/videos/a.mkv"));
    assert!(is_video_file("/videos/B.MP4"));
    assert!(is_video_file("clip.WebM"));
    assert!(is_video_file("x.m4v"));
    assert!(is_video_file("x.avi"));
    assert!(is_video_file("x.Mov"));
    assert!(!is_video_file("/videos/notes.txt"));
    assert!(!is_video_file("/videos/mkv"));
    assert!(!is_video_file("/videos/.mkv"));
    assert!(!is_video_file("/videos/a.mkv.part"));
}

#[test]
fn video_id_is_url_safe_base64_of_the_path() {
    assert_eq!(video_id("/v/a.mkv"), "L3YvYS5ta3Y");
    assert_eq!(video_id(""), "");
    assert_eq!(video_id("??>"), "Pz8-");
}

#[test]
fn relative_paths() {
    assert_eq!(relative_path("/lib/sub/a.mkv", "/lib"), "sub/a.mkv");
    assert_eq!(relative_path("/other/a.mkv", "/lib"), "/other/a.mkv");
}

#[test]
fn record_then_get() {
    let mut c: Catalog<u32> = Catalog::new();
    let id = c.record("/lib/a.mkv".to_string(), "a.mkv".to_string(), stamp(5), 7);
    assert_eq!(id, video_id("/lib/a.mkv"));
    let e = c.get(&id).unwrap();
    assert_eq!(e.path, "/lib/a.mkv");
    assert_eq!(e.rel_path, "a.mkv");
    assert_eq!(e.meta, 7);
    assert_eq!(e.modified, stamp(5));
    assert!(c.get("nope").is_none());
    // Recording the same path again replaces the entry.
    c.record("/lib/a.mkv".to_string(), "a.mkv".to_string(), stamp(6), 8);
    assert_eq!(c.entries().len(), 1);
    assert_eq!(c.get(&id).unwrap().meta, 8);
}

#[test]
fn remove_gives_the_entry_back() {
    let mut c: Catalog<u32> = Catalog::new();
    let id = c.record("/lib/a.mkv".to_string(), "a.mkv".to_string(), None, 1);
    c.record("/lib/b.mkv".to_string(), "b.mkv".to_string(), None, 2);
    let e = c.remove(&id).unwrap();
    assert_eq!(e.meta, 1);
    assert!(c.get(&id).is_none());
    assert!(c.remove(&id).is_none());
    assert_eq!(c.entries().len(), 1);
}

#[test]
fn rename_moves_the_entry() {
    let mut c: Catalog<u32> = Catalog::new();
    let id = c.record("/lib/a.mkv".to_string(), "a.mkv".to_string(), stamp(1), 3);
    let new_id = c.rename(&id, "/lib/sub/b.mkv".to_string(), "sub/b.mkv".to_string()).unwrap();
    assert_eq!(new_id, video_id("/lib/sub/b.mkv"));
    assert!(c.get(&id).is_none());
    let e = c.get(&new_id).unwrap();
    assert_eq!(e.id, new_id);
    assert_eq!(e.path, "/lib/sub/b.mkv");
    assert_eq!(e.rel_path, "sub/b.mkv");
    assert_eq!(e.meta, 3);
    assert_eq!(e.modified, stamp(1));
    assert!(c.rename("unknown", "/lib/c.mkv".to_string(), "c.mkv".to_string()).is_none());
}

#[test]
fn removing_deleted_paths() {
    let mut c: Catalog<u32> = Catalog::new();
    c.record("/lib/d/a.mkv".to_string(), "d/a.mkv".to_string(), None, 1);
    c.record("/lib/d/e/b.mkv".to_string(), "d/e/b.mkv".to_string(), None, 2);
    c.record("/lib/dd/c.mkv".to_string(), "dd/c.mkv".to_string(), None, 3);
    c.record("/lib/x.mkv".to_string(), "x.mkv".to_string(), None, 4);
    assert!(is_under_any("/lib/d/a.mkv", &vec!["/lib/d".to_string()]));
    assert!(!is_under_any("/lib/dd/c.mkv", &vec!["/lib/d".to_string()]));
    let gone = vec!["/lib/d".to_string(), "/lib/x.mkv".to_string()];
    assert!(c.remove_under(&gone));
    let mut left: Vec<String> = c.entries().iter().map(|e| e.path.clone()).collect();
    left.sort();
    assert_eq!(left, vec!["/lib/dd/c.mkv".to_string()]);
    assert!(!c.remove_under(&gone));
}

#[test]
fn unchanged_files_are_not_probed_again() {
    let mut c: Catalog<u32> = Catalog::new();
    assert!(should_probe(&c, "/lib/a.mkv", stamp(1)));
    assert!(!should_probe(&c, "/lib/a.txt", stamp(1)));
    assert!(record_probe(&mut c, "/lib/a.mkv", "/lib", stamp(1), Some(9)));
    assert!(!should_probe(&c, "/lib/a.mkv", stamp(1)));
    assert!(should_probe(&c, "/lib/a.mkv", stamp(2)));
    assert!(should_probe(&c, "/lib/a.mkv", None));
    assert_eq!(c.get(&video_id("/lib/a.mkv")).unwrap().rel_path, "a.mkv");
    assert!(!record_probe(&mut c, "/lib/b.mkv", "/lib", stamp(1), None));
    assert!(c.get(&video_id("/lib/b.mkv")).is_none());
}

#[test]
fn candidates_are_videos_once_each() {
    let files = vec![
        "/a.mkv".to_string(),
        "/b.txt".to_string(),
        "/a.mkv".to_string(),
        "/c.MP4".to_string(),
    ];
    assert_eq!(collect_candidates(&files), vec!["/a.mkv".to_string(), "/c.MP4".to_string()]);
}

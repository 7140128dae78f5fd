use viddeck::catalog::Catalog;
use viddeck::net::{bare_host, is_loopback, startup_notices, IpAddress, StartupNotice};
use viddeck::paths::video_id;
use viddeck::scanner::record_probe;
use viddeck::requests::{
    apply_rename, check_inside, check_rename, open_target, rename_target, thumb_index, thumb_width, OpenRefusal,
    RenameRefusal,
};

const LOCAL: IpAddress = IpAddress::V4([127, 0, 0, 1]);
const OTHER: IpAddress = IpAddress::V4([192, 168, 1, 5]);

#[test]
fn thumbnail_widths() {
    assert_eq!(thumb_width(None), 1280);
    assert_eq!(thumb_width(Some(4000)), 1920);
    assert_eq!(thumb_width(Some(1920)), 1920);
    assert_eq!(thumb_width(Some(50)), 640);
    assert_eq!(thumb_width(Some(100)), 100);
    assert_eq!(thumb_width(Some(0)), 0);
}

#[test]
fn thumbnail_indexes() {
    assert_eq!(thumb_index("0.jpg"), Some(0));
    assert_eq!(thumb_index("12.jpg"), Some(12));
    assert_eq!(thumb_index("3"), Some(3));
    assert_eq!(thumb_index("4.jpg.jpg"), Some(4));
    assert_eq!(thumb_index("x.jpg"), None);
    assert_eq!(thumb_index(".jpg"), None);
    assert_eq!(thumb_index("-1.jpg"), None);
    assert_eq!(thumb_index("99999999999999999999999.jpg"), None);
}

#[test]
fn loopback_addresses() {
    assert!(is_loopback(&LOCAL));
    assert!(is_loopback(&IpAddress::V4([127, 1, 2, 3])));
    assert!(!is_loopback(&OTHER));
    assert!(is_loopback(&IpAddress::V6([0, 0, 0, 0, 0, 0, 0, 1])));
    assert!(!is_loopback(&IpAddress::V6([0, 0, 0, 0, 0, 0xffff, 0x7f00, 1])));
    assert!(!is_loopback(&IpAddress::V6([0; 8])));
}

#[test]
fn hosts_lose_their_brackets() {
    assert_eq!(bare_host("127.0.0.1"), "127.0.0.1");
    assert_eq!(bare_host("::1"), "::1");
    assert_eq!(bare_host("[::1]"), "::1");
    assert_eq!(bare_host("localhost"), "localhost");
    assert_eq!(bare_host("[localhost]"), "localhost");
    assert_eq!(bare_host("[::1"), "[::1");
    assert_eq!(bare_host("[127.0.0.1]:80"), "[127.0.0.1]:80");
    assert_eq!(bare_host("[]"), "");
}

#[test]
fn notices_at_startup() {
    assert!(startup_notices(&LOCAL, false, false).is_empty());
    assert_eq!(startup_notices(&LOCAL, false, true), vec![StartupNotice::RemoteMode]);
    assert_eq!(
        startup_notices(&OTHER, false, false),
        vec![StartupNotice::Reachable, StartupNotice::RenamingOpen, StartupNotice::LocalButtonsOnly]
    );
    assert_eq!(startup_notices(&OTHER, true, true), vec![StartupNotice::Reachable, StartupNotice::RemoteMode]);
}

fn library() -> (Catalog<u8>, String) {
    let mut c: Catalog<u8> = Catalog::new();
    let id = c.record("/lib/sub/a.mkv".to_string(), "sub/a.mkv".to_string(), None, 1);
    (c, id)
}

#[test]
fn opening_files() {
    let (c, id) = library();
    assert_eq!(open_target(false, &LOCAL, &c, &id, false), Ok("/lib/sub/a.mkv".to_string()));
    assert_eq!(open_target(false, &LOCAL, &c, &id, true), Ok("/lib/sub".to_string()));
    assert_eq!(open_target(true, &LOCAL, &c, &id, false), Err(OpenRefusal::Forbidden));
    assert_eq!(open_target(false, &OTHER, &c, &id, false), Err(OpenRefusal::Forbidden));
    assert_eq!(open_target(false, &LOCAL, &c, "nope", false), Err(OpenRefusal::NotFound));
}

#[test]
fn rename_checks() {
    let (c, id) = library();
    assert_eq!(check_rename(false, &c, Some(&id), Some("b.mkv")), Ok("/lib/sub/a.mkv".to_string()));
    assert_eq!(check_rename(true, &c, Some(&id), Some("b.mkv")), Err(RenameRefusal::ReadOnly));
    assert_eq!(check_rename(false, &c, None, Some("b.mkv")), Err(RenameRefusal::MissingId));
    assert_eq!(check_rename(false, &c, Some(&id), None), Err(RenameRefusal::MissingNewName));
    assert_eq!(check_rename(false, &c, Some("nope"), Some("b.mkv")), Err(RenameRefusal::NotFound));
    assert_eq!(check_rename(false, &c, Some(&id), Some("../b.mkv")), Err(RenameRefusal::InvalidFilename));
    assert_eq!(check_rename(false, &c, Some(&id), Some("/b.mkv")), Err(RenameRefusal::InvalidFilename));
    assert_eq!(check_rename(false, &c, Some(&id), Some("\\b.mkv")), Err(RenameRefusal::InvalidFilename));
    assert_eq!(check_rename(false, &c, Some(&id), Some("x..mkv")), Err(RenameRefusal::InvalidFilename));
    assert_eq!(RenameRefusal::ReadOnly.status(), 403);
    assert_eq!(RenameRefusal::NotFound.status(), 404);
    assert_eq!(RenameRefusal::AlreadyExists.status(), 409);
    assert_eq!(RenameRefusal::InvalidFilename.status(), 400);
    assert_eq!(RenameRefusal::MissingId.message(), "Missing id");
    assert_eq!(RenameRefusal::EscapesRoot.message(), "Path escapes root directory");
}

#[test]
fn rename_targets() {
    assert_eq!(
        rename_target("/lib", "sub//x.mkv"),
        Ok(("/lib/sub/x.mkv".to_string(), "/lib/sub".to_string()))
    );
    assert_eq!(rename_target("/lib", "./x.mkv"), Ok(("/lib/x.mkv".to_string(), "/lib".to_string())));
    assert_eq!(rename_target("/", ""), Err(RenameRefusal::InvalidPath));
    assert_eq!(check_inside("/lib/sub", "/lib"), Ok(()));
    assert_eq!(check_inside("/elsewhere", "/lib"), Err(RenameRefusal::EscapesRoot));
    assert_eq!(check_inside("/library", "/lib"), Err(RenameRefusal::EscapesRoot));
}

#[test]
fn applying_a_rename() {
    let (mut c, id) = library();
    let r = apply_rename(&mut c, &id, "/lib/b.mkv".to_string(), "/lib");
    assert_eq!(r.old_id, id);
    assert_eq!(r.new_id, video_id("/lib/b.mkv"));
    assert_eq!(r.rel_path, "b.mkv");
    assert!(c.get(&id).is_none());
    assert_eq!(c.get(&r.new_id).unwrap().meta, 1);
}

#[test]
fn renamed_path_in_normal_form_is_rescanned_once() {
    for (name, path, rel) in [("sub//x.mkv", "/lib/sub/x.mkv", "sub/x.mkv"), ("./x.mkv", "/lib/x.mkv", "x.mkv")] {
        let mut c: Catalog<u8> = Catalog::new();
        let id = c.record("/lib/a.mkv".to_string(), "a.mkv".to_string(), None, 1);
        let (new_path, _dir) = rename_target("/lib", name).unwrap();
        assert_eq!(new_path, path);
        let r = apply_rename(&mut c, &id, new_path, "/lib");
        assert_eq!(r.new_id, video_id(path));
        assert_eq!(r.rel_path, rel);
        // A later update through the watcher sees the file under the same path.
        assert!(record_probe(&mut c, path, "/lib", None, Some(2)));
        assert_eq!(c.entries().len(), 1);
        assert_eq!(c.get(&video_id(path)).unwrap().meta, 2);
    }
}

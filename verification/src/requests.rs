//! Decisions of the HTTP handlers: thumbnail parameters, opening a file on
//! the server's machine, and renaming a video.
use vstd::prelude::*;
use crate::catalog::{Catalog, keyed_by_path};
use crate::net::{IpAddress, is_loopback, loopback};
use crate::paths::{id_fits, path_join, path_normalized, path_parent, path_starts_with, relative_path,
    relative_path_of, spec_path_join, spec_path_normalized, spec_path_parent, spec_path_starts_with,
    video_id, video_id_of};
use crate::text::{chars_of, contains_str, contains_text, parse_u64, parse_unsigned, string_from_chars};

verus! {

/// The width of a thumbnail for a requested width: 1280 when none is
/// requested; above 1920 it is 1920, and a width below 100 other than 0
/// (which keeps the width of the video) becomes 640.
pub open spec fn thumb_width_of(requested: Option<u32>) -> u32 {
    let w: u32 = match requested {
        Some(w) => w,
        None => 1280,
    };
    if w > 1920 {
        1920
    } else if w < 100 && w != 0 {
        640
    } else {
        w
    }
}

/// The width of a thumbnail for the requested width.
pub fn thumb_width(requested: Option<u32>) -> (res: u32)
    ensures
        res == thumb_width_of(requested),
{
    let mut w: u32 = match requested {
        Some(w) => w,
        None => 1280,
    };
    if w > 1920 {
        w = 1920;
    }
    if w < 100 && w != 0 {
        w = 640;
    }
    w
}

/// `s` without every trailing ".jpg".
pub open spec fn without_jpg(s: Seq<char>) -> Seq<char>
    decreases s.len(),
{
    if s.len() >= 4 && s.subrange(s.len() - 4, s.len() as int) == seq!['.', 'j', 'p', 'g'] {
        without_jpg(s.subrange(0, s.len() - 4))
    } else {
        s
    }
}

/// The chapter index in the last part of a thumbnail URL, such as "3.jpg":
/// the text without its trailing ".jpg" suffixes, read as an unsigned number
/// that fits a `usize`; `None` when it is no such number.
pub fn thumb_index(name: &str) -> (res: Option<usize>)
    ensures
        match res {
            Some(i) => parse_unsigned(without_jpg(name@), usize::MAX as nat) == Some(i as nat),
            None => parse_unsigned(without_jpg(name@), usize::MAX as nat) is None,
        },
{
    let mut c = chars_of(name);
    let mut n = c.len();
    assert(c@.subrange(0, n as int) =~= name@);
    while n >= 4 && c[n - 4] == '.' && c[n - 3] == 'j' && c[n - 2] == 'p' && c[n - 1] == 'g'
        invariant
            n <= c.len(),
            c@ == name@,
            without_jpg(name@) == without_jpg(c@.subrange(0, n as int)),
        decreases n,
    {
        assert(c@.subrange(0, n as int).subrange(n - 4, n as int) =~= seq!['.', 'j', 'p', 'g']);
        assert(c@.subrange(0, n as int).subrange(0, n - 4) =~= c@.subrange(0, n - 4));
        n = n - 4;
    }
    proof {
        let t = c@.subrange(0, n as int);
        if t.len() >= 4 && t.subrange(t.len() - 4, t.len() as int) == seq!['.', 'j', 'p', 'g'] {
            assert(t.subrange(t.len() - 4, t.len() as int)[0] == c@[n - 4]);
            assert(t.subrange(t.len() - 4, t.len() as int)[1] == c@[n - 3]);
            assert(t.subrange(t.len() - 4, t.len() as int)[2] == c@[n - 2]);
            assert(t.subrange(t.len() - 4, t.len() as int)[3] == c@[n - 1]);
        }
    }
    c.truncate(n);
    let stem = string_from_chars(&c);
    match parse_u64(stem.as_str()) {
        Some(v) => {
            if v as u128 <= usize::MAX as u128 {
                Some(v as usize)
            } else {
                None
            }
        },
        None => None,
    }
}

/// Why a request to open a file on the server's machine is refused.
#[derive(Clone, Copy, Debug, PartialEq, Eq, Structural)]
pub enum OpenRefusal {
    /// Remote mode, or the request comes from another machine (403).
    Forbidden,
    /// No video has the id (404).
    NotFound,
}

/// What a request to open the video `id` (or, with `dir`, its folder) opens.
pub open spec fn open_target_of<M>(
    remote: bool,
    peer: IpAddress,
    videos: Map<Seq<char>, crate::catalog::VideoEntry<M>>,
    id: Seq<char>,
    dir: bool,
) -> Result<Seq<char>, OpenRefusal> {
    if remote || !loopback(peer) {
        Err(OpenRefusal::Forbidden)
    } else if !videos.contains_key(id) {
        Err(OpenRefusal::NotFound)
    } else if dir {
        match spec_path_parent(videos[id].path@) {
            Some(p) => Ok(p),
            None => Ok(videos[id].path@),
        }
    } else {
        Ok(videos[id].path@)
    }
}

/// The path to hand to the system's opener for a request from `peer` to open
/// the video `id`, or its folder with `dir`: refused in remote mode and for
/// requests from other machines, and for an unknown id.
pub fn open_target<M>(remote: bool, peer: &IpAddress, catalog: &Catalog<M>, id: &str, dir: bool) -> (res: Result<String, OpenRefusal>)
    ensures
        match res {
            Ok(p) => open_target_of(remote, *peer, catalog@, id@, dir) == Ok::<Seq<char>, OpenRefusal>(p@),
            Err(e) => open_target_of(remote, *peer, catalog@, id@, dir) == Err::<Seq<char>, OpenRefusal>(e),
        },
{
    if remote || !is_loopback(peer) {
        return Err(OpenRefusal::Forbidden);
    }
    match catalog.get(id) {
        None => Err(OpenRefusal::NotFound),
        Some(e) => {
            if dir {
                match path_parent(e.path.as_str()) {
                    Some(p) => Ok(p),
                    None => Ok(e.path.clone()),
                }
            } else {
                Ok(e.path.clone())
            }
        },
    }
}

} // verus!

verus! {

/// The query of a request to open a video or its folder.
pub struct ApiOpenParams {
    pub id: String,
}

/// The answer to a rename: the old and the new id, and the new path
/// relative to the root.
pub struct RenameResponse {
    pub old_id: String,
    pub new_id: String,
    pub rel_path: String,
}

/// Why a rename is refused.
#[derive(Clone, Copy, Debug, PartialEq, Eq, Structural)]
pub enum RenameRefusal {
    /// The server runs read-only.
    ReadOnly,
    /// The request names no video.
    MissingId,
    /// The request gives no new name.
    MissingNewName,
    /// No video has the id.
    NotFound,
    /// The new name climbs out with "..", or is absolute.
    InvalidFilename,
    /// The new path has no parent directory.
    InvalidPath,
    /// The new directory lies outside the root once links are resolved.
    EscapesRoot,
    /// A file of the new name exists.
    AlreadyExists,
}

/// The HTTP status of a refusal.
pub open spec fn refusal_status(r: RenameRefusal) -> u16 {
    match r {
        RenameRefusal::ReadOnly => 403,
        RenameRefusal::NotFound => 404,
        RenameRefusal::AlreadyExists => 409,
        _ => 400,
    }
}

impl RenameRefusal {
    /// The HTTP status of the refusal: 403 read-only, 404 not found, 409 for
    /// an existing file, 400 otherwise.
    pub fn status(&self) -> (res: u16)
        ensures
            res == refusal_status(*self),
    {
        match self {
            RenameRefusal::ReadOnly => 403,
            RenameRefusal::NotFound => 404,
            RenameRefusal::AlreadyExists => 409,
            _ => 400,
        }
    }

    /// The message sent with the refusal.
    pub fn message(&self) -> (res: &'static str)
        ensures
            res@ == match *self {
                RenameRefusal::ReadOnly => "Renaming is disabled"@,
                RenameRefusal::MissingId => "Missing id"@,
                RenameRefusal::MissingNewName => "Missing new_name"@,
                RenameRefusal::NotFound => "File not found"@,
                RenameRefusal::InvalidFilename => "Invalid filename"@,
                RenameRefusal::InvalidPath => "Invalid path"@,
                RenameRefusal::EscapesRoot => "Path escapes root directory"@,
                RenameRefusal::AlreadyExists => "File already exists"@,
            },
    {
        match self {
            RenameRefusal::ReadOnly => "Renaming is disabled",
            RenameRefusal::MissingId => "Missing id",
            RenameRefusal::MissingNewName => "Missing new_name",
            RenameRefusal::NotFound => "File not found",
            RenameRefusal::InvalidFilename => "Invalid filename",
            RenameRefusal::InvalidPath => "Invalid path",
            RenameRefusal::EscapesRoot => "Path escapes root directory",
            RenameRefusal::AlreadyExists => "File already exists",
        }
    }
}

/// A new name is refused outright: it contains "..", or starts with '/' or '\'.
pub open spec fn invalid_new_name(name: Seq<char>) -> bool {
    contains_text(name, ".."@) || (name.len() > 0 && (name[0] == '/' || name[0] == '\\'))
}

/// The first checks of a rename request, in order: read-only mode, the id,
/// the new name, the video, and the new name's form. Gives the video's path.
pub open spec fn check_rename_of<M>(
    read_only: bool,
    videos: Map<Seq<char>, crate::catalog::VideoEntry<M>>,
    id: Option<Seq<char>>,
    new_name: Option<Seq<char>>,
) -> Result<Seq<char>, RenameRefusal> {
    if read_only {
        Err(RenameRefusal::ReadOnly)
    } else if id is None {
        Err(RenameRefusal::MissingId)
    } else if new_name is None {
        Err(RenameRefusal::MissingNewName)
    } else if !videos.contains_key(id->0) {
        Err(RenameRefusal::NotFound)
    } else if invalid_new_name(new_name->0) {
        Err(RenameRefusal::InvalidFilename)
    } else {
        Ok(videos[id->0].path@)
    }
}

/// The checks of a rename request that need no file system: gives the
/// current path of the video, or why the request is refused.
pub fn check_rename<M>(read_only: bool, catalog: &Catalog<M>, id: Option<&str>, new_name: Option<&str>) -> (res: Result<String, RenameRefusal>)
    ensures
        match res {
            Ok(p) => check_rename_of(read_only, catalog@, opt_view(id), opt_view(new_name))
                == Ok::<Seq<char>, RenameRefusal>(p@),
            Err(e) => check_rename_of(read_only, catalog@, opt_view(id), opt_view(new_name))
                == Err::<Seq<char>, RenameRefusal>(e),
        },
{
    if read_only {
        return Err(RenameRefusal::ReadOnly);
    }
    let id = match id {
        Some(i) => i,
        None => return Err(RenameRefusal::MissingId),
    };
    let new_name = match new_name {
        Some(n) => n,
        None => return Err(RenameRefusal::MissingNewName),
    };
    let old_path = match catalog.get(id) {
        Some(e) => e.path.clone(),
        None => return Err(RenameRefusal::NotFound),
    };
    let c = chars_of(new_name);
    if contains_str(new_name, "..") || (c.len() > 0 && (c[0] == '/' || c[0] == '\\')) {
        return Err(RenameRefusal::InvalidFilename);
    }
    Ok(old_path)
}

/// The text of an optional text.
pub open spec fn opt_view(s: Option<&str>) -> Option<Seq<char>> {
    match s {
        Some(t) => Some(t@),
        None => None,
    }
}

/// The new path of a rename: the new name below the root, in normal form
/// (no repeated separators, no inner "."), and its parent directory.
pub open spec fn rename_target_of(root: Seq<char>, new_name: Seq<char>) -> Result<(Seq<char>, Seq<char>), RenameRefusal> {
    let p = spec_path_normalized(spec_path_join(root, new_name));
    match spec_path_parent(p) {
        Some(dir) => Ok((p, dir)),
        None => Err(RenameRefusal::InvalidPath),
    }
}

/// The path that `new_name` gives below `root`, and the directory it goes into.
pub fn rename_target(root: &str, new_name: &str) -> (res: Result<(String, String), RenameRefusal>)
    ensures
        match res {
            Ok((p, d)) => rename_target_of(root@, new_name@) == Ok::<(Seq<char>, Seq<char>), RenameRefusal>((p@, d@)),
            Err(e) => rename_target_of(root@, new_name@) == Err::<(Seq<char>, Seq<char>), RenameRefusal>(e),
        },
{
    let joined = path_join(root, new_name);
    let p = path_normalized(joined.as_str());
    match path_parent(p.as_str()) {
        Some(dir) => Ok((p, dir)),
        None => Err(RenameRefusal::InvalidPath),
    }
}

/// Whether the directory `dir` lies inside `root`, both with links resolved;
/// refused otherwise.
pub fn check_inside(dir: &str, root: &str) -> (res: Result<(), RenameRefusal>)
    ensures
        res is Ok <==> spec_path_starts_with(dir@, root@),
        res matches Err(e) ==> e == RenameRefusal::EscapesRoot,
{
    if path_starts_with(dir, root) {
        Ok(())
    } else {
        Err(RenameRefusal::EscapesRoot)
    }
}

/// Moves the video `id` in the catalog to `new_path`, once the file has been
/// renamed, and gives the answer to the request.
pub fn apply_rename<M>(catalog: &mut Catalog<M>, id: &str, new_path: String, root: &str) -> (res: RenameResponse)
    requires
        id_fits(new_path@),
    ensures
        res.old_id@ == id@,
        res.new_id@ == video_id_of(new_path@),
        res.rel_path@ == relative_path_of(new_path@, root@),
        keyed_by_path(final(catalog)@),
        !old(catalog)@.contains_key(id@) ==> final(catalog)@ == old(catalog)@,
        old(catalog)@.contains_key(id@) ==> final(catalog)@ == old(catalog)@.remove(id@).insert(
            video_id_of(new_path@),
            crate::catalog::VideoEntry {
                id: final(catalog)@[video_id_of(new_path@)].id,
                path: new_path,
                rel_path: final(catalog)@[video_id_of(new_path@)].rel_path,
                modified: old(catalog)@[id@].modified,
                meta: old(catalog)@[id@].meta,
            },
        ),
        old(catalog)@.contains_key(id@) ==> final(catalog)@[video_id_of(new_path@)].id@ == video_id_of(new_path@)
            && final(catalog)@[video_id_of(new_path@)].rel_path@ == relative_path_of(new_path@, root@),
{
    let new_id = video_id(new_path.as_str());
    let rel = relative_path(new_path.as_str(), root);
    let ghost np = new_path;
    catalog.rename(id, new_path, rel.clone());
    RenameResponse { old_id: id.to_owned(), new_id, rel_path: rel }
}

} // verus!

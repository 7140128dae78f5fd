//! Properties of the library as a whole, each proved from the contracts of
//! the functions it speaks of.
use vstd::prelude::*;
use crate::catalog::{VideoEntry, Stamp};
use crate::media::{audio_codecs_of, candidates_among, copies_video, is_candidate, HwEncoder,
    ProbeStream, browser_video_codecs, encoder_name, preferred_encoders, thumb_args_of, transcode_args_of};
use crate::net::{bare_host_of, loopback, IpAddress};
use crate::scanner::candidates_of;
use crate::paths::{is_video_path, spec_path_extension, spec_to_lowercase, spec_path_join, spec_path_normalized, spec_to_uppercase, video_id_of};
use crate::requests::{rename_target_of, check_rename_of, invalid_new_name, open_target_of, thumb_width_of, OpenRefusal,
    RenameRefusal};
use crate::size::{div_round_half_even, f64_scale, human_size_text, mantissa_limit, nearest_f64, one_decimal,
    unit_index, unit_scale};
use crate::text::{ascii_lower, contains_text, decimal, digit_char, eq_ignoring_ascii_case};

verus! {

/// Whether the scanner reads the file at `path` again, for a catalog `videos`
/// (the condition that `should_probe` computes).
pub open spec fn probe_needed<M>(videos: Map<Seq<char>, VideoEntry<M>>, path: Seq<char>, modified: Option<Stamp>) -> bool {
    is_video_path(path) && !(videos.contains_key(video_id_of(path)) && modified is Some
        && videos[video_id_of(path)].modified == modified)
}

/// Reading back a recorded video: after a video is recorded under the id of
/// its path, looking up that id gives the recorded entry, and every other id
/// gives what it gave before.
pub proof fn law_lookup_after_record<M>(
    videos: Map<Seq<char>, VideoEntry<M>>,
    entry: VideoEntry<M>,
    other: Seq<char>,
)
    requires
        entry.id@ == video_id_of(entry.path@),
    ensures
        videos.insert(entry.id@, entry).contains_key(video_id_of(entry.path@)),
        videos.insert(entry.id@, entry)[video_id_of(entry.path@)] == entry,
        other != entry.id@ ==> videos.insert(entry.id@, entry).contains_key(other) == videos.contains_key(other),
        other != entry.id@ && videos.contains_key(other) ==> videos.insert(entry.id@, entry)[other] == videos[other],
{
}

/// An unchanged file is not read again: once a video is recorded with a
/// known modification time, the scanner does not probe it again while the
/// file keeps that time.
pub proof fn law_recorded_video_not_probed_again<M>(
    videos: Map<Seq<char>, VideoEntry<M>>,
    entry: VideoEntry<M>,
    time: Stamp,
)
    requires
        entry.id@ == video_id_of(entry.path@),
        entry.modified == Some(time),
    ensures
        !probe_needed(videos.insert(entry.id@, entry), entry.path@, Some(time)),
{
}

/// A changed file is read again: a video recorded with one modification time
/// is probed when the file shows another time, and so is a video whose time
/// is unknown.
pub proof fn law_changed_video_probed_again<M>(
    videos: Map<Seq<char>, VideoEntry<M>>,
    entry: VideoEntry<M>,
    now: Option<Stamp>,
)
    requires
        entry.id@ == video_id_of(entry.path@),
        is_video_path(entry.path@),
        entry.modified != now || now is None,
    ensures
        probe_needed(videos.insert(entry.id@, entry), entry.path@, now),
{
}

/// A rename moves the entry: afterwards the new id gives the entry with the
/// new path and the old modification time and metadata, and the old id is
/// gone unless the new path has the same id.
pub proof fn law_rename_moves_entry<M>(
    videos: Map<Seq<char>, VideoEntry<M>>,
    old_id: Seq<char>,
    moved: VideoEntry<M>,
)
    requires
        videos.contains_key(old_id),
        moved.id@ == video_id_of(moved.path@),
        moved.modified == videos[old_id].modified,
        moved.meta == videos[old_id].meta,
    ensures
        videos.remove(old_id).insert(moved.id@, moved)[moved.id@] == moved,
        moved.id@ != old_id ==> !videos.remove(old_id).insert(moved.id@, moved).contains_key(old_id),
        videos.remove(old_id).insert(moved.id@, moved)[moved.id@].meta == videos[old_id].meta,
{
}

proof fn lemma_small_f64(n: nat)
    requires
        n < mantissa_limit(),
    ensures
        nearest_f64(n) == n,
{
    assert(f64_scale(n) == 1);
    assert(n / 1 == n && n % 1 == 0) by (nonlinear_arith);
}

/// Sizes below 1 KB show as whole bytes: a size of n bytes, 0 < n < 1024,
/// shows as n followed by ".0 B".
pub proof fn law_bytes_shown_whole(n: nat)
    requires
        0 < n < 1024,
    ensures
        human_size_text(n) == decimal(n) + seq!['.', '0', ' ', 'B'],
{
    lemma_small_f64(n);
    assert(unit_index(n) == 0);
    assert(unit_scale(0) == 1);
    assert(div_round_half_even(10 * n, 1) == 10 * n) by (nonlinear_arith);
    assert((10 * n) / 10 == n && (10 * n) % 10 == 0) by (nonlinear_arith);
    assert(one_decimal(10 * n) =~= decimal(n) + seq!['.', digit_char(0)]);
    assert(human_size_text(n) =~= decimal(n) + seq!['.', '0', ' ', 'B']);
}

/// Whole kilobytes show as such: a size of k KB, 0 < k < 1024, shows as k
/// followed by ".0 KB".
pub proof fn law_kilobytes_shown_whole(k: nat)
    requires
        0 < k < 1024,
    ensures
        human_size_text(1024 * k) == decimal(k) + seq!['.', '0', ' ', 'K', 'B'],
{
    let n = 1024 * k;
    lemma_small_f64(n);
    assert(unit_index(n) == 1);
    assert(div_round_half_even(10 * n, 1024) == 10 * k) by (nonlinear_arith)
        requires n == 1024 * k;
    assert((10 * k) / 10 == k && (10 * k) % 10 == 0) by (nonlinear_arith);
    assert(one_decimal(10 * k) =~= decimal(k) + seq!['.', digit_char(0)]);
    assert(human_size_text(n) =~= decimal(k) + seq!['.', '0', ' ', 'K', 'B']);
}

/// The unit is the largest one the size reaches: the shown unit k (below EB)
/// is the one with 1024^k <= value < 1024^(k+1), for the value that the size
/// has as a double.
pub proof fn law_unit_is_largest_reached(n: nat)
    requires
        n > 0,
    ensures
        unit_index(nearest_f64(n)) < 6 ==> unit_scale(unit_index(nearest_f64(n))) <= nearest_f64(n)
            < unit_scale(unit_index(nearest_f64(n)) + 1),
        unit_index(nearest_f64(n)) == 6 ==> unit_scale(6) <= nearest_f64(n),
{
    let s = f64_scale(n);
    lemma_scale_positive(n);
    let q = n / s;
    assert(q * s <= n) by {
        vstd::arithmetic::div_mod::lemma_fundamental_div_mod(n as int, s as int);
    }
    lemma_scale_quotient(n);
    assert(div_round_half_even(n, s) >= 1);
    assert(nearest_f64(n) >= 1) by (nonlinear_arith)
        requires nearest_f64(n) == div_round_half_even(n, s) * s, div_round_half_even(n, s) >= 1, s >= 1;
}

proof fn lemma_scale_positive(n: nat)
    ensures
        f64_scale(n) >= 1,
    decreases n,
{
    if n >= mantissa_limit() {
        lemma_scale_positive(n / 2);
    }
}

proof fn lemma_scale_quotient(n: nat)
    requires
        n > 0,
    ensures
        n / f64_scale(n) >= 1,
    decreases n,
{
    if n >= mantissa_limit() {
        lemma_scale_quotient(n / 2);
        lemma_scale_positive(n / 2);
        let s = f64_scale(n / 2);
        vstd::arithmetic::div_mod::lemma_div_denominator(n as int, 2, s as int);
    } else {
        assert(n / 1 == n) by (nonlinear_arith);
    }
}

/// The audio codecs of a video are listed once each: no codec appears twice,
/// and a codec is listed exactly when some audio stream has it (in upper case).
pub proof fn law_audio_codecs_once_each(streams: Seq<ProbeStream>)
    ensures
        forall|i: int, j: int| 0 <= i < j < audio_codecs_of(streams).len()
            ==> audio_codecs_of(streams)[i] != audio_codecs_of(streams)[j],
        forall|c: Seq<char>| audio_codecs_of(streams).contains(c) <==> exists|k: int| 0 <= k < streams.len()
            && (#[trigger] streams[k]).codec_type@ == "audio"@ && spec_to_uppercase(streams[k].codec_name@) == c,
    decreases streams.len(),
{
    if streams.len() > 0 {
        let pre = streams.drop_last();
        law_audio_codecs_once_each(pre);
        let last = streams.last();
        assert forall|c: Seq<char>| audio_codecs_of(streams).contains(c) <==> exists|k: int| 0 <= k < streams.len()
            && (#[trigger] streams[k]).codec_type@ == "audio"@ && spec_to_uppercase(streams[k].codec_name@) == c by {
            if audio_codecs_of(streams).contains(c) {
                if audio_codecs_of(pre).contains(c) {
                    let k = choose|k: int| 0 <= k < pre.len() && (#[trigger] pre[k]).codec_type@ == "audio"@
                        && spec_to_uppercase(pre[k].codec_name@) == c;
                    assert(streams[k] == pre[k]);
                } else {
                    let k = streams.len() - 1;
                    assert(streams[k] == last);
                    let i = choose|i: int| 0 <= i < audio_codecs_of(streams).len() && audio_codecs_of(streams)[i] == c;
                    assert(audio_codecs_of(streams) =~= audio_codecs_of(pre).push(spec_to_uppercase(last.codec_name@)));
                }
            }
            if exists|k: int| 0 <= k < streams.len() && (#[trigger] streams[k]).codec_type@ == "audio"@
                && spec_to_uppercase(streams[k].codec_name@) == c {
                let k = choose|k: int| 0 <= k < streams.len() && (#[trigger] streams[k]).codec_type@ == "audio"@
                    && spec_to_uppercase(streams[k].codec_name@) == c;
                if k < streams.len() - 1 {
                    assert(pre[k] == streams[k]);
                    assert(audio_codecs_of(pre).contains(c));
                    let i = choose|i: int| 0 <= i < audio_codecs_of(pre).len() && audio_codecs_of(pre)[i] == c;
                    if !audio_codecs_of(pre).contains(spec_to_uppercase(last.codec_name@)) && last.codec_type@ == "audio"@ {
                        assert(audio_codecs_of(streams)[i] == c);
                    }
                } else {
                    if !audio_codecs_of(pre).contains(c) {
                        assert(audio_codecs_of(streams)[audio_codecs_of(pre).len() as int] == c);
                    }
                }
            }
        }
    }
}

/// Every candidate encoder is one that ffmpeg lists, and VAAPI is never a
/// candidate when its render device is missing.
pub proof fn law_candidates_listed(listing: Seq<char>, device_present: bool, n: nat)
    requires
        n <= 5,
    ensures
        forall|i: int| 0 <= i < candidates_among(listing, device_present, n).len()
            ==> is_candidate(#[trigger] candidates_among(listing, device_present, n)[i], listing, device_present),
        !device_present ==> !candidates_among(listing, device_present, n).contains(HwEncoder::Vaapi),
    decreases n,
{
    if n > 0 {
        law_candidates_listed(listing, device_present, (n - 1) as nat);
        let before = candidates_among(listing, device_present, (n - 1) as nat);
        let now = candidates_among(listing, device_present, n);
        assert forall|i: int| 0 <= i < now.len() implies is_candidate(#[trigger] now[i], listing, device_present) by {
            if i < before.len() {
                assert(now[i] == before[i]);
            }
        }
        if !device_present && now.contains(HwEncoder::Vaapi) {
            let i = choose|i: int| 0 <= i < now.len() && now[i] == HwEncoder::Vaapi;
            assert(is_candidate(now[i], listing, device_present));
        }
    }
}

/// Whether a video stream is copied does not depend on the ASCII case of its
/// codec name: two names equal up to ASCII case are decided alike.
pub proof fn law_copy_ignores_case(a: Seq<char>, b: Seq<char>)
    requires
        eq_ignoring_ascii_case(a, b),
    ensures
        copies_video(a) == copies_video(b),
{
    if copies_video(a) {
        let i = choose|i: int| 0 <= i < 4 && eq_ignoring_ascii_case(a, #[trigger] browser_video_codecs()[i]);
        let c = browser_video_codecs()[i];
        assert forall|j: int| 0 <= j < b.len() implies ascii_lower(#[trigger] b[j]) == ascii_lower(c[j]) by {
            assert(ascii_lower(a[j]) == ascii_lower(b[j]));
        }
        assert(eq_ignoring_ascii_case(b, c));
    }
    if copies_video(b) {
        let i = choose|i: int| 0 <= i < 4 && eq_ignoring_ascii_case(b, #[trigger] browser_video_codecs()[i]);
        let c = browser_video_codecs()[i];
        assert forall|j: int| 0 <= j < a.len() implies ascii_lower(#[trigger] a[j]) == ascii_lower(c[j]) by {
            assert(ascii_lower(a[j]) == ascii_lower(b[j]));
        }
        assert(eq_ignoring_ascii_case(a, c));
    }
}

/// A read-only server refuses every rename, and a rename passes the checks
/// only for a known video and a new name without ".." that is not absolute.
pub proof fn law_rename_checks<M>(
    read_only: bool,
    videos: Map<Seq<char>, VideoEntry<M>>,
    id: Option<Seq<char>>,
    new_name: Option<Seq<char>>,
)
    ensures
        read_only ==> check_rename_of(read_only, videos, id, new_name) == Err::<Seq<char>, RenameRefusal>(
            RenameRefusal::ReadOnly,
        ),
        check_rename_of(read_only, videos, id, new_name) is Ok ==> {
            &&& !read_only
            &&& id matches Some(i) && videos.contains_key(i)
            &&& new_name matches Some(n) && !invalid_new_name(n)
        },
{
}

/// Files and folders open only for a local browser outside remote mode: any
/// request in remote mode, or from another machine, is refused as forbidden.
pub proof fn law_open_only_local<M>(
    remote: bool,
    peer: IpAddress,
    videos: Map<Seq<char>, VideoEntry<M>>,
    id: Seq<char>,
    dir: bool,
)
    ensures
        (remote || !loopback(peer)) ==> open_target_of(remote, peer, videos, id, dir) == Err::<Seq<char>, OpenRefusal>(
            OpenRefusal::Forbidden,
        ),
{
}

/// A thumbnail is either as wide as the video (width 0) or between 100 and
/// 1920 pixels, and a requested width in that range is kept.
pub proof fn law_thumb_width_range(requested: Option<u32>)
    ensures
        thumb_width_of(requested) == 0 || 100 <= thumb_width_of(requested) <= 1920,
        forall|w: u32| requested == Some(w) && (w == 0 || 100 <= w <= 1920) ==> thumb_width_of(requested) == w,
{
}

/// The bracketed form of a host is the host itself: "[h]" stands for h.
pub proof fn law_brackets_stripped(h: Seq<char>)
    ensures
        bare_host_of(seq!['['] + h + seq![']']) == h,
        h.len() == 0 || h[0] != '[' ==> bare_host_of(h) == h,
{
    let b = seq!['['] + h + seq![']'];
    assert(b.subrange(1, b.len() - 1) =~= h);
}

/// Each video is read once per scan: the files to read hold no path twice,
/// and they are exactly the video files among those found.
pub proof fn law_candidates_once_each(files: Seq<String>)
    ensures
        forall|i: int, j: int| 0 <= i < j < candidates_of(files).len() ==> candidates_of(files)[i] != candidates_of(files)[j],
        forall|p: Seq<char>| #![trigger candidates_of(files).contains(p)] candidates_of(files).contains(p) <==> is_video_path(p)
            && exists|k: int| 0 <= k < files.len() && (#[trigger] files[k])@ == p,
    decreases files.len(),
{
    if files.len() > 0 {
        let pre = files.drop_last();
        law_candidates_once_each(pre);
        let f = files.last()@;
        let before = candidates_of(pre);
        assert forall|p: Seq<char>| candidates_of(files).contains(p) <==> is_video_path(p) && exists|k: int| 0 <= k < files.len()
            && (#[trigger] files[k])@ == p by {
            if candidates_of(files).contains(p) {
                if before.contains(p) {
                    let k = choose|k: int| 0 <= k < pre.len() && (#[trigger] pre[k])@ == p;
                    assert(files[k] == pre[k]);
                } else {
                    let i = choose|i: int| 0 <= i < candidates_of(files).len() && candidates_of(files)[i] == p;
                    assert(candidates_of(files) =~= before.push(f));
                    assert(files[files.len() - 1]@ == p);
                }
            }
            if is_video_path(p) && exists|k: int| 0 <= k < files.len() && (#[trigger] files[k])@ == p {
                let k = choose|k: int| 0 <= k < files.len() && (#[trigger] files[k])@ == p;
                if k < files.len() - 1 {
                    assert(pre[k] == files[k]);
                    assert(before.contains(p));
                    let i = choose|i: int| 0 <= i < before.len() && before[i] == p;
                    if is_video_path(f) && !before.contains(f) {
                        assert(candidates_of(files)[i] == p);
                    }
                } else if !before.contains(p) {
                    assert(candidates_of(files)[before.len() as int] == p);
                }
            }
        }
    }
}

/// A renamed video is keyed by the id of its path in normal form: when the
/// rename target of `new_name` below `root` is `p`, the entry moves to the
/// id of the normal form of `root` joined with `new_name`; and when a later
/// scan records the same path, it replaces that entry instead of adding a
/// second one.
pub proof fn law_rename_keyed_by_normal_form<M>(
    videos: Map<Seq<char>, VideoEntry<M>>,
    old_id: Seq<char>,
    root: Seq<char>,
    new_name: Seq<char>,
    p: Seq<char>,
    dir: Seq<char>,
    moved: VideoEntry<M>,
    rescanned: VideoEntry<M>,
)
    requires
        rename_target_of(root, new_name) == Ok::<(Seq<char>, Seq<char>), RenameRefusal>((p, dir)),
        moved.path@ == p,
        moved.id@ == video_id_of(p),
        rescanned.path@ == p,
        rescanned.id@ == video_id_of(p),
    ensures
        p == spec_path_normalized(spec_path_join(root, new_name)),
        videos.remove(old_id).insert(moved.id@, moved).contains_key(
            video_id_of(spec_path_normalized(spec_path_join(root, new_name))),
        ),
        videos.remove(old_id).insert(moved.id@, moved).insert(rescanned.id@, rescanned).dom()
            == videos.remove(old_id).insert(moved.id@, moved).dom(),
{
    let after = videos.remove(old_id).insert(moved.id@, moved);
    assert(after.insert(rescanned.id@, rescanned).dom() =~= after.dom());
}

/// A transcode starts where it is asked to: whenever a seek time `t` is
/// given, the arguments hold "-ss" directly followed by `t`, before the
/// input ("-i" followed by the path), whether the video is encoded or copied.
pub proof fn law_transcode_seeks(path: Seq<char>, t: Seq<char>, encoder: Option<HwEncoder>)
    ensures
        exists|i: int, k: int|
            0 <= i && i + 1 < k && k + 1 < transcode_args_of(path, Some(t), encoder).len()
                && #[trigger] transcode_args_of(path, Some(t), encoder)[i] == "-ss"@
                && transcode_args_of(path, Some(t), encoder)[i + 1] == t
                && #[trigger] transcode_args_of(path, Some(t), encoder)[k] == "-i"@
                && transcode_args_of(path, Some(t), encoder)[k + 1] == path,
{
    let a = transcode_args_of(path, Some(t), encoder);
    let pre: Seq<Seq<char>> = match encoder {
        Some(e) => crate::media::pre_input_args_of(e),
        None => seq![],
    };
    let seek: Seq<Seq<char>> = if encoder is None {
        seq!["-noaccurate_seek"@, "-ss"@, t]
    } else {
        seq!["-ss"@, t]
    };
    let out: Seq<Seq<char>> = match encoder {
        Some(e) => crate::media::encoder_args_of(e),
        None => seq!["-c:v"@, "copy"@],
    };
    let tail: Seq<Seq<char>> = seq![
        "-c:a"@,
        "aac"@,
        "-b:a"@,
        "192k"@,
        "-af"@,
        "aresample=async=1"@,
        "-avoid_negative_ts"@,
        "make_zero"@,
        "-f"@,
        "mp4"@,
        "-movflags"@,
        "frag_keyframe+empty_moov"@,
        "pipe:1"@,
    ];
    let head = seq!["-v"@, "error"@] + pre + seek;
    assert(a =~= head + seq!["-i"@, path] + out + tail);
    let i = head.len() - 2;
    let k = head.len() as int;
    assert(head[i] == "-ss"@ && head[i + 1] == t);
    assert(a[i] == "-ss"@ && a[i + 1] == t);
    assert(a[k] == "-i"@ && a[k + 1] == path);
}

/// A thumbnail is taken where it is asked to: whenever a seek time `t` is
/// given, the arguments begin "-v error -ss t -i path", for every width,
/// including 0 (the size of the video).
pub proof fn law_thumb_seeks(path: Seq<char>, t: Seq<char>, width: nat)
    ensures
        thumb_args_of(path, Some(t), width).len() > 5,
        thumb_args_of(path, Some(t), width)[2] == "-ss"@,
        thumb_args_of(path, Some(t), width)[3] == t,
        thumb_args_of(path, Some(t), width)[4] == "-i"@,
        thumb_args_of(path, Some(t), width)[5] == path,
        thumb_args_of(path, None, width)[2] == "-i"@,
        thumb_args_of(path, None, width)[3] == path,
        width > 0 ==> thumb_args_of(path, Some(t), width)[8] == "-vf"@ && thumb_args_of(path, Some(t), width)[9]
            == seq!['s', 'c', 'a', 'l', 'e', '='] + decimal(width) + seq![':', '-', '2'],
        thumb_args_of(path, Some(t), width).last() == "pipe:1"@,
{
    let a = thumb_args_of(path, Some(t), width);
    let scale: Seq<Seq<char>> = if width > 0 {
        seq!["-vf"@, crate::media::scale_filter(width)]
    } else {
        seq![]
    };
    let tail: Seq<Seq<char>> = seq!["-f"@, "image2pipe"@, "-vcodec"@, "mjpeg"@, "pipe:1"@];
    assert(a =~= seq!["-v"@, "error"@, "-ss"@, t, "-i"@, path, "-frames:v"@, "1"@] + scale + tail);
    assert(thumb_args_of(path, None, width) =~= seq!["-v"@, "error"@, "-i"@, path, "-frames:v"@, "1"@] + scale + tail);
}

/// Which files are videos: exactly those whose extension, in lower case, is
/// mkv, mp4, m4v, avi, mov or webm. Any other extension (such as srt), and a
/// name without extension, is no video.
pub proof fn law_video_extensions(path: Seq<char>)
    ensures
        is_video_path(path) <==> (spec_path_extension(path) matches Some(e) && {
            let l = spec_to_lowercase(e);
            ||| l == "mkv"@
            ||| l == "mp4"@
            ||| l == "m4v"@
            ||| l == "avi"@
            ||| l == "mov"@
            ||| l == "webm"@
        }),
{
    if let Some(e) = spec_path_extension(path) {
        let l = spec_to_lowercase(e);
        let exts = crate::paths::video_extensions();
        if exts.contains(l) {
            let i = choose|i: int| 0 <= i < exts.len() && exts[i] == l;
            assert(0 <= i < 6);
        }
        if l == "mkv"@ { assert(exts[0] == l); }
        if l == "mp4"@ { assert(exts[1] == l); }
        if l == "m4v"@ { assert(exts[2] == l); }
        if l == "avi"@ { assert(exts[3] == l); }
        if l == "mov"@ { assert(exts[4] == l); }
        if l == "webm"@ { assert(exts[5] == l); }
    }
}

/// Renaming and moving pass the checks: on a writable server, for a known
/// video, every new name without ".." that does not start with '/' or '\'
/// passes and gives the video's path, names with an inner '/' (a move into
/// a subdirectory) included.
pub proof fn law_rename_accepts_plain_names<M>(
    videos: Map<Seq<char>, VideoEntry<M>>,
    id: Seq<char>,
    new_name: Seq<char>,
)
    requires
        videos.contains_key(id),
        !contains_text(new_name, ".."@),
        new_name.len() == 0 || (new_name[0] != '/' && new_name[0] != '\\'),
    ensures
        check_rename_of(false, videos, Some(id), Some(new_name)) == Ok::<Seq<char>, RenameRefusal>(videos[id].path@),
{
}

/// The rank of an encoder in the order of preference.
pub open spec fn preference_rank(e: HwEncoder) -> nat {
    match e {
        HwEncoder::VideoToolbox => 0,
        HwEncoder::Vaapi => 1,
        HwEncoder::Amf => 2,
        HwEncoder::Nvenc => 3,
        HwEncoder::Qsv => 4,
        HwEncoder::Libx264 => 5,
    }
}

/// The encoder `e` is worth a test: a hardware encoder that the listing names,
/// VAAPI only with its render device.
pub open spec fn listed_hardware(e: HwEncoder, listing: Seq<char>, device_present: bool) -> bool {
    e != HwEncoder::Libx264 && contains_text(listing, encoder_name(e)) && (e != HwEncoder::Vaapi || device_present)
}

proof fn lemma_candidates(listing: Seq<char>, device_present: bool, n: nat)
    requires
        n <= 5,
    ensures
        forall|e: HwEncoder| #[trigger] candidates_among(listing, device_present, n).contains(e)
            <==> (preference_rank(e) < n && listed_hardware(e, listing, device_present)),
        forall|i: int| 0 <= i < candidates_among(listing, device_present, n).len()
            ==> preference_rank(#[trigger] candidates_among(listing, device_present, n)[i]) < n,
        forall|i: int, j: int| 0 <= i < j < candidates_among(listing, device_present, n).len()
            ==> preference_rank(#[trigger] candidates_among(listing, device_present, n)[i])
                < preference_rank(#[trigger] candidates_among(listing, device_present, n)[j]),
    decreases n,
{
    if n > 0 {
        lemma_candidates(listing, device_present, (n - 1) as nat);
        let before = candidates_among(listing, device_present, (n - 1) as nat);
        let now = candidates_among(listing, device_present, n);
        let enc = preferred_encoders()[n - 1];
        assert(preference_rank(enc) == n - 1);
        assert forall|e: HwEncoder| #[trigger] now.contains(e)
            <==> (preference_rank(e) < n && listed_hardware(e, listing, device_present)) by {
            if now.contains(e) {
                let i = choose|i: int| 0 <= i < now.len() && now[i] == e;
                if i < before.len() {
                    assert(now[i] == before[i]);
                    assert(before.contains(e));
                }
            }
            if preference_rank(e) < n && listed_hardware(e, listing, device_present) {
                if preference_rank(e) < n - 1 {
                    assert(before.contains(e));
                    let i = choose|i: int| 0 <= i < before.len() && before[i] == e;
                    if is_candidate(enc, listing, device_present) {
                        assert(now[i] == e);
                    }
                } else {
                    assert(e == enc);
                    assert(now[now.len() - 1] == e);
                }
            }
        }
        assert forall|i: int| 0 <= i < now.len() implies preference_rank(#[trigger] now[i]) < n by {
            if i < before.len() {
                assert(now[i] == before[i]);
            }
        }
        assert forall|i: int, j: int| 0 <= i < j < now.len()
            implies preference_rank(#[trigger] now[i]) < preference_rank(#[trigger] now[j]) by {
            if j < before.len() {
                assert(now[i] == before[i] && now[j] == before[j]);
            } else {
                assert(now[i] == before[i]);
            }
        }
    }
}

/// The encoders tested are exactly the hardware encoders that ffmpeg lists
/// (VAAPI only with its render device), each once, in the order of
/// preference: VideoToolbox, VAAPI, AMF, NVENC, QSV.
pub proof fn law_candidates_are_listed_encoders(listing: Seq<char>, device_present: bool)
    ensures
        forall|e: HwEncoder| #[trigger] candidates_among(listing, device_present, 5).contains(e)
            <==> listed_hardware(e, listing, device_present),
        forall|i: int, j: int| 0 <= i < j < candidates_among(listing, device_present, 5).len()
            ==> preference_rank(#[trigger] candidates_among(listing, device_present, 5)[i])
                < preference_rank(#[trigger] candidates_among(listing, device_present, 5)[j]),
{
    lemma_candidates(listing, device_present, 5);
    assert forall|e: HwEncoder| #[trigger] candidates_among(listing, device_present, 5).contains(e)
        <==> listed_hardware(e, listing, device_present) by {
        if listed_hardware(e, listing, device_present) {
            assert(preference_rank(e) < 5);
        }
    }
}

/// The shape of a transcode command: after "-v error" come the encoder's
/// device arguments, then (only with a seek time) the seek, then the input;
/// right after the input come the encoder's arguments, or "-c:v copy" when
/// the video is copied; the audio becomes AAC and the output goes to the pipe.
/// Without a seek time the input follows the device arguments directly.
pub proof fn law_transcode_shape(path: Seq<char>, seek: Option<Seq<char>>, encoder: Option<HwEncoder>)
    ensures
        ({
            let a = transcode_args_of(path, seek, encoder);
            let pre: Seq<Seq<char>> = match encoder {
                Some(e) => crate::media::pre_input_args_of(e),
                None => seq![],
            };
            let s: int = match seek {
                Some(_) => if encoder is None { 3int } else { 2int },
                None => 0int,
            };
            let k = 2 + pre.len() + s;
            &&& a.subrange(0, 2) == seq!["-v"@, "error"@]
            &&& a.subrange(2, 2 + pre.len() as int) == pre
            &&& seek is None ==> a[2 + pre.len() as int] == "-i"@
            &&& a[k] == "-i"@ && a[k + 1] == path
            &&& encoder is None ==> a[k + 2] == "-c:v"@ && a[k + 3] == "copy"@
            &&& (seek is Some && encoder is None) ==> a[2 + pre.len() as int] == "-noaccurate_seek"@
            &&& forall|e: HwEncoder| encoder == Some(e) ==> a.subrange(k + 2, k + 2 + crate::media::encoder_args_of(e).len())
                == crate::media::encoder_args_of(e)
            &&& a.subrange(a.len() - 13, a.len() - 11) == seq!["-c:a"@, "aac"@]
            &&& a.last() == "pipe:1"@
        }),
{
    let a = transcode_args_of(path, seek, encoder);
    let pre: Seq<Seq<char>> = match encoder {
        Some(e) => crate::media::pre_input_args_of(e),
        None => seq![],
    };
    let sk: Seq<Seq<char>> = match seek {
        Some(t) => if encoder is None {
            seq!["-noaccurate_seek"@, "-ss"@, t]
        } else {
            seq!["-ss"@, t]
        },
        None => seq![],
    };
    let out: Seq<Seq<char>> = match encoder {
        Some(e) => crate::media::encoder_args_of(e),
        None => seq!["-c:v"@, "copy"@],
    };
    let tail: Seq<Seq<char>> = seq![
        "-c:a"@,
        "aac"@,
        "-b:a"@,
        "192k"@,
        "-af"@,
        "aresample=async=1"@,
        "-avoid_negative_ts"@,
        "make_zero"@,
        "-f"@,
        "mp4"@,
        "-movflags"@,
        "frag_keyframe+empty_moov"@,
        "pipe:1"@,
    ];
    let head = seq!["-v"@, "error"@] + pre + sk;
    let k = head.len() as int;
    assert(a =~= head + seq!["-i"@, path] + out + tail);
    assert(a.subrange(0, 2) =~= seq!["-v"@, "error"@]);
    assert(a.subrange(2, 2 + pre.len() as int) =~= pre);
    assert(a.subrange(k + 2, k + 2 + out.len()) =~= out);
    assert(a.subrange(a.len() - 13, a.len() - 11) =~= seq!["-c:a"@, "aac"@]);
}

/// Names that climb out of the library or are absolute are refused: on a
/// writable server, for a known video, a new name with ".." or one that
/// starts with '/' or '\\' is refused as an invalid file name.
pub proof fn law_rename_refuses_escapes<M>(
    videos: Map<Seq<char>, VideoEntry<M>>,
    id: Seq<char>,
    new_name: Seq<char>,
)
    requires
        videos.contains_key(id),
        contains_text(new_name, ".."@) || (new_name.len() > 0 && (new_name[0] == '/' || new_name[0] == '\\')),
    ensures
        check_rename_of(false, videos, Some(id), Some(new_name)) == Err::<Seq<char>, RenameRefusal>(
            RenameRefusal::InvalidFilename,
        ),
{
}

/// The names under which ffmpeg lists the hardware encoders.
pub proof fn law_encoder_names()
    ensures
        encoder_name(HwEncoder::VideoToolbox) == "h264_videotoolbox"@,
        encoder_name(HwEncoder::Vaapi) == "h264_vaapi"@,
        encoder_name(HwEncoder::Amf) == "h264_amf"@,
        encoder_name(HwEncoder::Nvenc) == "h264_nvenc"@,
        encoder_name(HwEncoder::Qsv) == "h264_qsv"@,
{
}

} // verus!

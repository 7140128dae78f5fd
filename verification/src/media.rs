//! What the server asks of FFmpeg: the command lines of ffprobe and ffmpeg,
//! the choice of the H.264 encoder, and the summary of what ffprobe reports.
//!
//! Running the programs and reading their output happens outside; here are
//! the arguments given to them and the decisions taken on their answers.
use vstd::prelude::*;
use crate::paths::{path_join, path_parent, spec_path_join, spec_path_parent, spec_to_lowercase,
    spec_to_uppercase, to_lowercase, to_uppercase};
use crate::text::{texts, chars_of, contains_str, contains_text, decimal, decimal_chars, eq_ignore_ascii_case,
    eq_ignoring_ascii_case, parse_u64, parse_unsigned, str_equals, string_from_chars};

verus! {

fn push_arg(args: &mut Vec<String>, a: &str)
    ensures
        texts(final(args)@) == texts(old(args)@).push(a@),
{
    args.push(a.to_owned());
    assert(texts(args@) =~= texts(old(args)@).push(a@));
}

fn push_args(args: &mut Vec<String>, more: &Vec<String>)
    ensures
        texts(final(args)@) == texts(old(args)@) + texts(more@),
{
    let mut i: usize = 0;
    while i < more.len()
        invariant
            i <= more.len(),
            texts(args@) == texts(old(args)@) + texts(more@).take(i as int),
        decreases more.len() - i,
    {
        push_arg(args, more[i].as_str());
        assert(texts(more@).take(i + 1) =~= texts(more@).take(i as int).push(more@[i as int]@));
        i = i + 1;
    }
    assert(texts(more@).take(i as int) =~= texts(more@));
}

/// A hardware (or software) H.264 encoder of FFmpeg.
#[derive(Clone, Copy, Debug, PartialEq, Eq, Structural)]
pub enum HwEncoder {
    /// macOS
    VideoToolbox,
    /// Linux, AMD and Intel; needs the render device
    Vaapi,
    /// Windows, AMD
    Amf,
    /// NVIDIA
    Nvenc,
    /// Intel Quick Sync
    Qsv,
    /// Software encoding
    Libx264,
}

/// The arguments an encoder needs before the input (the hardware device).
pub open spec fn pre_input_args_of(enc: HwEncoder) -> Seq<Seq<char>> {
    match enc {
        HwEncoder::Vaapi => seq!["-vaapi_device"@, "/dev/dri/renderD128"@],
        _ => seq![],
    }
}

/// The output arguments of an encoder, the same for its probe and for a
/// transcode.
pub open spec fn encoder_args_of(enc: HwEncoder) -> Seq<Seq<char>> {
    match enc {
        HwEncoder::Vaapi => seq!["-vf"@, "format=nv12,hwupload"@, "-c:v"@, "h264_vaapi"@, "-qp"@, "24"@],
        HwEncoder::VideoToolbox => seq!["-c:v"@, "h264_videotoolbox"@, "-q:v"@, "65"@],
        HwEncoder::Amf => seq![
            "-c:v"@,
            "h264_amf"@,
            "-quality"@,
            "speed"@,
            "-rc"@,
            "cqp"@,
            "-qp_i"@,
            "24"@,
            "-qp_p"@,
            "24"@,
        ],
        HwEncoder::Nvenc => seq!["-c:v"@, "h264_nvenc"@, "-preset"@, "p4"@, "-cq"@, "24"@],
        HwEncoder::Qsv => seq!["-c:v"@, "h264_qsv"@, "-preset"@, "fast"@, "-global_quality"@, "24"@],
        HwEncoder::Libx264 => seq!["-c:v"@, "libx264"@, "-preset"@, "fast"@, "-crf"@, "22"@],
    }
}

impl HwEncoder {
    /// Arguments placed before `-i` (hardware device init).
    pub fn pre_input_args(&self) -> (res: Vec<String>)
        ensures
            texts(res@) == pre_input_args_of(*self),
    {
        let mut v: Vec<String> = Vec::new();
        match self {
            HwEncoder::Vaapi => {
                push_arg(&mut v, "-vaapi_device");
                push_arg(&mut v, "/dev/dri/renderD128");
            },
            _ => {},
        }
        assert(texts(v@) =~= pre_input_args_of(*self));
        v
    }

    /// Encoder-specific output arguments: the same for the probe of the
    /// encoder and for a transcode, so that the probe tries the exact command.
    pub fn encoder_args(&self) -> (res: Vec<String>)
        ensures
            texts(res@) == encoder_args_of(*self),
    {
        let mut v: Vec<String> = Vec::new();
        match self {
            HwEncoder::Vaapi => {
                push_arg(&mut v, "-vf");
                push_arg(&mut v, "format=nv12,hwupload");
                push_arg(&mut v, "-c:v");
                push_arg(&mut v, "h264_vaapi");
                push_arg(&mut v, "-qp");
                push_arg(&mut v, "24");
            },
            HwEncoder::VideoToolbox => {
                push_arg(&mut v, "-c:v");
                push_arg(&mut v, "h264_videotoolbox");
                push_arg(&mut v, "-q:v");
                push_arg(&mut v, "65");
            },
            HwEncoder::Amf => {
                push_arg(&mut v, "-c:v");
                push_arg(&mut v, "h264_amf");
                push_arg(&mut v, "-quality");
                push_arg(&mut v, "speed");
                push_arg(&mut v, "-rc");
                push_arg(&mut v, "cqp");
                push_arg(&mut v, "-qp_i");
                push_arg(&mut v, "24");
                push_arg(&mut v, "-qp_p");
                push_arg(&mut v, "24");
            },
            HwEncoder::Nvenc => {
                push_arg(&mut v, "-c:v");
                push_arg(&mut v, "h264_nvenc");
                push_arg(&mut v, "-preset");
                push_arg(&mut v, "p4");
                push_arg(&mut v, "-cq");
                push_arg(&mut v, "24");
            },
            HwEncoder::Qsv => {
                push_arg(&mut v, "-c:v");
                push_arg(&mut v, "h264_qsv");
                push_arg(&mut v, "-preset");
                push_arg(&mut v, "fast");
                push_arg(&mut v, "-global_quality");
                push_arg(&mut v, "24");
            },
            HwEncoder::Libx264 => {
                push_arg(&mut v, "-c:v");
                push_arg(&mut v, "libx264");
                push_arg(&mut v, "-preset");
                push_arg(&mut v, "fast");
                push_arg(&mut v, "-crf");
                push_arg(&mut v, "22");
            },
        }
        assert(texts(v@) =~= encoder_args_of(*self));
        v
    }
}

} // verus!

verus! {

/// The arguments of the short test encode that tells whether an encoder works.
pub open spec fn probe_args_of(enc: HwEncoder) -> Seq<Seq<char>> {
    seq!["-v"@, "error"@] + pre_input_args_of(enc) + seq![
        "-f"@,
        "lavfi"@,
        "-i"@,
        "testsrc=duration=0.1:size=320x240:rate=30"@,
    ] + encoder_args_of(enc) + seq!["-f"@, "null"@, "-"@]
}

/// The arguments of the test encode of `enc`: a tenth of a second of test
/// picture through the encoder, written nowhere.
pub fn encoder_probe_args(enc: HwEncoder) -> (res: Vec<String>)
    ensures
        texts(res@) == probe_args_of(enc),
{
    let mut v: Vec<String> = Vec::new();
    push_arg(&mut v, "-v");
    push_arg(&mut v, "error");
    push_args(&mut v, &enc.pre_input_args());
    push_arg(&mut v, "-f");
    push_arg(&mut v, "lavfi");
    push_arg(&mut v, "-i");
    push_arg(&mut v, "testsrc=duration=0.1:size=320x240:rate=30");
    push_args(&mut v, &enc.encoder_args());
    push_arg(&mut v, "-f");
    push_arg(&mut v, "null");
    push_arg(&mut v, "-");
    assert(texts(v@) =~= probe_args_of(enc));
    v
}

/// The arguments that make ffmpeg list its encoders.
pub fn list_encoders_args() -> (res: Vec<String>)
    ensures
        texts(res@) == seq!["-hide_banner"@, "-encoders"@],
{
    let mut v: Vec<String> = Vec::new();
    push_arg(&mut v, "-hide_banner");
    push_arg(&mut v, "-encoders");
    assert(texts(v@) =~= seq!["-hide_banner"@, "-encoders"@]);
    v
}

/// The hardware encoders in the order in which they are preferred:
/// platform-native first, then cross-platform.
pub open spec fn preferred_encoders() -> Seq<HwEncoder> {
    seq![HwEncoder::VideoToolbox, HwEncoder::Vaapi, HwEncoder::Amf, HwEncoder::Nvenc, HwEncoder::Qsv]
}

/// The name under which ffmpeg lists an encoder.
pub open spec fn encoder_name(enc: HwEncoder) -> Seq<char> {
    match enc {
        HwEncoder::VideoToolbox => "h264_videotoolbox"@,
        HwEncoder::Vaapi => "h264_vaapi"@,
        HwEncoder::Amf => "h264_amf"@,
        HwEncoder::Nvenc => "h264_nvenc"@,
        HwEncoder::Qsv => "h264_qsv"@,
        HwEncoder::Libx264 => "libx264"@,
    }
}

/// The encoder is worth a test: ffmpeg lists it, and for VAAPI the render
/// device exists.
pub open spec fn is_candidate(enc: HwEncoder, listing: Seq<char>, device_present: bool) -> bool {
    contains_text(listing, encoder_name(enc)) && (enc != HwEncoder::Vaapi || device_present)
}

/// The candidates among the first `n` preferred encoders, in order.
pub open spec fn candidates_among(listing: Seq<char>, device_present: bool, n: nat) -> Seq<HwEncoder>
    decreases n,
{
    if n == 0 {
        seq![]
    } else {
        let before = candidates_among(listing, device_present, (n - 1) as nat);
        let enc = preferred_encoders()[n - 1];
        if is_candidate(enc, listing, device_present) {
            before.push(enc)
        } else {
            before
        }
    }
}

fn preferred_encoder(i: usize) -> (res: HwEncoder)
    requires
        i < 5,
    ensures
        res == preferred_encoders()[i as int],
{
    if i == 0 {
        HwEncoder::VideoToolbox
    } else if i == 1 {
        HwEncoder::Vaapi
    } else if i == 2 {
        HwEncoder::Amf
    } else if i == 3 {
        HwEncoder::Nvenc
    } else {
        HwEncoder::Qsv
    }
}

impl HwEncoder {
    /// The name under which ffmpeg lists the encoder.
    pub fn name(&self) -> (res: &'static str)
        ensures
            res@ == encoder_name(*self),
    {
        match self {
            HwEncoder::VideoToolbox => "h264_videotoolbox",
            HwEncoder::Vaapi => "h264_vaapi",
            HwEncoder::Amf => "h264_amf",
            HwEncoder::Nvenc => "h264_nvenc",
            HwEncoder::Qsv => "h264_qsv",
            HwEncoder::Libx264 => "libx264",
        }
    }
}

/// The hardware encoders worth a test, in order of preference: those that
/// the encoder list `listing` of ffmpeg names, VAAPI only when its render
/// device is present.
pub fn encoder_candidates(listing: &str, vaapi_device_present: bool) -> (res: Vec<HwEncoder>)
    ensures
        res@ == candidates_among(listing@, vaapi_device_present, 5),
{
    let mut res: Vec<HwEncoder> = Vec::new();
    let mut i: usize = 0;
    while i < 5
        invariant
            i <= 5,
            res@ == candidates_among(listing@, vaapi_device_present, i as nat),
        decreases 5 - i,
    {
        let enc = preferred_encoder(i);
        let listed = contains_str(listing, enc.name());
        let usable = match enc {
            HwEncoder::Vaapi => vaapi_device_present,
            _ => true,
        };
        if listed && usable {
            res.push(enc);
        }
        i = i + 1;
    }
    res
}

/// The index of the first `true` in `works`, or its length when there is none.
pub open spec fn first_working(works: Seq<bool>) -> nat
    decreases works.len(),
{
    if works.len() == 0 {
        0
    } else if works[0] {
        0
    } else {
        1 + first_working(works.drop_first())
    }
}

proof fn lemma_first_working(works: Seq<bool>)
    ensures
        first_working(works) <= works.len(),
        first_working(works) < works.len() ==> works[first_working(works) as int],
        forall|i: int| 0 <= i < first_working(works) ==> !works[i],
    decreases works.len(),
{
    if works.len() > 0 && !works[0] {
        lemma_first_working(works.drop_first());
        assert forall|i: int| 0 <= i < first_working(works) implies !works[i] by {
            if i > 0 {
                assert(works[i] == works.drop_first()[i - 1]);
            }
        }
    }
}

/// The encoder that transcodes use: the first of `candidates` whose test
/// encode worked (`works[i]` is the outcome of testing `candidates[i]`;
/// testing stops at the first that works), else the software encoder.
pub fn choose_encoder(candidates: &Vec<HwEncoder>, works: &Vec<bool>) -> (res: HwEncoder)
    requires
        works.len() <= candidates.len(),
    ensures
        first_working(works@) < works@.len() ==> res == candidates@[first_working(works@) as int],
        first_working(works@) == works@.len() ==> res == HwEncoder::Libx264,
{
    proof {
        lemma_first_working(works@);
    }
    let mut i: usize = 0;
    while i < works.len()
        invariant
            works.len() <= candidates.len(),
            i <= works.len(),
            forall|j: int| 0 <= j < i ==> !works@[j],
            first_working(works@) <= works@.len(),
            first_working(works@) < works@.len() ==> works@[first_working(works@) as int],
            forall|j: int| 0 <= j < first_working(works@) ==> !works@[j],
        decreases works.len() - i,
    {
        if works[i] {
            assert(first_working(works@) == i);
            return candidates[i];
        }
        i = i + 1;
    }
    HwEncoder::Libx264
}

} // verus!

verus! {

/// The arguments of ffprobe for the file at `path`: format, streams and
/// chapters as JSON.
pub open spec fn ffprobe_args_of(path: Seq<char>) -> Seq<Seq<char>> {
    seq![
        "-v"@,
        "error"@,
        "-print_format"@,
        "json"@,
        "-show_entries"@,
        "format=duration,size,bit_rate"@,
        "-show_entries"@,
        "stream=codec_type,codec_name,width,height,avg_frame_rate"@,
        "-show_chapters"@,
        path,
    ]
}

/// The arguments with which ffprobe reads the video at `path`.
pub fn ffprobe_args(path: &str) -> (res: Vec<String>)
    ensures
        texts(res@) == ffprobe_args_of(path@),
{
    let mut v: Vec<String> = Vec::new();
    push_arg(&mut v, "-v");
    push_arg(&mut v, "error");
    push_arg(&mut v, "-print_format");
    push_arg(&mut v, "json");
    push_arg(&mut v, "-show_entries");
    push_arg(&mut v, "format=duration,size,bit_rate");
    push_arg(&mut v, "-show_entries");
    push_arg(&mut v, "stream=codec_type,codec_name,width,height,avg_frame_rate");
    push_arg(&mut v, "-show_chapters");
    push_arg(&mut v, path);
    assert(texts(v@) =~= ffprobe_args_of(path@));
    v
}

/// The scale filter that sets the width of a thumbnail and keeps the aspect.
pub open spec fn scale_filter(width: nat) -> Seq<char> {
    seq!['s', 'c', 'a', 'l', 'e', '='] + decimal(width) + seq![':', '-', '2']
}

/// The arguments of ffmpeg for one JPEG frame of the video at `path`: at
/// `seek` (a time in seconds as text) when given, scaled to `width` pixels
/// when it is not zero.
pub open spec fn thumb_args_of(path: Seq<char>, seek: Option<Seq<char>>, width: nat) -> Seq<Seq<char>> {
    seq!["-v"@, "error"@] + match seek {
        Some(t) => seq!["-ss"@, t],
        None => seq![],
    } + seq!["-i"@, path, "-frames:v"@, "1"@] + if width > 0 {
        seq!["-vf"@, scale_filter(width)]
    } else {
        seq![]
    } + seq!["-f"@, "image2pipe"@, "-vcodec"@, "mjpeg"@, "pipe:1"@]
}

/// The arguments with which ffmpeg writes one frame of the video at `path`
/// as a JPEG to its output: taken at `seek` when given, and `width` pixels
/// wide unless `width` is zero.
pub fn thumb_args(path: &str, seek: Option<&str>, width: u16) -> (res: Vec<String>)
    ensures
        texts(res@) == thumb_args_of(
            path@,
            match seek {
                Some(t) => Some(t@),
                None => None,
            },
            width as nat,
        ),
{
    let mut v: Vec<String> = Vec::new();
    push_arg(&mut v, "-v");
    push_arg(&mut v, "error");
    match seek {
        Some(t) => {
            push_arg(&mut v, "-ss");
            push_arg(&mut v, t);
        },
        None => {},
    }
    push_arg(&mut v, "-i");
    push_arg(&mut v, path);
    push_arg(&mut v, "-frames:v");
    push_arg(&mut v, "1");
    if width > 0 {
        push_arg(&mut v, "-vf");
        let mut f: Vec<char> = Vec::new();
        f.push('s');
        f.push('c');
        f.push('a');
        f.push('l');
        f.push('e');
        f.push('=');
        let digits = decimal_chars(width as u128);
        let mut k: usize = 0;
        while k < digits.len()
            invariant
                k <= digits.len(),
                f@ == seq!['s', 'c', 'a', 'l', 'e', '='] + digits@.take(k as int),
            decreases digits.len() - k,
        {
            f.push(digits[k]);
            assert(digits@.take(k + 1) =~= digits@.take(k as int).push(digits@[k as int]));
            k = k + 1;
        }
        assert(digits@.take(k as int) =~= digits@);
        f.push(':');
        f.push('-');
        f.push('2');
        let filter = string_from_chars(&f);
        assert(filter@ =~= scale_filter(width as nat));
        push_arg(&mut v, filter.as_str());
    }
    push_arg(&mut v, "-f");
    push_arg(&mut v, "image2pipe");
    push_arg(&mut v, "-vcodec");
    push_arg(&mut v, "mjpeg");
    push_arg(&mut v, "pipe:1");
    assert(texts(v@) =~= thumb_args_of(
        path@,
        match seek {
            Some(t) => Some(t@),
            None => None,
        },
        width as nat,
    ));
    v
}

/// The arguments of ffmpeg for a browser-playable MP4 stream of the video at
/// `path`, from `seek` when given: with `encoder` the video is encoded to
/// H.264, without it the video stream is copied as it is (and then the
/// audio also starts at the keyframe before `seek`, so that both stay in
/// sync). The audio becomes AAC in either case.
pub open spec fn transcode_args_of(
    path: Seq<char>,
    seek: Option<Seq<char>>,
    encoder: Option<HwEncoder>,
) -> Seq<Seq<char>> {
    seq!["-v"@, "error"@] + match encoder {
        Some(e) => pre_input_args_of(e),
        None => seq![],
    } + match seek {
        Some(t) => if encoder is None {
            seq!["-noaccurate_seek"@, "-ss"@, t]
        } else {
            seq!["-ss"@, t]
        },
        None => seq![],
    } + seq!["-i"@, path] + match encoder {
        Some(e) => encoder_args_of(e),
        None => seq!["-c:v"@, "copy"@],
    } + seq![
        "-c:a"@,
        "aac"@,
        "-b:a"@,
        "192k"@,
        "-af"@,
        "aresample=async=1"@,
        "-avoid_negative_ts"@,
        "make_zero"@,
        "-f"@,
        "mp4"@,
        "-movflags"@,
        "frag_keyframe+empty_moov"@,
        "pipe:1"@,
    ]
}

/// The arguments with which ffmpeg streams the video at `path` as MP4 for a
/// browser, from `seek` when given; `encoder` is `None` when the video stream
/// is copied.
pub fn transcode_args(path: &str, seek: Option<&str>, encoder: Option<HwEncoder>) -> (res: Vec<String>)
    ensures
        texts(res@) == transcode_args_of(
            path@,
            match seek {
                Some(t) => Some(t@),
                None => None,
            },
            encoder,
        ),
{
    let mut v: Vec<String> = Vec::new();
    push_arg(&mut v, "-v");
    push_arg(&mut v, "error");
    match encoder {
        Some(e) => push_args(&mut v, &e.pre_input_args()),
        None => {},
    }
    match seek {
        Some(t) => {
            if encoder.is_none() {
                push_arg(&mut v, "-noaccurate_seek");
            }
            push_arg(&mut v, "-ss");
            push_arg(&mut v, t);
        },
        None => {},
    }
    push_arg(&mut v, "-i");
    push_arg(&mut v, path);
    match encoder {
        Some(e) => push_args(&mut v, &e.encoder_args()),
        None => {
            push_arg(&mut v, "-c:v");
            push_arg(&mut v, "copy");
        },
    }
    push_arg(&mut v, "-c:a");
    push_arg(&mut v, "aac");
    push_arg(&mut v, "-b:a");
    push_arg(&mut v, "192k");
    push_arg(&mut v, "-af");
    push_arg(&mut v, "aresample=async=1");
    push_arg(&mut v, "-avoid_negative_ts");
    push_arg(&mut v, "make_zero");
    push_arg(&mut v, "-f");
    push_arg(&mut v, "mp4");
    push_arg(&mut v, "-movflags");
    push_arg(&mut v, "frag_keyframe+empty_moov");
    push_arg(&mut v, "pipe:1");
    assert(texts(v@) =~= transcode_args_of(
        path@,
        match seek {
            Some(t) => Some(t@),
            None => None,
        },
        encoder,
    ));
    v
}

} // verus!

verus! {

/// The video codecs that browsers play, in lower case.
pub open spec fn browser_video_codecs() -> Seq<Seq<char>> {
    seq!["h264"@, "vp8"@, "vp9"@, "av1"@]
}

fn browser_video_codec(i: usize) -> (res: &'static str)
    requires
        i < 4,
    ensures
        res@ == browser_video_codecs()[i as int],
{
    if i == 0 {
        "h264"
    } else if i == 1 {
        "vp8"
    } else if i == 2 {
        "vp9"
    } else {
        "av1"
    }
}

/// Whether browsers play video of `codec`: its lower case (Unicode) is one of
/// H.264, VP8, VP9 and AV1.
pub fn is_browser_compatible_video(codec: &str) -> (res: bool)
    ensures
        res == browser_video_codecs().contains(spec_to_lowercase(codec@)),
{
    let lower = to_lowercase(codec);
    let mut i: usize = 0;
    while i < 4
        invariant
            i <= 4,
            lower@ == spec_to_lowercase(codec@),
            forall|j: int| 0 <= j < i ==> browser_video_codecs()[j] != lower@,
        decreases 4 - i,
    {
        if str_equals(lower.as_str(), browser_video_codec(i)) {
            assert(browser_video_codecs()[i as int] == lower@);
            return true;
        }
        i = i + 1;
    }
    false
}

/// A transcode copies the video stream of `codec` unchanged: the codec is
/// one that browsers play, compared without regard to ASCII case.
pub open spec fn copies_video(codec: Seq<char>) -> bool {
    exists|i: int| 0 <= i < 4 && eq_ignoring_ascii_case(codec, #[trigger] browser_video_codecs()[i])
}

/// Whether a transcode of video in `codec` copies the video stream and
/// converts the audio only (H.264, VP8, VP9 and AV1 in any ASCII case), or
/// encodes the video to H.264.
pub fn copy_video_stream(codec: &str) -> (res: bool)
    ensures
        res == copies_video(codec@),
{
    let mut i: usize = 0;
    while i < 4
        invariant
            i <= 4,
            forall|j: int| 0 <= j < i ==> !eq_ignoring_ascii_case(codec@, #[trigger] browser_video_codecs()[j]),
        decreases 4 - i,
    {
        if eq_ignore_ascii_case(codec, browser_video_codec(i)) {
            return true;
        }
        i = i + 1;
    }
    false
}

/// The ffmpeg and ffprobe programs that are run.
pub struct Tools {
    pub ffmpeg: String,
    pub ffprobe: String,
}

/// The programs found through `PATH`: "ffmpeg" and "ffprobe".
pub fn default_tools() -> (res: Tools)
    ensures
        res.ffmpeg@ == "ffmpeg"@,
        res.ffprobe@ == "ffprobe"@,
{
    Tools { ffmpeg: "ffmpeg".to_owned(), ffprobe: "ffprobe".to_owned() }
}

/// Where ffprobe would stand beside the program `ffmpeg`: in its directory,
/// named "ffprobe" followed by `exe_suffix` (the platform's suffix of programs).
pub fn ffprobe_beside(ffmpeg: &str, exe_suffix: &str) -> (res: Option<String>)
    ensures
        match spec_path_parent(ffmpeg@) {
            Some(dir) => res matches Some(p) && p@ == spec_path_join(dir, "ffprobe"@ + exe_suffix@),
            None => res is None,
        },
{
    match path_parent(ffmpeg) {
        Some(dir) => {
            let mut name = "ffprobe".to_owned();
            name.append(exe_suffix);
            Some(path_join(dir.as_str(), name.as_str()))
        },
        None => None,
    }
}

/// The programs to run: without `ffmpeg` those of `PATH`; with it, that
/// program and `sibling` (an ffprobe beside it that exists) or else the
/// ffprobe of `PATH`.
pub fn select_tools(ffmpeg: Option<String>, sibling: Option<String>) -> (res: Tools)
    ensures
        match ffmpeg {
            None => res.ffmpeg@ == "ffmpeg"@ && res.ffprobe@ == "ffprobe"@,
            Some(f) => res.ffmpeg@ == f@ && match sibling {
                Some(p) => res.ffprobe@ == p@,
                None => res.ffprobe@ == "ffprobe"@,
            },
        },
{
    match ffmpeg {
        None => default_tools(),
        Some(f) => {
            let ffprobe = match sibling {
                Some(p) => p,
                None => "ffprobe".to_owned(),
            };
            Tools { ffmpeg: f, ffprobe }
        },
    }
}

} // verus!

verus! {

/// A stream as ffprobe reports it; a missing text is empty.
pub struct ProbeStream {
    pub codec_type: String,
    pub codec_name: String,
    pub width: Option<u32>,
    pub height: Option<u32>,
    pub avg_frame_rate: String,
}

/// The format section of ffprobe's report; a missing text is empty.
pub struct ProbeFormat {
    pub duration: String,
    pub size: String,
}

/// The tags of a chapter in ffprobe's report.
pub struct ProbeTags {
    pub title: Option<String>,
    pub title_upper: Option<String>,
}

/// What the streams of a video say about it.
pub struct StreamSummary {
    /// Width and height of the first video stream (0 when unknown).
    pub width: u32,
    pub height: u32,
    /// The average frame rate of the first video stream as ffprobe writes it
    /// ("0/0" without a video stream).
    pub frame_rate: String,
    /// The codec of the first video stream ("unknown" without one).
    pub codec: String,
    /// The codecs of the audio streams in upper case, each once, in the order
    /// of the streams.
    pub audio_codecs: Vec<String>,
}

/// The first video stream among `s`.
pub open spec fn first_video(s: Seq<ProbeStream>) -> Option<ProbeStream>
    decreases s.len(),
{
    if s.len() == 0 {
        None
    } else {
        match first_video(s.drop_last()) {
            Some(v) => Some(v),
            None => if s.last().codec_type@ == "video"@ {
                Some(s.last())
            } else {
                None
            },
        }
    }
}

/// The codecs of the audio streams among `s`, in upper case, each kept at
/// its first occurrence.
pub open spec fn audio_codecs_of(s: Seq<ProbeStream>) -> Seq<Seq<char>>
    decreases s.len(),
{
    if s.len() == 0 {
        seq![]
    } else {
        let before = audio_codecs_of(s.drop_last());
        if s.last().codec_type@ == "audio"@ {
            let c = spec_to_uppercase(s.last().codec_name@);
            if before.contains(c) {
                before
            } else {
                before.push(c)
            }
        } else {
            before
        }
    }
}

/// Summarizes the streams that ffprobe reported (`None` when it reported no
/// stream section): size, frame rate and codec of the first video stream,
/// and the audio codecs.
pub fn summarize_streams(streams: &Option<Vec<ProbeStream>>) -> (res: StreamSummary)
    ensures
        match streams {
            None => {
                &&& res.width == 0 && res.height == 0
                &&& res.frame_rate@ == "0/0"@ && res.codec@ == "unknown"@
                &&& res.audio_codecs@.len() == 0
            },
            Some(s) => {
                &&& texts(res.audio_codecs@) == audio_codecs_of(s@)
                &&& match first_video(s@) {
                    Some(v) => {
                        &&& res.width == (match v.width { Some(w) => w, None => 0 })
                        &&& res.height == (match v.height { Some(h) => h, None => 0 })
                        &&& res.frame_rate@ == v.avg_frame_rate@
                        &&& res.codec@ == v.codec_name@
                    },
                    None => res.width == 0 && res.height == 0 && res.frame_rate@ == "0/0"@
                        && res.codec@ == "unknown"@,
                }
            },
        },
{
    match streams {
        None => StreamSummary {
            width: 0,
            height: 0,
            frame_rate: "0/0".to_owned(),
            codec: "unknown".to_owned(),
            audio_codecs: Vec::new(),
        },
        Some(s) => {
            let mut video: Option<usize> = None;
            let mut audio: Vec<String> = Vec::new();
            let mut i: usize = 0;
            while i < s.len()
                invariant
                    i <= s.len(),
                    match video {
                        Some(j) => j < i && first_video(s@.take(i as int)) == Some(s@[j as int]),
                        None => first_video(s@.take(i as int)) is None,
                    },
                    texts(audio@) == audio_codecs_of(s@.take(i as int)),
                decreases s.len() - i,
            {
                let st = &s[i];
                let ghost pre = s@.take(i as int);
                assert(s@.take(i + 1).drop_last() =~= pre);
                assert(s@.take(i + 1).last() == s@[i as int]);
                if video.is_none() && str_equals(st.codec_type.as_str(), "video") {
                    video = Some(i);
                }
                if str_equals(st.codec_type.as_str(), "audio") {
                    let c = to_uppercase(st.codec_name.as_str());
                    let mut seen = false;
                    let mut k: usize = 0;
                    while k < audio.len()
                        invariant
                            k <= audio.len(),
                            seen == exists|j: int| 0 <= j < k && audio@[j]@ == c@,
                        decreases audio.len() - k,
                    {
                        if str_equals(audio[k].as_str(), c.as_str()) {
                            seen = true;
                        }
                        k = k + 1;
                    }
                    proof {
                        if seen {
                            let j = choose|j: int| 0 <= j < k && audio@[j]@ == c@;
                            assert(texts(audio@)[j] == c@);
                        } else {
                            assert forall|j: int| 0 <= j < texts(audio@).len() implies texts(audio@)[j] != c@ by {
                                assert(texts(audio@)[j] == audio@[j]@);
                            }
                        }
                    }
                    if !seen {
                        let ghost before = audio@;
                        audio.push(c);
                        assert(texts(audio@) =~= texts(before).push(audio@[before.len() as int]@));
                    }
                }
                i = i + 1;
            }
            assert(s@.take(i as int) =~= s@);
            match video {
                Some(j) => {
                    let v = &s[j];
                    StreamSummary {
                        width: match v.width { Some(w) => w, None => 0 },
                        height: match v.height { Some(h) => h, None => 0 },
                        frame_rate: v.avg_frame_rate.clone(),
                        codec: v.codec_name.clone(),
                        audio_codecs: audio,
                    }
                },
                None => StreamSummary {
                    width: 0,
                    height: 0,
                    frame_rate: "0/0".to_owned(),
                    codec: "unknown".to_owned(),
                    audio_codecs: audio,
                },
            }
        },
    }
}

/// The title of a chapter: its "title" tag, else its "TITLE" tag, else empty.
pub fn chapter_title(tags: &Option<ProbeTags>) -> (res: String)
    ensures
        res@ == match tags {
            Some(t) => match t.title {
                Some(a) => a@,
                None => match t.title_upper {
                    Some(b) => b@,
                    None => Seq::<char>::empty(),
                },
            },
            None => Seq::<char>::empty(),
        },
{
    match tags {
        Some(t) => match &t.title {
            Some(a) => a.clone(),
            None => match &t.title_upper {
                Some(b) => b.clone(),
                None => String::new(),
            },
        },
        None => String::new(),
    }
}

/// The file size that ffprobe reported: its size text read as a number,
/// 0 when there is no format section or the text is no number.
pub fn reported_size(format: &Option<ProbeFormat>) -> (res: u64)
    ensures
        match format {
            Some(f) => match parse_unsigned(f.size@, u64::MAX as nat) {
                Some(n) => res == n,
                None => res == 0,
            },
            None => res == 0,
        },
{
    match format {
        Some(f) => match parse_u64(f.size.as_str()) {
            Some(n) => n,
            None => 0,
        },
        None => 0,
    }
}

} // verus!

verus! {

/// The decimal digits at the start of `s`.
pub open spec fn leading_digits(s: Seq<char>) -> Seq<char>
    decreases s.len(),
{
    if s.len() == 0 || !crate::text::is_digit(s[0]) {
        seq![]
    } else {
        seq![s[0]] + leading_digits(s.drop_first())
    }
}

proof fn lemma_leading_digits(s: Seq<char>, k: int)
    requires
        0 <= k <= s.len(),
        forall|i: int| 0 <= i < k ==> crate::text::is_digit(#[trigger] s[i]),
        k == s.len() || !crate::text::is_digit(s[k]),
    ensures
        leading_digits(s) == s.take(k),
    decreases k,
{
    if k > 0 {
        let t = s.drop_first();
        assert forall|i: int| 0 <= i < k - 1 implies crate::text::is_digit(#[trigger] t[i]) by {
            assert(t[i] == s[i + 1]);
        }
        if k - 1 < t.len() {
            assert(t[k - 1] == s[k]);
        }
        lemma_leading_digits(t, k - 1);
        assert(s.take(k) =~= seq![s[0]] + t.take(k - 1));
    } else {
        assert(s.take(0) =~= Seq::<char>::empty());
    }
}

/// The version that the first line of `ffmpeg -version` names: after
/// "ffmpeg version " and an optional 'n', a major and a minor number
/// separated by '.'. Development builds ("N-...") name none.
pub open spec fn version_of(line: Seq<char>) -> Option<(nat, nat)> {
    let prefix = "ffmpeg version "@;
    if line.len() < prefix.len() || line.take(prefix.len() as int) != prefix {
        None
    } else {
        let rest = line.skip(prefix.len() as int);
        let r = if rest.len() > 0 && rest[0] == 'n' {
            rest.drop_first()
        } else {
            rest
        };
        let a = leading_digits(r);
        let after = r.skip(a.len() as int);
        if a.len() == 0 || after.len() == 0 || after[0] != '.' {
            None
        } else {
            let b = leading_digits(after.drop_first());
            if b.len() == 0 {
                None
            } else {
                Some((crate::text::digits_value(a), crate::text::digits_value(b)))
            }
        }
    }
}

fn digit_run(c: &Vec<char>, from: usize) -> (end: usize)
    requires
        from <= c.len(),
    ensures
        from <= end <= c.len(),
        leading_digits(c@.skip(from as int)) == c@.subrange(from as int, end as int),
{
    let mut end = from;
    while end < c.len() && '0' <= c[end] && c[end] <= '9'
        invariant
            from <= end <= c.len(),
            forall|i: int| from <= i < end ==> crate::text::is_digit(#[trigger] c@[i]),
        decreases c.len() - end,
    {
        end = end + 1;
    }
    proof {
        let s = c@.skip(from as int);
        let k = end - from;
        assert forall|i: int| 0 <= i < k implies crate::text::is_digit(#[trigger] s[i]) by {
            assert(s[i] == c@[from + i]);
        }
        if k < s.len() {
            assert(s[k] == c@[end as int]);
        }
        lemma_leading_digits(s, k);
        assert(s.take(k) =~= c@.subrange(from as int, end as int));
    }
    end
}

fn number_of(c: &Vec<char>, from: usize, end: usize) -> (res: Option<u64>)
    requires
        from < end <= c.len(),
        forall|i: int| from <= i < end ==> crate::text::is_digit(#[trigger] c@[i]),
    ensures
        match res {
            Some(v) => v as nat == crate::text::digits_value(c@.subrange(from as int, end as int)),
            None => crate::text::digits_value(c@.subrange(from as int, end as int)) > u64::MAX,
        },
{
    let mut d: Vec<char> = Vec::new();
    let mut i = from;
    while i < end
        invariant
            from <= i <= end <= c.len(),
            d@ == c@.subrange(from as int, i as int),
        decreases end - i,
    {
        d.push(c[i]);
        assert(c@.subrange(from as int, i + 1) =~= c@.subrange(from as int, i as int).push(c@[i as int]));
        i = i + 1;
    }
    let text = string_from_chars(&d);
    let ghost ds = c@.subrange(from as int, end as int);
    assert(crate::text::unsigned_digits(ds) == ds) by {
        assert(crate::text::is_digit(ds[0]));
    }
    assert forall|k: int| 0 <= k < ds.len() implies crate::text::is_digit(#[trigger] ds[k]) by {
        assert(ds[k] == c@[from + k]);
    }
    parse_u64(text.as_str())
}

/// The major and minor version in the first line of `ffmpeg -version`, when
/// it names one and both numbers fit a `u64`.
pub fn ffmpeg_version(line: &str) -> (res: Option<(u64, u64)>)
    ensures
        match res {
            Some((a, b)) => version_of(line@) == Some((a as nat, b as nat)),
            None => match version_of(line@) {
                Some((a, b)) => a > u64::MAX || b > u64::MAX,
                None => true,
            },
        },
{
    let c = chars_of(line);
    let prefix = chars_of("ffmpeg version ");
    let ghost pre = "ffmpeg version "@;
    if c.len() < prefix.len() {
        return None;
    }
    let mut i: usize = 0;
    while i < prefix.len()
        invariant
            prefix@ == pre,
            pre == "ffmpeg version "@,
            c@ == line@,
            prefix.len() <= c.len(),
            i <= prefix.len(),
            forall|j: int| 0 <= j < i ==> c@[j] == prefix@[j],
        decreases prefix.len() - i,
    {
        if c[i] != prefix[i] {
            assert(c@.take(pre.len() as int)[i as int] != pre[i as int]);
            return None;
        }
        i = i + 1;
    }
    assert(c@.take(pre.len() as int) =~= pre);
    let mut start = prefix.len();
    if start < c.len() && c[start] == 'n' {
        start = start + 1;
    }
    let ghost rest = c@.skip(pre.len() as int);
    let ghost r = if rest.len() > 0 && rest[0] == 'n' { rest.drop_first() } else { rest };
    assert(r =~= c@.skip(start as int));
    let a_end = digit_run(&c, start);
    assert(r.skip((a_end - start) as int) =~= c@.skip(a_end as int));
    if a_end == start || a_end >= c.len() || c[a_end] != '.' {
        return None;
    }
    let b_start = a_end + 1;
    let b_end = digit_run(&c, b_start);
    assert(c@.skip(a_end as int).drop_first() =~= c@.skip(b_start as int));
    if b_end == b_start {
        return None;
    }
    proof {
        let a = c@.subrange(start as int, a_end as int);
        assert forall|k: int| start <= k < a_end implies crate::text::is_digit(#[trigger] c@[k]) by {
            assert(leading_digits(c@.skip(start as int))[k - start] == c@[k]);
            lemma_leading_digits_are_digits(c@.skip(start as int), k - start);
        }
        assert forall|k: int| b_start <= k < b_end implies crate::text::is_digit(#[trigger] c@[k]) by {
            assert(leading_digits(c@.skip(b_start as int))[k - b_start] == c@[k]);
            lemma_leading_digits_are_digits(c@.skip(b_start as int), k - b_start);
        }
    }
    let major = number_of(&c, start, a_end);
    let minor = number_of(&c, b_start, b_end);
    match (major, minor) {
        (Some(a), Some(b)) => Some((a, b)),
        _ => None,
    }
}

proof fn lemma_leading_digits_are_digits(s: Seq<char>, k: int)
    requires
        0 <= k < leading_digits(s).len(),
    ensures
        crate::text::is_digit(leading_digits(s)[k]),
    decreases s.len(),
{
    if k > 0 {
        lemma_leading_digits_are_digits(s.drop_first(), k - 1);
    }
}

/// Whether FFmpeg `major`.`minor` is older than 4.3.
pub fn version_older_than_4_3(major: u64, minor: u64) -> (res: bool)
    ensures
        res == (major < 4 || (major == 4 && minor < 3)),
{
    major < 4 || (major == 4 && minor < 3)
}

} // verus!

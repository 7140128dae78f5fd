use viddeck::media::{
    choose_encoder, chapter_title, copy_video_stream, encoder_candidates, encoder_probe_args, ffprobe_args,
    ffprobe_beside, is_browser_compatible_video, list_encoders_args, reported_size, select_tools, summarize_streams,
    thumb_args, transcode_args, HwEncoder, ProbeFormat, ProbeStream, ProbeTags,
};

fn s(v: &[&str]) -> Vec<String> {
    v.iter().map(|x| x.to_string()).collect()
}

#[test]
fn browser_compatible_codecs() {
    assert!(is_browser_compatible_video("h264"));
    assert!(is_browser_compatible_video("H264"));
    assert!(is_browser_compatible_video("Vp9"));
    assert!(is_browser_compatible_video("AV1"));
    assert!(!is_browser_compatible_video("hevc"));
    assert!(!is_browser_compatible_video("mpeg4"));
}

#[test]
fn compatible_video_is_copied() {
    assert!(copy_video_stream("h264"));
    assert!(copy_video_stream("VP8"));
    assert!(!copy_video_stream("hevc"));
    assert!(!copy_video_stream(""));
}

#[test]
fn encoder_arguments() {
    assert_eq!(HwEncoder::Vaapi.pre_input_args(), s(&["-vaapi_device", "/dev/dri/renderD128"]));
    assert!(HwEncoder::Nvenc.pre_input_args().is_empty());
    assert_eq!(HwEncoder::Nvenc.encoder_args(), s(&["-c:v", "h264_nvenc", "-preset", "p4", "-cq", "24"]));
    assert_eq!(HwEncoder::Libx264.encoder_args(), s(&["-c:v", "libx264", "-preset", "fast", "-crf", "22"]));
    assert_eq!(
        encoder_probe_args(HwEncoder::Vaapi),
        s(&[
            "-v", "error", "-vaapi_device", "/dev/dri/renderD128", "-f", "lavfi", "-i",
            "testsrc=duration=0.1:size=320x240:rate=30", "-vf", "format=nv12,hwupload", "-c:v", "h264_vaapi",
            "-qp", "24", "-f", "null", "-",
        ])
    );
    assert_eq!(list_encoders_args(), s(&["-hide_banner", "-encoders"]));
}

#[test]
fn encoder_choice() {
    let listing = " V....D h264_nvenc  NVIDIA\n V....D h264_vaapi VAAPI\n V....D libx264";
    let with_device = encoder_candidates(listing, true);
    assert_eq!(with_device, vec![HwEncoder::Vaapi, HwEncoder::Nvenc]);
    let without = encoder_candidates(listing, false);
    assert_eq!(without, vec![HwEncoder::Nvenc]);
    assert_eq!(choose_encoder(&with_device, &vec![false, true]), HwEncoder::Nvenc);
    assert_eq!(choose_encoder(&with_device, &vec![true]), HwEncoder::Vaapi);
    assert_eq!(choose_encoder(&with_device, &vec![false, false]), HwEncoder::Libx264);
    assert_eq!(choose_encoder(&vec![], &vec![]), HwEncoder::Libx264);
    assert!(encoder_candidates("", true).is_empty());
}

#[test]
fn thumbnail_arguments() {
    assert_eq!(
        thumb_args("/v/a.mkv", Some("12.500"), 640),
        s(&[
            "-v", "error", "-ss", "12.500", "-i", "/v/a.mkv", "-frames:v", "1", "-vf", "scale=640:-2", "-f",
            "image2pipe", "-vcodec", "mjpeg", "pipe:1",
        ])
    );
    assert_eq!(
        thumb_args("/v/a.mkv", None, 0),
        s(&["-v", "error", "-i", "/v/a.mkv", "-frames:v", "1", "-f", "image2pipe", "-vcodec", "mjpeg", "pipe:1"])
    );
}

#[test]
fn transcode_arguments() {
    let tail = ["-c:a", "aac", "-b:a", "192k", "-af", "aresample=async=1", "-avoid_negative_ts", "make_zero",
        "-f", "mp4", "-movflags", "frag_keyframe+empty_moov", "pipe:1"];
    let mut copy = s(&["-v", "error", "-noaccurate_seek", "-ss", "30.000", "-i", "/v/a.mkv", "-c:v", "copy"]);
    copy.extend(s(&tail));
    assert_eq!(transcode_args("/v/a.mkv", Some("30.000"), None), copy);
    let mut enc = s(&["-v", "error", "-vaapi_device", "/dev/dri/renderD128", "-i", "/v/a.mkv", "-vf",
        "format=nv12,hwupload", "-c:v", "h264_vaapi", "-qp", "24"]);
    enc.extend(s(&tail));
    assert_eq!(transcode_args("/v/a.mkv", None, Some(HwEncoder::Vaapi)), enc);
}

#[test]
fn ffprobe_arguments() {
    assert_eq!(
        ffprobe_args("/v/a.mkv"),
        s(&[
            "-v", "error", "-print_format", "json", "-show_entries", "format=duration,size,bit_rate",
            "-show_entries", "stream=codec_type,codec_name,width,height,avg_frame_rate", "-show_chapters", "/v/a.mkv",
        ])
    );
}

#[test]
fn tools() {
    let t = select_tools(None, None);
    assert_eq!((t.ffmpeg.as_str(), t.ffprobe.as_str()), ("ffmpeg", "ffprobe"));
    let t = select_tools(Some("/opt/ff/ffmpeg".to_string()), Some("/opt/ff/ffprobe".to_string()));
    assert_eq!((t.ffmpeg.as_str(), t.ffprobe.as_str()), ("/opt/ff/ffmpeg", "/opt/ff/ffprobe"));
    let t = select_tools(Some("/opt/ff/ffmpeg".to_string()), None);
    assert_eq!(t.ffprobe, "ffprobe");
    assert_eq!(ffprobe_beside("/opt/ff/ffmpeg", ""), Some("/opt/ff/ffprobe".to_string()));
    assert_eq!(ffprobe_beside("/opt/ff/ffmpeg.exe", ".exe"), Some("/opt/ff/ffprobe.exe".to_string()));
}

fn stream(t: &str, c: &str, w: Option<u32>, h: Option<u32>, fps: &str) -> ProbeStream {
    ProbeStream { codec_type: t.to_string(), codec_name: c.to_string(), width: w, height: h, avg_frame_rate: fps.to_string() }
}

#[test]
fn stream_summary() {
    let streams = vec![
        stream("audio", "ac3", None, None, ""),
        stream("video", "hevc", Some(1920), Some(1080), "24000/1001"),
        stream("audio", "aac", None, None, ""),
        stream("audio", "AC3", None, None, ""),
        stream("video", "mjpeg", Some(10), Some(10), "0/0"),
        stream("data", "", None, None, ""),
    ];
    let sm = summarize_streams(&Some(streams));
    assert_eq!((sm.width, sm.height), (1920, 1080));
    assert_eq!(sm.frame_rate, "24000/1001");
    assert_eq!(sm.codec, "hevc");
    assert_eq!(sm.audio_codecs, vec!["AC3".to_string(), "AAC".to_string()]);
    let none = summarize_streams(&None);
    assert_eq!((none.width, none.height, none.frame_rate.as_str(), none.codec.as_str()), (0, 0, "0/0", "unknown"));
    let audio_only = summarize_streams(&Some(vec![stream("audio", "mp3", None, None, "")]));
    assert_eq!(audio_only.codec, "unknown");
    assert_eq!(audio_only.audio_codecs, vec!["MP3".to_string()]);
    let no_size = summarize_streams(&Some(vec![stream("video", "h264", None, Some(720), "30/1")]));
    assert_eq!((no_size.width, no_size.height), (0, 720));
}

#[test]
fn chapter_titles() {
    let both = Some(ProbeTags { title: Some("Intro".to_string()), title_upper: Some("INTRO".to_string()) });
    assert_eq!(chapter_title(&both), "Intro");
    let upper = Some(ProbeTags { title: None, title_upper: Some("END".to_string()) });
    assert_eq!(chapter_title(&upper), "END");
    assert_eq!(chapter_title(&Some(ProbeTags { title: None, title_upper: None })), "");
    assert_eq!(chapter_title(&None), "");
}

#[test]
fn sizes_reported_by_ffprobe() {
    let f = |size: &str| Some(ProbeFormat { duration: "1.0".to_string(), size: size.to_string() });
    assert_eq!(reported_size(&f("12345")), 12345);
    assert_eq!(reported_size(&f("+7")), 7);
    assert_eq!(reported_size(&f("18446744073709551615")), u64::MAX);
    assert_eq!(reported_size(&f("18446744073709551616")), 0);
    assert_eq!(reported_size(&f("")), 0);
    assert_eq!(reported_size(&f("N/A")), 0);
    assert_eq!(reported_size(&f("-1")), 0);
    assert_eq!(reported_size(&None), 0);
}

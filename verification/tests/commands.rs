use re_ch_rzl_rust::cli::parse_cli;
use re_ch_rzl_rust::encoder::{
    classify_progress_line, detect_hw_encoder, encoder_args, ffmpeg_names, merge_frame_count,
    progress_due, select_encoder, should_probe_encoders, ProgressLine,
};
use re_ch_rzl_rust::files::{chars_before, first_matching_file};
use re_ch_rzl_rust::text::{
    chars_of, contains_chars, ends_with_ignore_case, parse_u32, parse_u64, starts_with, trim_bounds,
};

fn args(list: &[&str]) -> Vec<String> {
    list.iter().map(|s| s.to_string()).collect()
}

fn cv(s: &str) -> Vec<char> {
    s.chars().collect()
}

#[test]
fn default_options() {
    let o = parse_cli(&args(&[]));
    assert!(!o.recorder);
    assert_eq!((o.width, o.height, o.fps), (1080, 1920, 60));
    assert_eq!(o.hwaccel, None);
    assert_eq!(o.wav, None);
    assert_eq!(o.json, None);
    assert!(o.revelation.is_empty());
}

#[test]
fn options_are_read_left_to_right() {
    let o = parse_cli(&args(&[
        "--recorder", "--width", "720", "song.WAV", "--height", "+1280", "--fps", "abc", "chart.Json",
        "--hwaccel", "--no-hwaccel", "--revelation", "0.3", "--revelation-size", "x", "other.txt",
    ]));
    assert!(o.recorder);
    assert_eq!((o.width, o.height, o.fps), (720, 1280, 60));
    assert_eq!(o.hwaccel, Some(false));
    assert_eq!(o.wav.as_deref(), Some("song.WAV"));
    assert_eq!(o.json.as_deref(), Some("chart.Json"));
    assert_eq!(o.revelation, vec!["0.3".to_string(), "x".to_string()]);
}

#[test]
fn missing_values_at_the_end() {
    let o = parse_cli(&args(&["a.json", "--width"]));
    assert_eq!(o.width, 1080);
    assert_eq!(o.json.as_deref(), Some("a.json"));
    let o = parse_cli(&args(&["--revelation"]));
    assert!(o.revelation.is_empty());
    let o = parse_cli(&args(&["--fps", "99999999999", "b.wav", "c.wav"]));
    assert_eq!(o.fps, 60);
    assert_eq!(o.wav.as_deref(), Some("c.wav"));
}

#[test]
fn a_flag_value_is_not_a_file() {
    let o = parse_cli(&args(&["--width", "x.wav"]));
    assert_eq!(o.wav, None);
    assert_eq!(o.width, 1080);
}

#[test]
fn numbers_parse_like_std() {
    for s in ["0", "+7", "0042", "4294967295", "4294967296", "", "+", "-1", "1 ", " 1", "1a", "18446744073709551615", "18446744073709551616"] {
        assert_eq!(parse_u32(&cv(s)), s.parse::<u32>().ok(), "{s:?}");
        assert_eq!(parse_u64(&cv(s)), s.parse::<u64>().ok(), "{s:?}");
    }
}

#[test]
fn trimming_matches_std() {
    for s in ["  12 \t", "\u{3000}x\u{a0}", "", "   ", "a b", "\u{85}z\u{2028}"] {
        let v = cv(s);
        let (a, b) = trim_bounds(&v);
        let t: String = v[a..b].iter().collect();
        assert_eq!(t, s.trim(), "{s:?}");
    }
}

#[test]
fn text_helpers() {
    assert_eq!(chars_of("héllo"), cv("héllo"));
    assert!(starts_with(&cv("frame=12"), &cv("frame=")));
    assert!(!starts_with(&cv("fra"), &cv("frame=")));
    assert!(contains_chars(&cv("xx h264_qsv yy"), &cv("h264_qsv")));
    assert!(!contains_chars(&cv("h264_qs"), &cv("h264_qsv")));
    assert!(contains_chars(&cv("abc"), &cv("")));
    assert!(ends_with_ignore_case(&cv("Song.WaV"), &cv(".wav")));
    assert!(!ends_with_ignore_case(&cv("wav"), &cv(".wav")));
}

#[test]
fn ffmpeg_is_looked_for_under_the_platform_name_first() {
    assert_eq!(ffmpeg_names(true), vec!["ffmpeg.exe".to_string(), "ffmpeg".to_string()]);
    assert_eq!(ffmpeg_names(false), vec!["ffmpeg".to_string(), "ffmpeg.exe".to_string()]);
}

#[test]
fn hardware_encoders_in_order_of_preference() {
    let listing = " V..... h264_amf  AMD\n V..... h264_qsv  Intel\n V..... libx264";
    assert_eq!(detect_hw_encoder(listing).as_deref(), Some("h264_qsv"));
    assert_eq!(detect_hw_encoder("libx264 only"), None);
    assert_eq!(detect_hw_encoder("h264_videotoolbox h264_nvenc").as_deref(), Some("h264_nvenc"));
}

#[test]
fn encoder_choice() {
    assert!(should_probe_encoders(None));
    assert!(should_probe_encoders(Some(true)));
    assert!(!should_probe_encoders(Some(false)));
    assert_eq!(select_encoder(Some(false), Some("h264_nvenc")), "libx264");
    assert_eq!(select_encoder(None, Some("h264_nvenc")), "h264_nvenc");
    assert_eq!(select_encoder(Some(true), Some("nothing")), "libx264");
    assert_eq!(select_encoder(Some(true), None), "libx264");
}

#[test]
fn encoder_quality_settings() {
    assert_eq!(encoder_args("h264_nvenc"), vec!["-preset", "p5", "-cq", "18"]);
    assert_eq!(encoder_args("h264_qsv"), vec!["-preset", "medium", "-global_quality", "18"]);
    assert_eq!(
        encoder_args("h264_amf"),
        vec!["-quality", "quality", "-rc", "cqp", "-qp_i", "18", "-qp_p", "18"]
    );
    assert_eq!(encoder_args("h264_videotoolbox"), vec!["-q:v", "65", "-allow_sw", "1"]);
    assert_eq!(encoder_args("libx264"), vec!["-preset", "medium", "-crf", "16"]);
}

fn kind(line: &str) -> String {
    match classify_progress_line(line) {
        ProgressLine::Frames(n) => format!("frames {n}"),
        ProgressLine::FpsText(t) => format!("fps {t}"),
        ProgressLine::OutTimeUs(n) => format!("out {n}"),
        ProgressLine::Report => "report".to_string(),
        ProgressLine::Log => "log".to_string(),
        ProgressLine::Quiet => "quiet".to_string(),
    }
}

#[test]
fn progress_lines() {
    assert_eq!(kind("frame=120"), "frames 120");
    assert_eq!(kind("frame= 7 "), "frames 7");
    assert_eq!(kind("frame=N/A"), "quiet");
    assert_eq!(kind("fps= 59.8"), "fps 59.8");
    assert_eq!(kind("out_time_us=2000000"), "out 2000000");
    assert_eq!(kind("out_time_us=N/A"), "quiet");
    assert_eq!(kind("progress=continue"), "report");
    assert_eq!(kind("progress=end"), "report");
    assert_eq!(kind("bitrate=1234.5kbits/s"), "quiet");
    assert_eq!(kind("speed= 1.2x"), "quiet");
    assert_eq!(kind("Input #0, rawvideo, from 'pipe:':"), "log");
    assert_eq!(kind("key=two words"), "log");
    assert_eq!(kind("no equals sign"), "log");
    assert_eq!(kind("bad-key=1"), "log");
}

#[test]
fn frame_counts_never_go_back() {
    assert_eq!(merge_frame_count(10, 12), 12);
    assert_eq!(merge_frame_count(10, 3), 10);
}

#[test]
fn progress_is_shown_every_tenth_frame_and_at_the_end() {
    assert!(progress_due(10, 100));
    assert!(!progress_due(11, 100));
    assert!(progress_due(101, 101));
    assert!(progress_due(0, 5));
}

#[test]
fn lexicographic_order() {
    assert!(chars_before(&cv("a"), &cv("b")));
    assert!(chars_before(&cv("ab"), &cv("abc")));
    assert!(!chars_before(&cv("abc"), &cv("abc")));
    assert!(chars_before(&cv("B"), &cv("a")));
}

#[test]
fn first_chart_in_name_order() {
    let names = args(&["z.json", "music.MP3", "b.JSON", "notes.txt", "a.json"]);
    let exts = args(&[".json"]);
    assert_eq!(first_matching_file(&names, &exts), Some(4));
    let music = args(&[".wav", ".ogg", ".mp3", ".flac"]);
    assert_eq!(first_matching_file(&names, &music), Some(1));
    assert_eq!(first_matching_file(&names, &args(&[".png"])), None);
    assert_eq!(first_matching_file(&args(&[]), &exts), None);
}

#[test]
fn numbers_are_written_in_decimal() {
    for n in [0u64, 7, 10, 99, 1080, 4294967295, u64::MAX] {
        assert_eq!(re_ch_rzl_rust::encoder::decimal_string(n), n.to_string());
    }
}

#[test]
fn recording_command_line() {
    let args = re_ch_rzl_rust::encoder::recording_command_args(1080, 1920, 60, "mixed_audio.wav", "h264_nvenc", "output.mp4");
    let expected: Vec<String> = [
        "-y", "-f", "rawvideo", "-pix_fmt", "rgb24", "-s", "1080x1920", "-r", "60", "-i", "-", "-i",
        "mixed_audio.wav", "-c:v", "h264_nvenc", "-pix_fmt", "yuv420p", "-c:a", "aac", "-shortest",
        "-preset", "p5", "-cq", "18", "-stats_period", "0.2", "-progress", "pipe:2", "output.mp4",
    ]
    .iter()
    .map(|s| s.to_string())
    .collect();
    assert_eq!(args, expected);
    let sw = re_ch_rzl_rust::encoder::recording_command_args(7, 0, 144, "a b.wav", "libx264", "o.mp4");
    assert_eq!(sw[6], "7x0");
    assert_eq!(sw[8], "144");
    assert_eq!(&sw[20..24], &["-preset", "medium", "-crf", "16"]);
    assert_eq!(sw.len(), 29);
}

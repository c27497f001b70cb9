//! Choosing and driving the video encoder.
//!
//! The recorder pipes raw frames into ffmpeg. It prefers a hardware H.264
//! encoder that ffmpeg lists, unless hardware encoding is switched off, and
//! falls back to libx264; each encoder gets its own quality settings. While
//! ffmpeg runs, its progress lines are read to show how far encoding has got.
use vstd::prelude::*;
use vstd::string::{StrSliceExecFns, StringExecFns};
use crate::text::{
    chars_of, contains_chars, has_prefix, occurs_in, parse_u64, same_chars, starts_with, trim,
    trim_bounds, unsigned_value,
};

verus! {

/// The names under which ffmpeg is looked for, the platform's own first.
pub fn ffmpeg_names(windows: bool) -> (names: Vec<String>)
    ensures
        names@.len() == 2,
        windows ==> names@[0]@ == "ffmpeg.exe"@ && names@[1]@ == "ffmpeg"@,
        !windows ==> names@[0]@ == "ffmpeg"@ && names@[1]@ == "ffmpeg.exe"@,
{
    let mut names: Vec<String> = Vec::new();
    if windows {
        names.push("ffmpeg.exe".to_owned());
        names.push("ffmpeg".to_owned());
    } else {
        names.push("ffmpeg".to_owned());
        names.push("ffmpeg.exe".to_owned());
    }
    names
}

/// The hardware encoders, in order of preference.
pub open spec fn hardware_encoders() -> Seq<Seq<char>> {
    seq!["h264_nvenc"@, "h264_qsv"@, "h264_amf"@, "h264_videotoolbox"@]
}

/// The software encoder used when no hardware encoder is chosen.
pub open spec fn software_encoder() -> Seq<char> {
    "libx264"@
}

/// The first hardware encoder named anywhere in ffmpeg's encoder listing.
pub open spec fn first_listed(listing: Seq<char>) -> Option<Seq<char>> {
    first_listed_from(listing, 0)
}

pub open spec fn first_listed_from(listing: Seq<char>, k: int) -> Option<Seq<char>>
    decreases 4 - k,
{
    if k < 0 || k >= 4 {
        None
    } else if occurs_in(listing, hardware_encoders()[k]) {
        Some(hardware_encoders()[k])
    } else {
        first_listed_from(listing, k + 1)
    }
}

fn hardware_encoder_name(k: usize) -> (name: &'static str)
    requires
        k < 4,
    ensures
        name@ == hardware_encoders()[k as int],
{
    if k == 0 {
        "h264_nvenc"
    } else if k == 1 {
        "h264_qsv"
    } else if k == 2 {
        "h264_amf"
    } else {
        "h264_videotoolbox"
    }
}

/// Finds the first hardware encoder that ffmpeg's encoder listing names.
pub fn detect_hw_encoder(listing: &str) -> (found: Option<String>)
    ensures
        string_option(found) == first_listed(listing@),
{
    let hay = chars_of(listing);
    let mut k: usize = 0;
    while k < 4
        invariant
            k <= 4,
            hay@ == listing@,
            first_listed(listing@) == first_listed_from(listing@, k as int),
        decreases 4 - k,
    {
        let name = hardware_encoder_name(k);
        if contains_chars(&hay, &chars_of(name)) {
            return Some(name.to_owned());
        }
        k += 1;
    }
    None
}

pub open spec fn string_option(s: Option<String>) -> Option<Seq<char>> {
    match s {
        Some(s) => Some(s@),
        None => None,
    }
}

/// Whether ffmpeg is asked for its encoders: unless hardware encoding is switched off.
pub fn should_probe_encoders(hwaccel: Option<bool>) -> (probe: bool)
    ensures
        probe == (hwaccel != Some(false)),
{
    match hwaccel {
        Some(false) => false,
        _ => true,
    }
}

/// The encoder for a recording: the software encoder when hardware encoding
/// is switched off, else the first hardware encoder in ffmpeg's listing (when
/// ffmpeg could list its encoders), else the software encoder.
pub open spec fn chosen_encoder(hwaccel: Option<bool>, listing: Option<Seq<char>>) -> Seq<char> {
    if hwaccel == Some(false) {
        software_encoder()
    } else {
        match listing {
            Some(l) => match first_listed(l) {
                Some(e) => e,
                None => software_encoder(),
            },
            None => software_encoder(),
        }
    }
}

/// Chooses the encoder; `listing` is what ffmpeg printed for its encoders, if it could be run.
pub fn select_encoder(hwaccel: Option<bool>, listing: Option<&str>) -> (encoder: String)
    ensures
        encoder@ == chosen_encoder(
            hwaccel,
            match listing {
                Some(l) => Some(l@),
                None => None,
            },
        ),
{
    if !should_probe_encoders(hwaccel) {
        return "libx264".to_owned();
    }
    match listing {
        Some(l) => match detect_hw_encoder(l) {
            Some(e) => e,
            None => "libx264".to_owned(),
        },
        None => "libx264".to_owned(),
    }
}

/// The quality settings ffmpeg is given for an encoder.
pub open spec fn quality_args(encoder: Seq<char>) -> Seq<Seq<char>> {
    if encoder == "h264_nvenc"@ {
        seq!["-preset"@, "p5"@, "-cq"@, "18"@]
    } else if encoder == "h264_qsv"@ {
        seq!["-preset"@, "medium"@, "-global_quality"@, "18"@]
    } else if encoder == "h264_amf"@ {
        seq!["-quality"@, "quality"@, "-rc"@, "cqp"@, "-qp_i"@, "18"@, "-qp_p"@, "18"@]
    } else if encoder == "h264_videotoolbox"@ {
        seq!["-q:v"@, "65"@, "-allow_sw"@, "1"@]
    } else {
        seq!["-preset"@, "medium"@, "-crf"@, "16"@]
    }
}

pub open spec fn strings_of(v: Seq<String>) -> Seq<Seq<char>> {
    v.map_values(|s: String| s@)
}

fn push_word(args: &mut Vec<String>, word: &str)
    ensures
        strings_of(final(args)@) == strings_of(old(args)@).push(word@),
{
    args.push(word.to_owned());
    proof {
        assert(strings_of(args@) =~= strings_of(old(args)@).push(word@));
    }
}

/// The quality settings for an encoder.
pub fn encoder_args(encoder: &str) -> (args: Vec<String>)
    ensures
        strings_of(args@) == quality_args(encoder@),
{
    let e = chars_of(encoder);
    let mut args: Vec<String> = Vec::new();
    assert(strings_of(args@) =~= Seq::<Seq<char>>::empty());
    if same_chars(&e, &chars_of("h264_nvenc")) {
        push_word(&mut args, "-preset");
        push_word(&mut args, "p5");
        push_word(&mut args, "-cq");
        push_word(&mut args, "18");
    } else if same_chars(&e, &chars_of("h264_qsv")) {
        push_word(&mut args, "-preset");
        push_word(&mut args, "medium");
        push_word(&mut args, "-global_quality");
        push_word(&mut args, "18");
    } else if same_chars(&e, &chars_of("h264_amf")) {
        push_word(&mut args, "-quality");
        push_word(&mut args, "quality");
        push_word(&mut args, "-rc");
        push_word(&mut args, "cqp");
        push_word(&mut args, "-qp_i");
        push_word(&mut args, "18");
        push_word(&mut args, "-qp_p");
        push_word(&mut args, "18");
    } else if same_chars(&e, &chars_of("h264_videotoolbox")) {
        push_word(&mut args, "-q:v");
        push_word(&mut args, "65");
        push_word(&mut args, "-allow_sw");
        push_word(&mut args, "1");
    } else {
        push_word(&mut args, "-preset");
        push_word(&mut args, "medium");
        push_word(&mut args, "-crf");
        push_word(&mut args, "16");
    }
    assert(strings_of(args@) =~= quality_args(encoder@));
    args
}

/// A number that reads as a `u64`.
pub open spec fn u64_value(s: Seq<char>) -> Option<u64> {
    match unsigned_value(s) {
        Some(v) => if v <= u64::MAX {
            Some(v as u64)
        } else {
            None
        },
        None => None,
    }
}

/// The first position of `c` in `s` from `i` on, or the length of `s`.
pub open spec fn index_of_from(s: Seq<char>, c: char, i: int) -> int
    decreases s.len() - i,
{
    if i < 0 || i >= s.len() {
        s.len() as int
    } else if s[i] == c {
        i
    } else {
        index_of_from(s, c, i + 1)
    }
}

/// An ASCII letter or digit, or an underscore.
pub open spec fn is_key_char(c: char) -> bool {
    ('a' <= c && c <= 'z') || ('A' <= c && c <= 'Z') || ('0' <= c && c <= '9') || c == '_'
}

/// A `key=value` line of ffmpeg's progress report: the key (up to the first
/// `=`) is made of letters, digits and underscores, and the value, trimmed,
/// holds no space.
pub open spec fn is_key_value_line(l: Seq<char>) -> bool {
    let k = index_of_from(l, '=', 0);
    &&& k < l.len()
    &&& !trim(l.skip(k + 1)).contains(' ')
    &&& forall|i: int| 0 <= i < k ==> is_key_char(#[trigger] l[i])
}

/// What a line of ffmpeg's progress output means for the recorder.
pub enum ProgressLine {
    /// The number of frames encoded so far.
    Frames(u64),
    /// The encoding speed, as text still to be read as a number.
    FpsText(String),
    /// The amount of output encoded, in microseconds.
    OutTimeUs(u64),
    /// The end of a progress block: time to report progress.
    Report,
    /// Anything else ffmpeg says, to be passed on to the console.
    Log,
    /// A line that changes nothing and is not shown.
    Quiet,
}

/// `ProgressLine` as seen in contracts.
pub enum LineMeaning {
    Frames(u64),
    FpsText(Seq<char>),
    OutTimeUs(u64),
    Report,
    Log,
    Quiet,
}

impl ProgressLine {
    pub open spec fn meaning(&self) -> LineMeaning {
        match self {
            ProgressLine::Frames(n) => LineMeaning::Frames(*n),
            ProgressLine::FpsText(t) => LineMeaning::FpsText(t@),
            ProgressLine::OutTimeUs(n) => LineMeaning::OutTimeUs(*n),
            ProgressLine::Report => LineMeaning::Report,
            ProgressLine::Log => LineMeaning::Log,
            ProgressLine::Quiet => LineMeaning::Quiet,
        }
    }
}

/// The meaning of one line of ffmpeg's progress output.
pub open spec fn line_meaning(l: Seq<char>) -> LineMeaning {
    if has_prefix(l, "frame="@) {
        match u64_value(trim(l.skip("frame="@.len() as int))) {
            Some(n) => LineMeaning::Frames(n),
            None => LineMeaning::Quiet,
        }
    } else if has_prefix(l, "fps="@) {
        LineMeaning::FpsText(trim(l.skip("fps="@.len() as int)))
    } else if has_prefix(l, "out_time_us="@) {
        match u64_value(trim(l.skip("out_time_us="@.len() as int))) {
            Some(n) => LineMeaning::OutTimeUs(n),
            None => LineMeaning::Quiet,
        }
    } else if l == "progress=continue"@ || l == "progress=end"@ {
        LineMeaning::Report
    } else if is_key_value_line(l) {
        LineMeaning::Quiet
    } else {
        LineMeaning::Log
    }
}

/// The characters of `v` from position `from` on.
pub fn chars_from(v: &Vec<char>, from: usize) -> (r: Vec<char>)
    requires
        from <= v.len(),
    ensures
        r@ == v@.skip(from as int),
{
    let mut r: Vec<char> = Vec::new();
    let mut i = from;
    while i < v.len()
        invariant
            from <= i <= v.len(),
            r@ == v@.subrange(from as int, i as int),
        decreases v.len() - i,
    {
        r.push(v[i]);
        i += 1;
        assert(r@ =~= v@.subrange(from as int, i as int));
    }
    assert(r@ =~= v@.skip(from as int));
    r
}

fn read_u64_after(l: &Vec<char>, from: usize) -> (n: Option<u64>)
    requires
        from <= l.len(),
    ensures
        n == u64_value(trim(l@.skip(from as int))),
{
    let rest = chars_from(l, from);
    let (a, b) = trim_bounds(&rest);
    let t = chars_from(&rest, a);
    let mut body: Vec<char> = Vec::new();
    let mut i: usize = 0;
    while i < b - a
        invariant
            a <= b <= rest.len(),
            t@ == rest@.skip(a as int),
            i <= b - a,
            body@ == t@.take(i as int),
        decreases b - a - i,
    {
        body.push(t[i]);
        i += 1;
        assert(body@ =~= t@.take(i as int));
    }
    assert(body@ =~= rest@.subrange(a as int, b as int));
    let r = parse_u64(&body);
    r
}

fn index_of(l: &Vec<char>, c: char) -> (k: usize)
    ensures
        k == index_of_from(l@, c, 0),
{
    let mut i: usize = 0;
    while i < l.len()
        invariant
            i <= l.len(),
            index_of_from(l@, c, 0) == index_of_from(l@, c, i as int),
        decreases l.len() - i,
    {
        if l[i] == c {
            return i;
        }
        i += 1;
    }
    i
}

#[verifier::loop_isolation(false)]
fn key_value_line(l: &Vec<char>) -> (b: bool)
    ensures
        b == is_key_value_line(l@),
{
    let k = index_of(l, '=');
    if k >= l.len() {
        return false;
    }
    let rest = chars_from(l, k + 1);
    let (a, b) = trim_bounds(&rest);
    let mut i = a;
    while i < b
        invariant
            a <= i <= b <= rest.len(),
            forall|j: int| a <= j < i ==> rest@[j] != ' ',
        decreases b - i,
    {
        if rest[i] == ' ' {
            assert(trim(l@.skip(k + 1 as int))[i - a] == ' ');
            assert(trim(l@.skip(k + 1 as int)).contains(' '));
            return false;
        }
        i += 1;
    }
    assert(!trim(l@.skip(k + 1 as int)).contains(' '));
    let mut j: usize = 0;
    while j < k
        invariant
            j <= k < l.len(),
            forall|i: int| 0 <= i < j ==> is_key_char(#[trigger] l@[i]),
        decreases k - j,
    {
        let c = l[j];
        if !(('a' <= c && c <= 'z') || ('A' <= c && c <= 'Z') || ('0' <= c && c <= '9') || c == '_') {
            assert(!is_key_char(l@[j as int]));
            return false;
        }
        j += 1;
    }
    true
}

/// Reads one line of ffmpeg's progress output.
pub fn classify_progress_line(line: &str) -> (r: ProgressLine)
    ensures
        r.meaning() == line_meaning(line@),
{
    let l = chars_of(line);
    let frame = chars_of("frame=");
    let fps = chars_of("fps=");
    let out_time = chars_of("out_time_us=");
    if starts_with(&l, &frame) {
        match read_u64_after(&l, frame.len()) {
            Some(n) => ProgressLine::Frames(n),
            None => ProgressLine::Quiet,
        }
    } else if starts_with(&l, &fps) {
        let rest = chars_from(&l, fps.len());
        let (a, b) = trim_bounds(&rest);
        let p = fps.len();
        assert(rest@.len() == l@.len() - p);
        assert(p + b <= l.len());
        let text = line.substring_char(p + a, p + b);
        proof {
            assert(text@ =~= trim(line@.skip(fps@.len() as int)));
        }
        ProgressLine::FpsText(text.to_owned())
    } else if starts_with(&l, &out_time) {
        match read_u64_after(&l, out_time.len()) {
            Some(n) => ProgressLine::OutTimeUs(n),
            None => ProgressLine::Quiet,
        }
    } else if same_chars(&l, &chars_of("progress=continue")) || same_chars(
        &l,
        &chars_of("progress=end"),
    ) {
        ProgressLine::Report
    } else if key_value_line(&l) {
        ProgressLine::Quiet
    } else {
        ProgressLine::Log
    }
}

/// The frame count after a report of `reported` frames: reports never move it back.
pub fn merge_frame_count(current: u64, reported: u64) -> (n: u64)
    ensures
        n == if reported > current { reported } else { current },
        n >= current,
{
    if reported > current {
        reported
    } else {
        current
    }
}

/// How many frames go by between two updates of the progress window.
pub const PROGRESS_BATCH: u64 = 10;

/// Whether the progress window is redrawn after `frame` of `total` frames:
/// every tenth frame and at the end.
pub fn progress_due(frame: u64, total: u64) -> (due: bool)
    ensures
        due == (frame % PROGRESS_BATCH == 0 || frame >= total),
{
    frame % PROGRESS_BATCH == 0 || frame >= total
}

/// The decimal digit `d` as text.
pub open spec fn digit_text(d: int) -> Seq<char> {
    if d == 0 {
        "0"@
    } else if d == 1 {
        "1"@
    } else if d == 2 {
        "2"@
    } else if d == 3 {
        "3"@
    } else if d == 4 {
        "4"@
    } else if d == 5 {
        "5"@
    } else if d == 6 {
        "6"@
    } else if d == 7 {
        "7"@
    } else if d == 8 {
        "8"@
    } else {
        "9"@
    }
}

/// A number written in decimal, without leading zeros.
pub open spec fn decimal_text(n: nat) -> Seq<char>
    decreases n,
{
    if n < 10 {
        digit_text(n as int)
    } else {
        decimal_text(n / 10) + digit_text((n % 10) as int)
    }
}

fn digit_str(d: u64) -> (t: &'static str)
    requires
        d < 10,
    ensures
        t@ == digit_text(d as int),
{
    if d == 0 {
        "0"
    } else if d == 1 {
        "1"
    } else if d == 2 {
        "2"
    } else if d == 3 {
        "3"
    } else if d == 4 {
        "4"
    } else if d == 5 {
        "5"
    } else if d == 6 {
        "6"
    } else if d == 7 {
        "7"
    } else if d == 8 {
        "8"
    } else {
        "9"
    }
}

/// Writes `n` in decimal at the end of `s`.
fn push_decimal(s: &mut String, n: u64)
    ensures
        final(s)@ == old(s)@ + decimal_text(n as nat),
    decreases n,
{
    if n >= 10 {
        push_decimal(s, n / 10);
    }
    let ghost mid = s@;
    s.append(digit_str(n % 10));
    proof {
        if n >= 10 {
            assert(decimal_text(n as nat) == decimal_text((n / 10) as nat) + digit_text((n % 10) as int));
            assert(s@ =~= old(s)@ + decimal_text(n as nat));
        } else {
            assert(decimal_text(n as nat) == digit_text(n as int));
            assert(s@ =~= old(s)@ + decimal_text(n as nat));
        }
    }
}

/// `n` in decimal.
pub fn decimal_string(n: u64) -> (t: String)
    ensures
        t@ == decimal_text(n as nat),
{
    let mut t = String::new();
    push_decimal(&mut t, n);
    assert(t@ =~= decimal_text(n as nat));
    t
}

/// The arguments ffmpeg is started with for a recording: raw RGB frames of
/// `width` by `height` at `fps` frames a second come in on standard input,
/// the mixed music from `audio`; the video is encoded with `encoder` and its
/// quality settings into `output`, with progress reported on standard error.
pub open spec fn recording_args(
    width: u32,
    height: u32,
    fps: u32,
    audio: Seq<char>,
    encoder: Seq<char>,
    output: Seq<char>,
) -> Seq<Seq<char>> {
    seq![
        "-y"@,
        "-f"@,
        "rawvideo"@,
        "-pix_fmt"@,
        "rgb24"@,
        "-s"@,
        decimal_text(width as nat) + "x"@ + decimal_text(height as nat),
        "-r"@,
        decimal_text(fps as nat),
        "-i"@,
        "-"@,
        "-i"@,
        audio,
        "-c:v"@,
        encoder,
        "-pix_fmt"@,
        "yuv420p"@,
        "-c:a"@,
        "aac"@,
        "-shortest"@,
    ] + quality_args(encoder) + seq!["-stats_period"@, "0.2"@, "-progress"@, "pipe:2"@, output]
}

/// Builds the arguments ffmpeg is started with for a recording.
pub fn recording_command_args(
    width: u32,
    height: u32,
    fps: u32,
    audio: &str,
    encoder: &str,
    output: &str,
) -> (args: Vec<String>)
    ensures
        strings_of(args@) == recording_args(width, height, fps, audio@, encoder@, output@),
{
    let mut args: Vec<String> = Vec::new();
    assert(strings_of(args@) =~= Seq::<Seq<char>>::empty());
    push_word(&mut args, "-y");
    push_word(&mut args, "-f");
    push_word(&mut args, "rawvideo");
    push_word(&mut args, "-pix_fmt");
    push_word(&mut args, "rgb24");
    push_word(&mut args, "-s");
    let mut size = decimal_string(width as u64);
    size.append("x");
    size.append(decimal_string(height as u64).as_str());
    let ghost size_text = size@;
    let ghost before = args@;
    args.push(size);
    assert(strings_of(args@) =~= strings_of(before).push(size_text));
    push_word(&mut args, "-r");
    let rate = decimal_string(fps as u64);
    let ghost rate_text = rate@;
    let ghost before = args@;
    args.push(rate);
    assert(strings_of(args@) =~= strings_of(before).push(rate_text));
    push_word(&mut args, "-i");
    push_word(&mut args, "-");
    push_word(&mut args, "-i");
    push_word(&mut args, audio);
    push_word(&mut args, "-c:v");
    push_word(&mut args, encoder);
    push_word(&mut args, "-pix_fmt");
    push_word(&mut args, "yuv420p");
    push_word(&mut args, "-c:a");
    push_word(&mut args, "aac");
    push_word(&mut args, "-shortest");
    let ghost head = strings_of(args@);
    let quality = encoder_args(encoder);
    let mut k: usize = 0;
    while k < quality.len()
        invariant
            k <= quality.len(),
            strings_of(quality@) == quality_args(encoder@),
            strings_of(args@) == head + strings_of(quality@).take(k as int),
        decreases quality.len() - k,
    {
        let word = quality[k].clone();
        let ghost before = args@;
        args.push(word);
        assert(strings_of(args@) =~= strings_of(before).push(quality@[k as int]@));
        assert(strings_of(quality@).take(k + 1) =~= strings_of(quality@).take(k as int).push(
            quality@[k as int]@,
        ));
        k += 1;
    }
    assert(strings_of(quality@).take(quality.len() as int) =~= strings_of(quality@));
    push_word(&mut args, "-stats_period");
    push_word(&mut args, "0.2");
    push_word(&mut args, "-progress");
    push_word(&mut args, "pipe:2");
    push_word(&mut args, output);
    assert(strings_of(args@) =~= recording_args(width, height, fps, audio@, encoder@, output@));
    args
}


/// Hardware encoders are preferred in the fixed order NVENC, Quick Sync, AMF,
/// VideoToolbox: the one found is the first of these that the listing names,
/// so NVENC is found whenever it is listed, whatever else is.
pub proof fn lemma_hardware_preference(listing: Seq<char>)
    ensures
        occurs_in(listing, "h264_nvenc"@) ==> first_listed(listing) == Some("h264_nvenc"@),
        !occurs_in(listing, "h264_nvenc"@) && occurs_in(listing, "h264_qsv"@) ==> first_listed(listing)
            == Some("h264_qsv"@),
        !occurs_in(listing, "h264_nvenc"@) && !occurs_in(listing, "h264_qsv"@) && occurs_in(
            listing,
            "h264_amf"@,
        ) ==> first_listed(listing) == Some("h264_amf"@),
        !occurs_in(listing, "h264_nvenc"@) && !occurs_in(listing, "h264_qsv"@) && !occurs_in(
            listing,
            "h264_amf"@,
        ) && occurs_in(listing, "h264_videotoolbox"@) ==> first_listed(listing) == Some(
            "h264_videotoolbox"@,
        ),
        !occurs_in(listing, "h264_nvenc"@) && !occurs_in(listing, "h264_qsv"@) && !occurs_in(
            listing,
            "h264_amf"@,
        ) && !occurs_in(listing, "h264_videotoolbox"@) ==> first_listed(listing) is None,
{
    reveal_with_fuel(first_listed_from, 5);
}

/// The encoder chosen: libx264 when hardware encoding is switched off or
/// ffmpeg listed nothing; otherwise the first of NVENC, Quick Sync, AMF and
/// VideoToolbox that the listing names, and libx264 when it names none.
pub proof fn lemma_encoder_choice(hwaccel: Option<bool>, listing: Option<Seq<char>>)
    ensures
        hwaccel == Some(false) ==> chosen_encoder(hwaccel, listing) == "libx264"@,
        listing is None ==> chosen_encoder(hwaccel, listing) == "libx264"@,
        hwaccel != Some(false) && listing is Some ==> chosen_encoder(hwaccel, listing) == (
        if occurs_in(listing->0, "h264_nvenc"@) {
            "h264_nvenc"@
        } else if occurs_in(listing->0, "h264_qsv"@) {
            "h264_qsv"@
        } else if occurs_in(listing->0, "h264_amf"@) {
            "h264_amf"@
        } else if occurs_in(listing->0, "h264_videotoolbox"@) {
            "h264_videotoolbox"@
        } else {
            "libx264"@
        }),
{
    if let Some(l) = listing {
        lemma_hardware_preference(l);
    }
}

} // verus!

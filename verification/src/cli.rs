//! The desktop player's command line.
//!
//! Arguments are read left to right: flags switch the recorder and hardware
//! encoding on or off, `--width`, `--height` and `--fps` take the next argument
//! as a number (an unreadable number leaves the value as it was),
//! `--revelation` / `--revelation-size` take the next argument as a scale, and
//! any other argument that ends in `.wav` or `.json`, in any letter case, names
//! the music or the chart. A later argument overrides an earlier one.
use vstd::prelude::*;
use crate::text::{chars_of, ends_with_ignore_case, ends_with_ignoring_case, parse_u32, same_chars, unsigned_value};

verus! {

/// The options the command line sets.
pub struct CliOptions {
    /// Render a video instead of playing.
    pub recorder: bool,
    /// Width of the rendered video.
    pub width: u32,
    /// Height of the rendered video.
    pub height: u32,
    /// Frame rate of the rendered video.
    pub fps: u32,
    /// `Some(true)` forces hardware encoding, `Some(false)` forbids it, `None` detects it.
    pub hwaccel: Option<bool>,
    /// The music file.
    pub wav: Option<String>,
    /// The chart file.
    pub json: Option<String>,
    /// The texts given for the revelation scale, in order; each is applied in
    /// turn, a valid one replacing the scale.
    pub revelation: Vec<String>,
}

/// The options as seen in contracts.
pub struct CliView {
    pub recorder: bool,
    pub width: u32,
    pub height: u32,
    pub fps: u32,
    pub hwaccel: Option<bool>,
    pub wav: Option<Seq<char>>,
    pub json: Option<Seq<char>>,
    pub revelation: Seq<Seq<char>>,
}

pub open spec fn string_view(s: Option<String>) -> Option<Seq<char>> {
    match s {
        Some(s) => Some(s@),
        None => None,
    }
}

pub open spec fn strings_view(v: Seq<String>) -> Seq<Seq<char>> {
    v.map_values(|s: String| s@)
}

impl CliOptions {
    pub open spec fn view_options(&self) -> CliView {
        CliView {
            recorder: self.recorder,
            width: self.width,
            height: self.height,
            fps: self.fps,
            hwaccel: self.hwaccel,
            wav: string_view(self.wav),
            json: string_view(self.json),
            revelation: strings_view(self.revelation@),
        }
    }
}

/// The options before any argument: play, 1080 by 1920 at 60 frames, detect the encoder.
pub open spec fn default_options() -> CliView {
    CliView {
        recorder: false,
        width: 1080,
        height: 1920,
        fps: 60,
        hwaccel: None,
        wav: None,
        json: None,
        revelation: Seq::empty(),
    }
}

/// The number given at position `j`, or `current` where there is none or it
/// does not read as a `u32`.
pub open spec fn number_or(args: Seq<Seq<char>>, j: int, current: u32) -> u32 {
    if 0 <= j < args.len() {
        match unsigned_value(args[j]) {
            Some(v) => if v <= u32::MAX {
                v as u32
            } else {
                current
            },
            None => current,
        }
    } else {
        current
    }
}

/// The options after reading the arguments from position `i` on, starting from `o`.
pub open spec fn options_from(args: Seq<Seq<char>>, i: int, o: CliView) -> CliView
    decreases args.len() + 1 - i,
{
    if i < 0 || i >= args.len() {
        o
    } else {
        let a = args[i];
        if a == "--recorder"@ {
            options_from(args, i + 1, CliView { recorder: true, ..o })
        } else if a == "--width"@ {
            options_from(args, i + 2, CliView { width: number_or(args, i + 1, o.width), ..o })
        } else if a == "--height"@ {
            options_from(args, i + 2, CliView { height: number_or(args, i + 1, o.height), ..o })
        } else if a == "--fps"@ {
            options_from(args, i + 2, CliView { fps: number_or(args, i + 1, o.fps), ..o })
        } else if a == "--hwaccel"@ {
            options_from(args, i + 1, CliView { hwaccel: Some(true), ..o })
        } else if a == "--no-hwaccel"@ {
            options_from(args, i + 1, CliView { hwaccel: Some(false), ..o })
        } else if a == "--revelation"@ || a == "--revelation-size"@ {
            options_from(
                args,
                i + 2,
                CliView {
                    revelation: if i + 1 < args.len() {
                        o.revelation.push(args[i + 1])
                    } else {
                        o.revelation
                    },
                    ..o
                },
            )
        } else if ends_with_ignoring_case(a, ".wav"@) {
            options_from(args, i + 1, CliView { wav: Some(a), ..o })
        } else if ends_with_ignoring_case(a, ".json"@) {
            options_from(args, i + 1, CliView { json: Some(a), ..o })
        } else {
            options_from(args, i + 1, o)
        }
    }
}

/// The options the arguments set.
pub open spec fn parsed_options(args: Seq<Seq<char>>) -> CliView {
    options_from(args, 0, default_options())
}

fn is_word(a: &Vec<char>, word: &str) -> (b: bool)
    ensures
        b == (a@ == word@),
{
    same_chars(a, &chars_of(word))
}

fn read_number(args: &Vec<String>, j: usize, current: u32) -> (n: u32)
    ensures
        n == number_or(strings_view(args@), j as int, current),
{
    if j < args.len() {
        match parse_u32(&chars_of(args[j].as_str())) {
            Some(v) => v,
            None => current,
        }
    } else {
        current
    }
}

/// The position after a flag at `i` and its value: past the end when the value is missing.
fn skip_value(i: usize, len: usize) -> (j: usize)
    requires
        i < len,
    ensures
        j == if i + 1 < len { i + 2 } else { len as int },
{
    if i + 1 < len {
        i + 2
    } else {
        len
    }
}

/// Reads the command-line arguments (the program name left out).
pub fn parse_cli(args: &Vec<String>) -> (o: CliOptions)
    ensures
        o.view_options() == parsed_options(strings_view(args@)),
{
    let ghost view = strings_view(args@);
    let mut o = CliOptions {
        recorder: false,
        width: 1080,
        height: 1920,
        fps: 60,
        hwaccel: None,
        wav: None,
        json: None,
        revelation: Vec::new(),
    };
    assert(o.view_options() == default_options()) by {
        assert(strings_view(o.revelation@) =~= Seq::<Seq<char>>::empty());
    }
    let mut i: usize = 0;
    while i < args.len()
        invariant
            i <= args.len(),
            view == strings_view(args@),
            parsed_options(view) == options_from(view, i as int, o.view_options()),
        decreases args.len() + 1 - i,
    {
        let a = chars_of(args[i].as_str());
        assert(a@ == view[i as int]);
        let ghost before = o.view_options();
        proof {
            reveal_with_fuel(options_from, 2);
        }
        if is_word(&a, "--recorder") {
            o.recorder = true;
            i += 1;
        } else if is_word(&a, "--width") {
            o.width = read_number(args, i + 1, o.width);
            i = skip_value(i, args.len());
        } else if is_word(&a, "--height") {
            o.height = read_number(args, i + 1, o.height);
            i = skip_value(i, args.len());
        } else if is_word(&a, "--fps") {
            o.fps = read_number(args, i + 1, o.fps);
            i = skip_value(i, args.len());
        } else if is_word(&a, "--hwaccel") {
            o.hwaccel = Some(true);
            i += 1;
        } else if is_word(&a, "--no-hwaccel") {
            o.hwaccel = Some(false);
            i += 1;
        } else if is_word(&a, "--revelation") || is_word(&a, "--revelation-size") {
            if i + 1 < args.len() {
                let v = args[i + 1].clone();
                o.revelation.push(v);
                proof {
                    assert(strings_view(o.revelation@) =~= before.revelation.push(view[i + 1]));
                }
            }
            i = skip_value(i, args.len());
        } else if ends_with_ignore_case(&a, &chars_of(".wav")) {
            o.wav = Some(args[i].clone());
            i += 1;
        } else if ends_with_ignore_case(&a, &chars_of(".json")) {
            o.json = Some(args[i].clone());
            i += 1;
        } else {
            i += 1;
        }
    }
    o
}

/// Whether an argument is an option that takes the next argument as its value.
pub open spec fn takes_value(a: Seq<char>) -> bool {
    a == "--width"@ || a == "--height"@ || a == "--fps"@ || a == "--revelation"@ || a
        == "--revelation-size"@
}

/// Whether reading the arguments from position `k` on reads the argument at
/// position `i` as an option or a name of its own (and not as the value of
/// the option before it).
pub open spec fn visits(args: Seq<Seq<char>>, k: int, i: int) -> bool
    decreases i - k,
{
    if k >= i {
        k == i
    } else if takes_value(args[k]) {
        if k + 2 > i {
            false
        } else {
            visits(args, k + 2, i)
        }
    } else {
        visits(args, k + 1, i)
    }
}

/// The option names are told apart by the reader.
proof fn lemma_option_names_distinct()
    ensures
        "--hwaccel"@ != "--recorder"@,
        "--hwaccel"@ != "--width"@,
        "--hwaccel"@ != "--height"@,
        "--hwaccel"@ != "--fps"@,
        "--no-hwaccel"@ != "--recorder"@,
        "--no-hwaccel"@ != "--width"@,
        "--no-hwaccel"@ != "--height"@,
        "--no-hwaccel"@ != "--fps"@,
        "--no-hwaccel"@ != "--hwaccel"@,
        !takes_value("--recorder"@),
        !takes_value("--hwaccel"@),
        !takes_value("--no-hwaccel"@),
{
    reveal_strlit("--hwaccel");
    reveal_strlit("--no-hwaccel");
    reveal_strlit("--recorder");
    reveal_strlit("--width");
    reveal_strlit("--height");
    reveal_strlit("--fps");
    reveal_strlit("--revelation");
    reveal_strlit("--revelation-size");
    assert("--hwaccel"@.len() == 9);
    assert("--no-hwaccel"@.len() == 12);
    assert("--recorder"@.len() == 10);
    assert("--width"@.len() == 7);
    assert("--height"@.len() == 8);
    assert("--fps"@.len() == 5);
    assert("--revelation"@.len() == 12);
    assert("--revelation-size"@.len() == 17);
    assert("--no-hwaccel"@[2] != "--revelation"@[2]);
}

/// The position of the next argument read after the one at `j`.
spec fn next_position(args: Seq<Seq<char>>, j: int) -> int {
    if takes_value(args[j]) {
        j + 2
    } else {
        j + 1
    }
}

/// The options after reading the single argument at `j` (with its value).
spec fn step_options(args: Seq<Seq<char>>, j: int, o: CliView) -> CliView {
    let a = args[j];
    if a == "--recorder"@ {
        CliView { recorder: true, ..o }
    } else if a == "--width"@ {
        CliView { width: number_or(args, j + 1, o.width), ..o }
    } else if a == "--height"@ {
        CliView { height: number_or(args, j + 1, o.height), ..o }
    } else if a == "--fps"@ {
        CliView { fps: number_or(args, j + 1, o.fps), ..o }
    } else if a == "--hwaccel"@ {
        CliView { hwaccel: Some(true), ..o }
    } else if a == "--no-hwaccel"@ {
        CliView { hwaccel: Some(false), ..o }
    } else if a == "--revelation"@ || a == "--revelation-size"@ {
        CliView {
            revelation: if j + 1 < args.len() {
                o.revelation.push(args[j + 1])
            } else {
                o.revelation
            },
            ..o
        }
    } else if ends_with_ignoring_case(a, ".wav"@) {
        CliView { wav: Some(a), ..o }
    } else if ends_with_ignoring_case(a, ".json"@) {
        CliView { json: Some(a), ..o }
    } else {
        o
    }
}

/// Reading from `j` reads the argument at `j` and goes on from the next one.
proof fn lemma_one_step(args: Seq<Seq<char>>, j: int, o: CliView)
    requires
        0 <= j < args.len(),
    ensures
        options_from(args, j, o) == options_from(
            args,
            next_position(args, j),
            step_options(args, j, o),
        ),
{
    lemma_option_names_distinct();
}

/// Once the hardware-encoding choice is `v`, reading on keeps it `v` as long
/// as no later flag says otherwise.
proof fn lemma_hwaccel_stays(args: Seq<Seq<char>>, j: int, v: Option<bool>)
    requires
        0 <= j,
        forall|m: int|
            j <= m < args.len() ==> (#[trigger] args[m] == "--hwaccel"@ ==> v == Some(true)) && (
            args[m] == "--no-hwaccel"@ ==> v == Some(false)),
    ensures
        forall|o: CliView| o.hwaccel == v ==> (#[trigger] options_from(args, j, o)).hwaccel == v,
    decreases args.len() + 1 - j,
{
    if j < args.len() {
        lemma_hwaccel_stays(args, next_position(args, j), v);
        assert forall|o: CliView| o.hwaccel == v implies (#[trigger] options_from(
            args,
            j,
            o,
        )).hwaccel == v by {
            lemma_one_step(args, j, o);
            assert(args[j] == "--hwaccel"@ ==> v == Some(true));
            assert(args[j] == "--no-hwaccel"@ ==> v == Some(false));
        }
    }
}

/// Reading on from a `--hwaccel` flag forces hardware encoding on unless a
/// later `--no-hwaccel` switches it off.
pub proof fn lemma_hwaccel_flag_wins(args: Seq<Seq<char>>, i: int, o: CliView)
    requires
        0 <= i < args.len(),
        args[i] == "--hwaccel"@,
        forall|m: int| i < m < args.len() ==> args[m] != "--no-hwaccel"@,
    ensures
        options_from(args, i, o).hwaccel == Some(true),
{
    lemma_option_names_distinct();
    lemma_hwaccel_stays(args, i + 1, Some(true));
    assert(options_from(args, i, o) == options_from(
        args,
        i + 1,
        CliView { hwaccel: Some(true), ..o },
    ));
}

/// Reading on from a `--no-hwaccel` flag switches hardware encoding off unless
/// a later `--hwaccel` forces it on.
pub proof fn lemma_no_hwaccel_flag_wins(args: Seq<Seq<char>>, i: int, o: CliView)
    requires
        0 <= i < args.len(),
        args[i] == "--no-hwaccel"@,
        forall|m: int| i < m < args.len() ==> args[m] != "--hwaccel"@,
    ensures
        options_from(args, i, o).hwaccel == Some(false),
{
    lemma_option_names_distinct();
    lemma_hwaccel_stays(args, i + 1, Some(false));
    assert(options_from(args, i, o) == options_from(
        args,
        i + 1,
        CliView { hwaccel: Some(false), ..o },
    ));
}

/// Without a `--hwaccel` or `--no-hwaccel` argument the encoder is detected.
pub proof fn lemma_no_hwaccel_flags(args: Seq<Seq<char>>)
    requires
        forall|m: int| 0 <= m < args.len() ==> args[m] != "--hwaccel"@ && args[m] != "--no-hwaccel"@,
    ensures
        parsed_options(args).hwaccel == None::<bool>,
{
    lemma_hwaccel_stays(args, 0, None);
}

/// What holds of every reading from a visited position holds of the reading
/// from the start.
proof fn lemma_visited_hwaccel(args: Seq<Seq<char>>, k: int, i: int, v: Option<bool>)
    requires
        0 <= k,
        i < args.len(),
        visits(args, k, i),
        forall|o: CliView| (#[trigger] options_from(args, i, o)).hwaccel == v,
    ensures
        forall|o: CliView| (#[trigger] options_from(args, k, o)).hwaccel == v,
    decreases i - k,
{
    if k < i {
        lemma_visited_hwaccel(args, next_position(args, k), i, v);
        assert forall|o: CliView| (#[trigger] options_from(args, k, o)).hwaccel == v by {
            lemma_one_step(args, k, o);
        }
    }
}

/// An argument right after one that takes no value is read on its own.
pub proof fn lemma_visits_after_plain_argument(args: Seq<Seq<char>>, k: int, i: int)
    requires
        0 <= k <= i < args.len(),
        i == k || !takes_value(args[i - 1]),
    ensures
        visits(args, k, i),
    decreases i - k,
{
    if k < i {
        if takes_value(args[k]) {
            lemma_visits_after_plain_argument(args, k + 2, i);
        } else {
            lemma_visits_after_plain_argument(args, k + 1, i);
        }
    }
}

/// The last hardware-encoding flag read decides: a `--hwaccel` with no later
/// `--no-hwaccel` forces hardware encoding on, a `--no-hwaccel` with no later
/// `--hwaccel` switches it off.
pub proof fn lemma_last_hwaccel_flag_decides(args: Seq<Seq<char>>, i: int)
    requires
        0 <= i < args.len(),
        visits(args, 0, i),
    ensures
        args[i] == "--hwaccel"@ && (forall|m: int| i < m < args.len() ==> args[m] != "--no-hwaccel"@)
            ==> parsed_options(args).hwaccel == Some(true),
        args[i] == "--no-hwaccel"@ && (forall|m: int| i < m < args.len() ==> args[m] != "--hwaccel"@)
            ==> parsed_options(args).hwaccel == Some(false),
{
    if args[i] == "--hwaccel"@ && (forall|m: int| i < m < args.len() ==> args[m] != "--no-hwaccel"@) {
        assert forall|o: CliView| (#[trigger] options_from(args, i, o)).hwaccel == Some(true) by {
            lemma_hwaccel_flag_wins(args, i, o);
        }
        lemma_visited_hwaccel(args, 0, i, Some(true));
    }
    if args[i] == "--no-hwaccel"@ && (forall|m: int| i < m < args.len() ==> args[m] != "--hwaccel"@) {
        assert forall|o: CliView| (#[trigger] options_from(args, i, o)).hwaccel == Some(false) by {
            lemma_no_hwaccel_flag_wins(args, i, o);
        }
        lemma_visited_hwaccel(args, 0, i, Some(false));
    }
}

/// With no arguments the player plays, at 1080 by 1920 and 60 frames a
/// second, detecting the encoder, with no music, chart or revelation scale.
pub proof fn lemma_no_arguments()
    ensures
        parsed_options(Seq::empty()) == (CliView {
            recorder: false,
            width: 1080,
            height: 1920,
            fps: 60,
            hwaccel: None,
            wav: None,
            json: None,
            revelation: Seq::empty(),
        }),
{
}

/// Once the recorder is switched on, reading on keeps it on.
proof fn lemma_recorder_stays(args: Seq<Seq<char>>, j: int)
    requires
        0 <= j,
    ensures
        forall|o: CliView| o.recorder ==> (#[trigger] options_from(args, j, o)).recorder,
    decreases args.len() + 1 - j,
{
    if j < args.len() {
        lemma_recorder_stays(args, next_position(args, j));
        assert forall|o: CliView| o.recorder implies (#[trigger] options_from(args, j, o)).recorder by {
            lemma_one_step(args, j, o);
        }
    }
}

/// A `--recorder` flag that is read switches the recorder on for good.
pub proof fn lemma_recorder_flag(args: Seq<Seq<char>>, i: int)
    requires
        0 <= i < args.len(),
        visits(args, 0, i),
        args[i] == "--recorder"@,
    ensures
        parsed_options(args).recorder,
{
    lemma_recorder_stays(args, i + 1);
    assert forall|o: CliView| (#[trigger] options_from(args, i, o)).recorder by {
        lemma_one_step(args, i, o);
        lemma_option_names_distinct();
    }
    lemma_visited_recorder(args, 0, i);
}

proof fn lemma_visited_recorder(args: Seq<Seq<char>>, k: int, i: int)
    requires
        0 <= k,
        i < args.len(),
        visits(args, k, i),
        forall|o: CliView| (#[trigger] options_from(args, i, o)).recorder,
    ensures
        forall|o: CliView| (#[trigger] options_from(args, k, o)).recorder,
    decreases i - k,
{
    if k < i {
        lemma_visited_recorder(args, next_position(args, k), i);
        assert forall|o: CliView| (#[trigger] options_from(args, k, o)).recorder by {
            lemma_one_step(args, k, o);
        }
    }
}

} // verus!

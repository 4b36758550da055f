//! Export helpers: encoder choice, text escaping for PDF and PowerPoint files, and the
//! labels of filter-graph pads.
use vstd::prelude::*;
use crate::timeline::{Timeline, tracks_fit, longest_track};
use crate::text::{chars_of, nat_digits, push_char, push_nat, push_str, string_views, same_text};
use crate::clip::Clip;
use crate::track::Track;

verus! {

/// Video encoder used for export.
#[derive(Clone, Copy, Debug, PartialEq, Eq, Structural)]
pub enum EncoderType {
    Libx264,
    VaapiH264,
    QsvH264,
    NvencH264,
}

/// How one character is written inside a PDF string literal.
pub open spec fn pdf_escape_char(c: char) -> Seq<char> {
    if c == '\\' { seq!['\\', '\\'] } else if c == '(' { seq!['\\', '('] } else if c == ')' { seq!['\\', ')'] } else { seq![c] }
}

/// How one character is written in XML text.
pub open spec fn xml_escape_char(c: char) -> Seq<char> {
    if c == '&' { "&amp;"@ } else if c == '<' { "&lt;"@ } else if c == '>' { "&gt;"@ } else if c == '"' { "&quot;"@ } else if c == '\'' { "&apos;"@ } else { seq![c] }
}

/// `s` with every backslash and parenthesis escaped by a backslash.
pub open spec fn pdf_escaped(s: Seq<char>) -> Seq<char>
    decreases s.len(),
{
    if s.len() == 0 { seq![] } else { pdf_escaped(s.drop_last()) + pdf_escape_char(s.last()) }
}

/// `s` with `& < > " '` written as XML entities.
pub open spec fn xml_escaped(s: Seq<char>) -> Seq<char>
    decreases s.len(),
{
    if s.len() == 0 { seq![] } else { xml_escaped(s.drop_last()) + xml_escape_char(s.last()) }
}

/// Escapes backslashes and parentheses for a PDF string literal.
pub fn escape_pdf_str(s: &str) -> (r: String)
    ensures
        r@ == pdf_escaped(s@),
{
    let cs = chars_of(s);
    let mut r = String::new();
    let mut i: usize = 0;
    while i < cs.len()
        invariant
            i <= cs@.len(),
            cs@ == s@,
            r@ == pdf_escaped(s@.take(i as int)),
        decreases cs.len() - i,
    {
        let c = cs[i];
        if c == '\\' {
            push_char(&mut r, '\\');
            push_char(&mut r, '\\');
        } else if c == '(' {
            push_char(&mut r, '\\');
            push_char(&mut r, '(');
        } else if c == ')' {
            push_char(&mut r, '\\');
            push_char(&mut r, ')');
        } else {
            push_char(&mut r, c);
        }
        assert(s@.take(i + 1).drop_last() =~= s@.take(i as int));
        assert(r@ =~= pdf_escaped(s@.take(i + 1)));
        i = i + 1;
    }
    assert(s@.take(cs@.len() as int) =~= s@);
    r
}

/// Escapes `& < > " '` as XML entities.
pub fn html_escape(s: &str) -> (r: String)
    ensures
        r@ == xml_escaped(s@),
{
    let cs = chars_of(s);
    let mut r = String::new();
    let mut i: usize = 0;
    while i < cs.len()
        invariant
            i <= cs@.len(),
            cs@ == s@,
            r@ == xml_escaped(s@.take(i as int)),
        decreases cs.len() - i,
    {
        let c = cs[i];
        if c == '&' {
            push_str(&mut r, "&amp;");
        } else if c == '<' {
            push_str(&mut r, "&lt;");
        } else if c == '>' {
            push_str(&mut r, "&gt;");
        } else if c == '"' {
            push_str(&mut r, "&quot;");
        } else if c == '\'' {
            push_str(&mut r, "&apos;");
        } else {
            push_char(&mut r, c);
        }
        assert(s@.take(i + 1).drop_last() =~= s@.take(i as int));
        assert(r@ =~= xml_escaped(s@.take(i + 1)));
        i = i + 1;
    }
    assert(s@.take(cs@.len() as int) =~= s@);
    r
}

/// Label of the `n`-th overlay pad of a filter graph: "ol" followed by `n + 5000`.
pub open spec fn overlay_label_text(n: nat) -> Seq<char> {
    seq!['o', 'l'] + nat_digits(n + 5000)
}

/// Label of the overlay pad with the given sequence number.
pub fn overlay_label(n: u64) -> (r: String)
    requires
        n + 5000 <= u64::MAX,
    ensures
        r@ == overlay_label_text(n as nat),
{
    let mut r = String::new();
    push_char(&mut r, 'o');
    push_char(&mut r, 'l');
    push_nat(&mut r, n + 5000);
    assert(r@ =~= overlay_label_text(n as nat));
    r
}

/// `kbps` followed by `k`, as ffmpeg takes a bitrate.
pub open spec fn kbps_text(kbps: u32) -> Seq<char> {
    nat_digits(kbps as nat) + seq!['k']
}

/// The ffmpeg arguments that choose and tune the video encoder.
pub open spec fn encoder_args_text(encoder: EncoderType, video_kbps: u32) -> Seq<Seq<char>> {
    match encoder {
        EncoderType::Libx264 => seq![
            "-c:v"@,
            "libx264"@,
            "-preset"@,
            "fast"@,
            "-crf"@,
            "20"@,
            "-pix_fmt"@,
            "yuv420p"@,
        ],
        EncoderType::VaapiH264 => seq!["-c:v"@, "h264_vaapi"@, "-b:v"@, kbps_text(video_kbps)],
        EncoderType::QsvH264 => seq!["-c:v"@, "h264_qsv"@, "-b:v"@, kbps_text(video_kbps)],
        EncoderType::NvencH264 => seq![
            "-c:v"@,
            "h264_nvenc"@,
            "-b:v"@,
            kbps_text(video_kbps),
            "-pix_fmt"@,
            "yuv420p"@,
        ],
    }
}

/// The ffmpeg arguments for the audio encoder.
pub open spec fn audio_args_text(audio_kbps: u32) -> Seq<Seq<char>> {
    seq!["-c:a"@, "aac"@, "-b:a"@, kbps_text(audio_kbps), "-ar"@, "48000"@]
}

/// A bitrate argument.
fn kbps_arg(kbps: u32) -> (r: String)
    ensures
        r@ == kbps_text(kbps),
{
    let mut r = String::new();
    push_nat(&mut r, kbps as u64);
    push_char(&mut r, 'k');
    r
}

/// Appends a string to a list of arguments.
fn push_arg(args: &mut Vec<String>, a: &str)
    ensures
        string_views(final(args)@) == string_views(old(args)@).push(a@),
{
    args.push(a.to_owned());
    assert(string_views(final(args)@) =~= string_views(old(args)@).push(a@));
}

/// Appends an owned string to a list of arguments.
fn push_owned(args: &mut Vec<String>, a: String)
    ensures
        string_views(final(args)@) == string_views(old(args)@).push(a@),
{
    let ghost v = a@;
    args.push(a);
    assert(string_views(final(args)@) =~= string_views(old(args)@).push(v));
}

/// The ffmpeg arguments that choose and tune the video encoder (hardware encoders run
/// at the given bitrate, software encoding at a fixed quality).
pub fn encoder_args(encoder: EncoderType, video_kbps: u32) -> (r: Vec<String>)
    ensures
        string_views(r@) == encoder_args_text(encoder, video_kbps),
{
    let mut a: Vec<String> = Vec::new();
    match encoder {
        EncoderType::Libx264 => {
            push_arg(&mut a, "-c:v");
            push_arg(&mut a, "libx264");
            push_arg(&mut a, "-preset");
            push_arg(&mut a, "fast");
            push_arg(&mut a, "-crf");
            push_arg(&mut a, "20");
            push_arg(&mut a, "-pix_fmt");
            push_arg(&mut a, "yuv420p");
        },
        EncoderType::VaapiH264 => {
            push_arg(&mut a, "-c:v");
            push_arg(&mut a, "h264_vaapi");
            push_arg(&mut a, "-b:v");
            push_owned(&mut a, kbps_arg(video_kbps));
        },
        EncoderType::QsvH264 => {
            push_arg(&mut a, "-c:v");
            push_arg(&mut a, "h264_qsv");
            push_arg(&mut a, "-b:v");
            push_owned(&mut a, kbps_arg(video_kbps));
        },
        EncoderType::NvencH264 => {
            push_arg(&mut a, "-c:v");
            push_arg(&mut a, "h264_nvenc");
            push_arg(&mut a, "-b:v");
            push_owned(&mut a, kbps_arg(video_kbps));
            push_arg(&mut a, "-pix_fmt");
            push_arg(&mut a, "yuv420p");
        },
    }
    assert(string_views(a@) =~= encoder_args_text(encoder, video_kbps));
    a
}

/// The ffmpeg arguments for AAC audio at the given bitrate and 48 kHz.
pub fn audio_args(audio_kbps: u32) -> (r: Vec<String>)
    ensures
        string_views(r@) == audio_args_text(audio_kbps),
{
    let mut a: Vec<String> = Vec::new();
    push_arg(&mut a, "-c:a");
    push_arg(&mut a, "aac");
    push_arg(&mut a, "-b:a");
    push_owned(&mut a, kbps_arg(audio_kbps));
    push_arg(&mut a, "-ar");
    push_arg(&mut a, "48000");
    assert(string_views(a@) =~= audio_args_text(audio_kbps));
    a
}

/// How one character of a caption line is written in an ffmpeg `drawtext` text value.
pub open spec fn drawtext_escape_char(c: char) -> Seq<char> {
    if c == '\\' {
        seq!['\\', '\\']
    } else if c == '\'' {
        seq!['\'', '\\', '\\', '\'', '\'']
    } else if c == ':' {
        seq!['\\', ':']
    } else if c == '%' {
        seq!['\\', '%']
    } else {
        seq![c]
    }
}

/// A caption line escaped for an ffmpeg `drawtext` text value: backslashes doubled,
/// quotes closed, escaped and reopened, colons and percent signs escaped.
pub open spec fn drawtext_escaped(s: Seq<char>) -> Seq<char>
    decreases s.len(),
{
    if s.len() == 0 {
        seq![]
    } else {
        drawtext_escaped(s.drop_last()) + drawtext_escape_char(s.last())
    }
}

/// Escapes a caption line for an ffmpeg `drawtext` text value.
pub fn escape_drawtext(line: &str) -> (r: String)
    ensures
        r@ == drawtext_escaped(line@),
{
    let cs = chars_of(line);
    let mut r = String::new();
    let mut i: usize = 0;
    while i < cs.len()
        invariant
            i <= cs@.len(),
            cs@ == line@,
            r@ == drawtext_escaped(line@.take(i as int)),
        decreases cs.len() - i,
    {
        let c = cs[i];
        if c == '\\' {
            push_char(&mut r, '\\');
            push_char(&mut r, '\\');
        } else if c == '\'' {
            push_char(&mut r, '\'');
            push_char(&mut r, '\\');
            push_char(&mut r, '\\');
            push_char(&mut r, '\'');
            push_char(&mut r, '\'');
        } else if c == ':' {
            push_char(&mut r, '\\');
            push_char(&mut r, ':');
        } else if c == '%' {
            push_char(&mut r, '\\');
            push_char(&mut r, '%');
        } else {
            push_char(&mut r, c);
        }
        assert(line@.take(i + 1).drop_last() =~= line@.take(i as int));
        assert(r@ =~= drawtext_escaped(line@.take(i + 1)));
        i = i + 1;
    }
    assert(line@.take(cs@.len() as int) =~= line@);
    r
}

/// The font name `drawtext` is given: the family's name with " Bold", " Italic" or
/// " Bold Italic" after it.
pub open spec fn styled_font_text(base: Seq<char>, bold: bool, italic: bool) -> Seq<char> {
    if bold && italic {
        base + " Bold Italic"@
    } else if bold {
        base + " Bold"@
    } else if italic {
        base + " Italic"@
    } else {
        base
    }
}

/// The font name for a family and style.
pub fn styled_font_name(base: &str, bold: bool, italic: bool) -> (r: String)
    ensures
        r@ == styled_font_text(base@, bold, italic),
{
    let mut r = String::new();
    push_str(&mut r, base);
    if bold && italic {
        push_str(&mut r, " Bold Italic");
    } else if bold {
        push_str(&mut r, " Bold");
    } else if italic {
        push_str(&mut r, " Italic");
    }
    r
}

/// Vertical offset of caption line `i` of `n` from the centre line: whole line heights
/// (font size plus 10 pixels) above or below line `n / 2`.
pub open spec fn caption_line_offset(i: int, n: int, font_size: int) -> int {
    (i - n / 2) * (font_size + 10)
}

/// The vertical offset of caption line `i` of `n`.
pub fn line_offset(i: u32, n: u32, font_size: u32) -> (r: i64)
    requires
        font_size <= 0x7fff_0000,
    ensures
        r == caption_line_offset(i as int, n as int, font_size as int),
{
    let d: i64 = i as i64 - (n / 2) as i64;
    let h: i64 = font_size as i64 + 10;
    assert(-0x8000_0000 <= d <= 0xffff_ffff);
    assert(d * h <= 0xffff_ffff * 0x7fff_000a && d * h >= -0x8000_0000 * 0x7fff_000a)
        by (nonlinear_arith)
        requires
            -0x8000_0000 <= d <= 0xffff_ffff,
            0 <= h <= 0x7fff_000a,
    ;
    d * h
}

/// The pads `[l1][l2]...` for the labels.
pub open spec fn pads_text(labels: Seq<Seq<char>>) -> Seq<char>
    decreases labels.len(),
{
    if labels.len() == 0 {
        seq![]
    } else {
        pads_text(labels.drop_last()) + seq!['['] + labels.last() + seq![']']
    }
}

/// The `amix` filter over the audio pads `labels`.
pub fn audio_mix_filter(labels: &Vec<String>) -> (r: String)
    ensures
        r@ == pads_text(string_views(labels@)) + "amix=inputs="@ + nat_digits(labels@.len())
            + ":duration=longest:dropout_transition=0,volume="@ + nat_digits(labels@.len())
            + "[a_final]"@,
{
    let mut r = String::new();
    let ghost v = string_views(labels@);
    let mut i: usize = 0;
    assert(v.take(0) =~= Seq::<Seq<char>>::empty());
    while i < labels.len()
        invariant
            i <= labels.len(),
            v == string_views(labels@),
            r@ == pads_text(v.take(i as int)),
        decreases labels.len() - i,
    {
        push_char(&mut r, '[');
        push_str(&mut r, labels[i].as_str());
        push_char(&mut r, ']');
        proof {
            assert(v.take(i as int + 1).drop_last() =~= v.take(i as int));
            assert(v.take(i as int + 1).last() == labels@[i as int]@);
        }
        assert(r@ =~= pads_text(v.take(i as int + 1)));
        i = i + 1;
    }
    assert(v.take(labels.len() as int) =~= v);
    push_str(&mut r, "amix=inputs=");
    push_nat(&mut r, labels.len() as u64);
    push_str(&mut r, ":duration=longest:dropout_transition=0,volume=");
    push_nat(&mut r, labels.len() as u64);
    push_str(&mut r, "[a_final]");
    r
}

/// Why a timeline cannot be exported.
#[derive(Clone, Copy, Debug, PartialEq, Eq, Structural)]
pub enum ExportProblem {
    /// Some clip's trim or end does not fit in an `i64` of microseconds.
    OutOfRange,
    /// The timeline lasts no time at all.
    EmptyTimeline,
    /// No track holds a clip.
    NoClips,
}

/// The first problem, in this order, that keeps the tracks `s` from being exported.
pub open spec fn export_problem_of<X>(s: Seq<crate::track::Track<X>>) -> Option<ExportProblem> {
    if !tracks_fit(s) {
        Some(ExportProblem::OutOfRange)
    } else if longest_track(s) == 0 {
        Some(ExportProblem::EmptyTimeline)
    } else if forall|k: int| 0 <= k < s.len() ==> (#[trigger] s[k]).clips@.len() == 0 {
        Some(ExportProblem::NoClips)
    } else {
        None
    }
}

impl<X> Timeline<X> {
    /// What keeps the timeline from being exported, if anything: clips out of range,
    /// then a timeline that lasts no time, then one with no clips.
    pub fn export_problem(&self) -> (r: Option<ExportProblem>)
        ensures
            r == export_problem_of(self.tracks@),
    {
        if !self.clips_in_range() {
            return Some(ExportProblem::OutOfRange);
        }
        if self.duration().micros == 0 {
            return Some(ExportProblem::EmptyTimeline);
        }
        let mut k: usize = 0;
        while k < self.tracks.len()
            invariant
                k <= self.tracks.len(),
                tracks_fit(self.tracks@),
                longest_track(self.tracks@) != 0,
                forall|a: int| 0 <= a < k ==> (#[trigger] self.tracks@[a]).clips@.len() == 0,
            decreases self.tracks.len() - k,
        {
            if self.tracks[k].clips.len() > 0 {
                assert(self.tracks@[k as int].clips@.len() != 0);
                return None;
            }
            k = k + 1;
        }
        Some(ExportProblem::NoClips)
    }
}

// ---------------------------------------------------------------------------
// The export command
// ---------------------------------------------------------------------------

/// The distinct entries of `s`, each once, in the order of their first use.
pub open spec fn first_uses(s: Seq<Seq<char>>) -> Seq<Seq<char>>
    decreases s.len(),
{
    if s.len() == 0 {
        seq![]
    } else {
        let p = first_uses(s.drop_last());
        if p.contains(s.last()) { p } else { p.push(s.last()) }
    }
}

/// Position of `path` in `sources`, the first one that holds it.
pub fn source_index(sources: &Vec<String>, path: &str) -> (r: Option<usize>)
    ensures
        match r {
            Some(i) => i < sources@.len() && sources@[i as int]@ == path@ && forall|j: int|
                0 <= j < i ==> (#[trigger] sources@[j])@ != path@,
            None => forall|j: int| 0 <= j < sources@.len() ==> (#[trigger] sources@[j])@ != path@,
        },
{
    let mut i: usize = 0;
    while i < sources.len()
        invariant
            i <= sources.len(),
            forall|j: int| 0 <= j < i ==> (#[trigger] sources@[j])@ != path@,
        decreases sources.len() - i,
    {
        if same_text(sources[i].as_str(), path) {
            return Some(i);
        }
        i = i + 1;
    }
    None
}

/// The inputs of an export: the given paths, each distinct one once, in the order of
/// their first use.
pub fn export_sources(paths: &Vec<String>) -> (r: Vec<String>)
    ensures
        string_views(r@) == first_uses(string_views(paths@)),
{
    let mut r: Vec<String> = Vec::new();
    let mut i: usize = 0;
    while i < paths.len()
        invariant
            i <= paths.len(),
            string_views(r@) == first_uses(string_views(paths@).take(i as int)),
        decreases paths.len() - i,
    {
        let ghost before = string_views(paths@).take(i as int);
        proof {
            assert(string_views(paths@).take(i as int + 1).drop_last() =~= before);
            assert(string_views(paths@).take(i as int + 1).last() == paths@[i as int]@);
        }
        match source_index(&r, paths[i].as_str()) {
            Some(k) => {
                assert(string_views(r@)[k as int] == paths@[i as int]@);
                assert(string_views(r@).contains(paths@[i as int]@));
            },
            None => {
                assert(!string_views(r@).contains(paths@[i as int]@)) by {
                    if string_views(r@).contains(paths@[i as int]@) {
                        let k = choose|k: int| 0 <= k < string_views(r@).len() && string_views(r@)[k] == paths@[i as int]@;
                        assert(r@[k]@ == paths@[i as int]@);
                    }
                }
                let mut copy = String::new();
                push_str(&mut copy, paths[i].as_str());
                r.push(copy);
                assert(string_views(r@) =~= first_uses(before).push(paths@[i as int]@));
            },
        }
        i = i + 1;
    }
    assert(string_views(paths@).take(paths.len() as int) =~= string_views(paths@));
    r
}

/// The latest source out-point among the clips whose mark in `marks` is set (a clip
/// past the end of `marks` counts as unmarked), or `base` when none is later.
pub open spec fn marked_clips_max<X>(clips: Seq<Clip<X>>, marks: Seq<bool>, base: int) -> int
    decreases clips.len(),
{
    if clips.len() == 0 {
        base
    } else {
        let i = clips.len() - 1;
        let m = marked_clips_max(clips.drop_last(), marks, base);
        if i < marks.len() && marks[i] && clips.last().source_out.micros > m {
            clips.last().source_out.micros as int
        } else {
            m
        }
    }
}

/// `marked_clips_max` over all tracks: `marks[t]` marks the clips of track `t` (a track
/// past the end of `marks` has none marked).
pub open spec fn marked_tracks_max<X>(tracks: Seq<Track<X>>, marks: Seq<Vec<bool>>, base: int) -> int
    decreases tracks.len(),
{
    if tracks.len() == 0 {
        base
    } else {
        let t = tracks.len() - 1;
        let m = marked_tracks_max(tracks.drop_last(), marks, base);
        marked_clips_max(tracks.last().clips@, if t < marks.len() { marks[t]@ } else { Seq::empty() }, m)
    }
}

/// Shortest time a looped still picture runs, in microseconds (0.04 s).
pub const MIN_STILL_MICROS: i64 = 40_000;

/// How long a looped still input must run, in microseconds: as long as the timeline, up
/// to the latest source out-point of the clips that read it (marked in `reads`, per track
/// and per clip), and never less than `MIN_STILL_MICROS`.
pub fn still_input_micros<X>(tl: &Timeline<X>, reads: &Vec<Vec<bool>>) -> (m: i64)
    requires
        tracks_fit(tl.tracks@),
    ensures
        m == marked_tracks_max(tl.tracks@, reads@, if longest_track(tl.tracks@) > MIN_STILL_MICROS {
            longest_track(tl.tracks@)
        } else {
            MIN_STILL_MICROS as int
        }),
{
    let d = tl.duration();
    let mut m: i64 = if d.micros > MIN_STILL_MICROS { d.micros } else { MIN_STILL_MICROS };
    let ghost base = m as int;
    let no_marks: Vec<bool> = Vec::new();
    let mut t: usize = 0;
    while t < tl.tracks.len()
        invariant
            t <= tl.tracks.len(),
            no_marks@.len() == 0,
            m == marked_tracks_max(tl.tracks@.take(t as int), reads@, base),
        decreases tl.tracks.len() - t,
    {
        let clips = &tl.tracks[t].clips;
        let marks: &Vec<bool> = if t < reads.len() { &reads[t] } else { &no_marks };
        let ghost mt = m as int;
        proof {
            assert(marks@ == if (t as int) < reads@.len() { reads@[t as int]@ } else { Seq::<bool>::empty() });
        }
        let mut c: usize = 0;
        while c < clips.len()
            invariant
                c <= clips.len(),
                m == marked_clips_max(clips@.take(c as int), marks@, mt),
            decreases clips.len() - c,
        {
            proof {
                assert(clips@.take(c as int + 1).drop_last() =~= clips@.take(c as int));
            }
            if c < marks.len() && marks[c] && clips[c].source_out.micros > m {
                m = clips[c].source_out.micros;
            }
            c = c + 1;
        }
        proof {
            assert(clips@.take(clips@.len() as int) =~= clips@);
            assert(tl.tracks@.take(t as int + 1).drop_last() =~= tl.tracks@.take(t as int));
        }
        t = t + 1;
    }
    assert(tl.tracks@.take(tl.tracks@.len() as int) =~= tl.tracks@);
    m
}

/// The input arguments: for each input, `-loop 1 -t <secs>` when it is a looped still
/// with that running time, then `-i <path>`.
pub open spec fn input_args_text(inputs: Seq<Seq<char>>, loops: Seq<Option<Seq<char>>>) -> Seq<Seq<char>>
    decreases inputs.len(),
{
    if inputs.len() == 0 {
        seq![]
    } else {
        let n = (inputs.len() - 1) as int;
        let looped = match loops[n] {
            Some(secs) => seq!["-loop"@, "1"@, "-t"@, secs],
            None => seq![],
        };
        input_args_text(inputs.drop_last(), loops.take(n)) + looped + seq!["-i"@, inputs.last()]
    }
}

/// The whole ffmpeg argument list of an export: overwrite, the inputs, the filter graph
/// and its two output pads, the encoder and audio arguments, progress reporting, and
/// the output file last.
pub open spec fn export_args_text(
    inputs: Seq<Seq<char>>,
    loops: Seq<Option<Seq<char>>>,
    graph: Seq<char>,
    video: Seq<char>,
    audio: Seq<char>,
    encoder: EncoderType,
    video_kbps: u32,
    audio_kbps: u32,
    output: Seq<char>,
) -> Seq<Seq<char>> {
    seq!["-y"@] + input_args_text(inputs, loops) + seq![
        "-filter_complex"@,
        graph,
        "-map"@,
        seq!['['] + video + seq![']'],
        "-map"@,
        seq!['['] + audio + seq![']'],
    ] + encoder_args_text(encoder, video_kbps) + audio_args_text(audio_kbps) + seq![
        "-y"@,
        "-progress"@,
        "pipe:1"@,
        output,
    ]
}

/// Views of optional strings.
pub open spec fn option_views(v: Seq<Option<String>>) -> Seq<Option<Seq<char>>> {
    v.map_values(|o: Option<String>| match o {
        Some(s) => Some(s@),
        None => None,
    })
}

/// `[<label>]`, an output pad.
fn pad_arg(label: &str) -> (r: String)
    ensures
        r@ == seq!['['] + label@ + seq![']'],
{
    let mut r = String::new();
    push_char(&mut r, '[');
    push_str(&mut r, label);
    push_char(&mut r, ']');
    r
}

/// The ffmpeg argument list of an export (see `export_args_text`).
pub fn export_args(
    inputs: &Vec<String>,
    loop_secs: &Vec<Option<String>>,
    graph: &str,
    video: &str,
    audio: &str,
    encoder: EncoderType,
    video_kbps: u32,
    audio_kbps: u32,
    output: &str,
) -> (r: Vec<String>)
    requires
        inputs.len() == loop_secs.len(),
    ensures
        string_views(r@) == export_args_text(
            string_views(inputs@),
            option_views(loop_secs@),
            graph@,
            video@,
            audio@,
            encoder,
            video_kbps,
            audio_kbps,
            output@,
        ),
{
    let ghost ins = string_views(inputs@);
    let ghost lps = option_views(loop_secs@);
    let mut a: Vec<String> = Vec::new();
    push_arg(&mut a, "-y");
    let mut i: usize = 0;
    while i < inputs.len()
        invariant
            i <= inputs.len(),
            inputs.len() == loop_secs.len(),
            ins == string_views(inputs@),
            lps == option_views(loop_secs@),
            string_views(a@) == seq!["-y"@] + input_args_text(ins.take(i as int), lps.take(i as int)),
        decreases inputs.len() - i,
    {
        proof {
            assert(ins.take(i as int + 1).drop_last() =~= ins.take(i as int));
            assert(lps.take(i as int + 1).take(i as int) =~= lps.take(i as int));
            assert(ins.take(i as int + 1).last() == inputs@[i as int]@);
            assert(lps.take(i as int + 1)[i as int] == lps[i as int]);
        }
        match &loop_secs[i] {
            Some(secs) => {
                push_arg(&mut a, "-loop");
                push_arg(&mut a, "1");
                push_arg(&mut a, "-t");
                push_arg(&mut a, secs.as_str());
            },
            None => {},
        }
        push_arg(&mut a, "-i");
        push_arg(&mut a, inputs[i].as_str());
        proof {
            let looped = match lps[i as int] {
                Some(secs) => seq!["-loop"@, "1"@, "-t"@, secs],
                None => seq![],
            };
            assert(string_views(a@) =~= seq!["-y"@] + input_args_text(ins.take(i as int), lps.take(i as int)) + looped
                + seq!["-i"@, ins[i as int]]);
        }
        i = i + 1;
    }
    proof {
        assert(ins.take(inputs.len() as int) =~= ins);
        assert(lps.take(inputs.len() as int) =~= lps);
    }
    let ghost head = string_views(a@);
    push_arg(&mut a, "-filter_complex");
    push_arg(&mut a, graph);
    push_arg(&mut a, "-map");
    let v = pad_arg(video);
    push_arg(&mut a, v.as_str());
    push_arg(&mut a, "-map");
    let au = pad_arg(audio);
    push_arg(&mut a, au.as_str());
    let ghost mid = string_views(a@);
    let enc = encoder_args(encoder, video_kbps);
    let aud = audio_args(audio_kbps);
    let mut k: usize = 0;
    while k < enc.len()
        invariant
            k <= enc.len(),
            string_views(a@) == mid + string_views(enc@).take(k as int),
        decreases enc.len() - k,
    {
        push_arg(&mut a, enc[k].as_str());
        assert(string_views(enc@).take(k as int + 1) =~= string_views(enc@).take(k as int).push(enc@[k as int]@));
        assert(string_views(a@) =~= mid + string_views(enc@).take(k as int + 1));
        k = k + 1;
    }
    assert(string_views(enc@).take(enc.len() as int) =~= string_views(enc@));
    let ghost mid2 = string_views(a@);
    let mut k: usize = 0;
    while k < aud.len()
        invariant
            k <= aud.len(),
            string_views(a@) == mid2 + string_views(aud@).take(k as int),
        decreases aud.len() - k,
    {
        push_arg(&mut a, aud[k].as_str());
        assert(string_views(aud@).take(k as int + 1) =~= string_views(aud@).take(k as int).push(aud@[k as int]@));
        assert(string_views(a@) =~= mid2 + string_views(aud@).take(k as int + 1));
        k = k + 1;
    }
    assert(string_views(aud@).take(aud.len() as int) =~= string_views(aud@));
    push_arg(&mut a, "-y");
    push_arg(&mut a, "-progress");
    push_arg(&mut a, "pipe:1");
    push_arg(&mut a, output);
    assert(string_views(a@) =~= export_args_text(ins, lps, graph@, video@, audio@, encoder, video_kbps, audio_kbps, output@));
    a
}

/// Sum of the first `i` entries of `s`.
pub open spec fn sum_to(s: Seq<i64>, i: int) -> int
    decreases i,
{
    if i <= 0 { 0 } else { sum_to(s, i - 1) + s[i - 1] }
}

/// Where the cross-fade into clip `i` starts, in microseconds: the clips before it end
/// to end, less the overlaps of the cross-fades so far (those into clips 1..=i), and
/// never before zero.
pub open spec fn xfade_offset(durations: Seq<i64>, overlaps: Seq<i64>, i: int) -> int {
    let x = sum_to(durations, i) - (sum_to(overlaps, i + 1) - overlaps[0]);
    if x > 0 { x } else { 0 }
}

/// The cross-fade offsets of a chain of clips (entry `i` for the fade into clip `i`;
/// entry 0 is 0), and the length of the whole chain (all clips less all overlaps, never
/// below zero), in microseconds.
pub fn xfade_offsets(durations: &Vec<i64>, overlaps: &Vec<i64>) -> (r: (Vec<i64>, i64))
    requires
        durations.len() == overlaps.len(),
        forall|k: int| 0 <= k < durations@.len() ==> 0 <= #[trigger] durations@[k],
        forall|k: int| 0 <= k < overlaps@.len() ==> 0 <= #[trigger] overlaps@[k],
        sum_to(durations@, durations@.len() as int) <= i64::MAX,
        sum_to(overlaps@, overlaps@.len() as int) <= i64::MAX,
    ensures
        r.0@.len() == durations@.len(),
        forall|i: int| 0 <= i < durations@.len() ==> #[trigger] r.0@[i] == xfade_offset(durations@, overlaps@, i),
        r.1 == (if sum_to(durations@, durations@.len() as int) - (sum_to(overlaps@, overlaps@.len() as int) - (
        if overlaps@.len() > 0 { overlaps@[0] as int } else { 0 })) > 0 {
            sum_to(durations@, durations@.len() as int) - (sum_to(overlaps@, overlaps@.len() as int) - (
            if overlaps@.len() > 0 { overlaps@[0] as int } else { 0 }))
        } else {
            0
        }),
{
    let n = durations.len();
    let mut offs: Vec<i64> = Vec::new();
    let mut sd: i64 = 0;
    let mut so: i64 = 0;
    let first: i64 = if n > 0 { overlaps[0] } else { 0 };
    let mut i: usize = 0;
    proof {
        lemma_sum_to_mono(durations@, 0, n as int);
        lemma_sum_to_mono(overlaps@, 0, n as int);
    }
    while i < n
        invariant
            n == durations.len(),
            n == overlaps.len(),
            i <= n,
            forall|k: int| 0 <= k < n ==> 0 <= #[trigger] durations@[k],
            forall|k: int| 0 <= k < n ==> 0 <= #[trigger] overlaps@[k],
            sum_to(durations@, n as int) <= i64::MAX,
            sum_to(overlaps@, n as int) <= i64::MAX,
            first == (if n > 0 { overlaps@[0] as int } else { 0 }),
            sd == sum_to(durations@, i as int),
            so == sum_to(overlaps@, i as int),
            offs@.len() == i,
            forall|k: int| 0 <= k < i ==> #[trigger] offs@[k] == xfade_offset(durations@, overlaps@, k),
        decreases n - i,
    {
        proof {
            lemma_sum_to_mono(overlaps@, i as int + 1, n as int);
            lemma_sum_to_mono(durations@, i as int + 1, n as int);
            lemma_sum_to_mono(overlaps@, 0, i as int);
            lemma_sum_to_mono(durations@, 0, i as int);
            lemma_sum_to_mono(overlaps@, 1, i as int + 1);
            assert(sum_to(overlaps@, 1) == overlaps@[0]);
        }
        let so_next = so + overlaps[i];
        let x = sd - (so_next - first);
        offs.push(if x > 0 { x } else { 0 });
        sd = sd + durations[i];
        so = so_next;
        i = i + 1;
    }
    proof {
        if n > 0 {
            lemma_sum_to_mono(overlaps@, 1, n as int);
            assert(sum_to(overlaps@, 1) == overlaps@[0]);
        }
    }
    let x = sd - (so - first);
    (offs, if x > 0 { x } else { 0 })
}

/// Sums of non-negative entries grow with the count and stay non-negative.
proof fn lemma_sum_to_mono(s: Seq<i64>, i: int, j: int)
    requires
        0 <= i <= j <= s.len(),
        forall|k: int| 0 <= k < s.len() ==> 0 <= #[trigger] s[k],
    ensures
        0 <= sum_to(s, i) <= sum_to(s, j),
    decreases j,
{
    if j > 0 {
        if i < j {
            lemma_sum_to_mono(s, i, j - 1);
        } else {
            lemma_sum_to_mono(s, 0, j - 1);
        }
    }
}

} // verus!

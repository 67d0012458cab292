//! Concatenation of clip ranges, with an optional picture-in-picture overlay:
//! per-clip extraction into a scratch directory, a concat-list document, and
//! the final command or commands.
use vstd::prelude::*;

use crate::error::{reports_invalid_resolution, ValidationError};
use crate::graph::{lemma_segment_views_push, render_graph, segment, segment_views, graph_text, FilterSegment, SegmentView};
use crate::text::{
    dec, joined, push_arg, push_decimal, push_owned, push_thousandths, text, texts,
    thousandths_text,
};
use crate::tier::{name_view, parse_tier, tier_selected, ResolutionTier};
use crate::timecode::{format_timestamp, lemma_timestamp_round_trip, timestamp_text, timestamp_value};

verus! {

/// One input range to extract, in milliseconds.
#[derive(Debug, Clone)]
pub struct ClipSegment {
    pub path: String,
    pub start_ms: u64,
    pub end_ms: u64,
}

/// The corner of the main frame that an overlay is anchored to.
#[derive(Debug, Clone, Copy, PartialEq, Eq)]
pub enum Corner {
    TopLeft,
    TopRight,
    BottomLeft,
    BottomRight,
}

/// A picture-in-picture overlay: its source, when it shows on the
/// concatenated timeline (milliseconds), its volume in thousandths, its
/// corner, and its size in percent of its own dimensions.
#[derive(Debug, Clone)]
pub struct PipOverlay {
    pub path: String,
    pub offset_ms: u64,
    pub duration_ms: u64,
    pub volume_milli: u32,
    pub corner: Corner,
    pub size_percent: u32,
}

/// The corner that a name denotes; any other name is the bottom-right one.
pub open spec fn corner_named(name: Seq<char>) -> Corner {
    if name == "top-left"@ {
        Corner::TopLeft
    } else if name == "top-right"@ {
        Corner::TopRight
    } else if name == "bottom-left"@ {
        Corner::BottomLeft
    } else {
        Corner::BottomRight
    }
}

/// Reads a corner name: `top-left`, `top-right`, `bottom-left` or
/// `bottom-right`; any other name falls back to `bottom-right`.
pub fn parse_corner(name: &str) -> (r: Corner)
    ensures
        r == corner_named(name@),
{
    let given = text(name);
    if given == text("top-left") {
        Corner::TopLeft
    } else if given == text("top-right") {
        Corner::TopRight
    } else if given == text("bottom-left") {
        Corner::BottomLeft
    } else {
        Corner::BottomRight
    }
}

/// The overlay position of a corner, 20 pixels from both edges.
pub open spec fn corner_position(c: Corner) -> Seq<char> {
    match c {
        Corner::TopLeft => "20:20"@,
        Corner::TopRight => "main_w-overlay_w-20:20"@,
        Corner::BottomLeft => "20:main_h-overlay_h-20"@,
        Corner::BottomRight => "main_w-overlay_w-20:main_h-overlay_h-20"@,
    }
}

fn corner_text(c: Corner) -> (r: String)
    ensures
        r@ == corner_position(c),
{
    match c {
        Corner::TopLeft => text("20:20"),
        Corner::TopRight => text("main_w-overlay_w-20:20"),
        Corner::BottomLeft => text("20:main_h-overlay_h-20"),
        Corner::BottomRight => text("main_w-overlay_w-20:main_h-overlay_h-20"),
    }
}

/// An overlay is usable: it lasts a while, its volume is within `[0, 1]`,
/// and its end on the timeline is a representable time.
pub open spec fn overlay_ok(p: PipOverlay) -> bool {
    p.duration_ms > 0 && p.volume_milli <= 1000 && p.offset_ms + p.duration_ms <= u64::MAX
}

/// The overlay's filter graph: input 1 scaled to its size, laid over input 0
/// at its corner while the timeline is within `[offset, offset + duration]`,
/// and the two audio streams mixed with weights 1 and the overlay's volume.
pub open spec fn pip_segments(p: PipOverlay) -> Seq<SegmentView> {
    let s = thousandths_text((p.size_percent * 10) as nat);
    seq![
        (seq!["1:v"@], "scale=iw*"@ + s + ":ih*"@ + s, seq!["pip"@]),
        (
            seq!["0:v"@, "pip"@],
            "overlay="@ + corner_position(p.corner) + ":enable='between(t,"@ + thousandths_text(
                p.offset_ms as nat,
            ) + seq![','] + thousandths_text((p.offset_ms + p.duration_ms) as nat) + ")'"@,
            seq!["v"@],
        ),
        (
            seq!["0:a"@, "1:a"@],
            "amix=inputs=2:duration=first:weights=1 "@ + thousandths_text(p.volume_milli as nat),
            seq!["a"@],
        ),
    ]
}

fn labels2(a: &str, b: &str) -> (r: Vec<String>)
    ensures
        texts(r@) == seq![a@, b@],
{
    let mut v: Vec<String> = Vec::new();
    push_arg(&mut v, a);
    push_arg(&mut v, b);
    proof {
        assert(texts(v@) =~= seq![a@, b@]);
    }
    v
}

fn labels1(a: &str) -> (r: Vec<String>)
    ensures
        texts(r@) == seq![a@],
{
    let mut v: Vec<String> = Vec::new();
    push_arg(&mut v, a);
    proof {
        assert(texts(v@) =~= seq![a@]);
    }
    v
}

/// Builds the overlay's filter graph.
pub fn pip_graph(p: &PipOverlay) -> (r: Vec<FilterSegment>)
    requires
        overlay_ok(*p),
    ensures
        segment_views(r@) == pip_segments(*p),
{
    let mut scale = text("scale=iw*");
    push_thousandths(&mut scale, p.size_percent as u64 * 10);
    scale.append(":ih*");
    push_thousandths(&mut scale, p.size_percent as u64 * 10);
    let mut over = text("overlay=");
    over.append(corner_text(p.corner).as_str());
    over.append(":enable='between(t,");
    push_thousandths(&mut over, p.offset_ms);
    proof {
        reveal_strlit(",");
    }
    over.append(",");
    push_thousandths(&mut over, p.offset_ms + p.duration_ms);
    over.append(")'");
    let mut mix = text("amix=inputs=2:duration=first:weights=1 ");
    push_thousandths(&mut mix, p.volume_milli as u64);
    let s0 = segment(labels1("1:v"), scale, labels1("pip"));
    let s1 = segment(labels2("0:v", "pip"), over, labels1("v"));
    let s2 = segment(labels2("0:a", "1:a"), mix, labels1("a"));
    let mut segs: Vec<FilterSegment> = Vec::new();
    proof {
        lemma_segment_views_push(segs@, s0);
        lemma_segment_views_push(segs@.push(s0), s1);
        lemma_segment_views_push(segs@.push(s0).push(s1), s2);
    }
    segs.push(s0);
    segs.push(s1);
    segs.push(s2);
    proof {
        let want = pip_segments(*p);
        assert(s0@.1 =~= want[0].1);
        assert(s0@ == want[0]);
        assert(s1@.1 =~= want[1].1);
        assert(s1@ == want[1]);
        assert(s2@.1 =~= want[2].1);
        assert(s2@ == want[2]);
        assert(segment_views(segs@) =~= pip_segments(*p));
    }
    segs
}

/// The name of a scratch directory, unique per process identifier.
pub open spec fn scratch_dir_text(id: nat) -> Seq<char> {
    "clipforge_"@ + dec(id)
}

/// A file `name` inside directory `dir`.
pub open spec fn in_dir(dir: Seq<char>, name: Seq<char>) -> Seq<char> {
    dir + seq!['/'] + name
}

/// The scratch file of clip `i`.
pub open spec fn segment_path(dir: Seq<char>, i: nat) -> Seq<char> {
    in_dir(dir, "segment_"@ + dec(i) + ".mp4"@)
}

/// The scratch file of the concat-list document.
pub open spec fn list_path(dir: Seq<char>) -> Seq<char> {
    in_dir(dir, "concat_list.txt"@)
}

/// The scratch file of the plain concatenation that an overlay is laid on.
pub open spec fn intermediate_path(dir: Seq<char>) -> Seq<char> {
    in_dir(dir, "temp_concat.mp4"@)
}

/// The scaling of an extracted clip: to the tier's height, width following.
pub open spec fn extraction_scale(t: ResolutionTier) -> Seq<Seq<char>> {
    match t {
        ResolutionTier::Hd720 => seq!["-vf"@, "scale=-2:720"@],
        ResolutionTier::Hd1080 => seq!["-vf"@, "scale=-2:1080"@],
        ResolutionTier::Source => Seq::empty(),
    }
}

/// The arguments that extract one clip's range, re-encoded, into `out`.
pub open spec fn extraction_arguments(c: ClipSegment, t: ResolutionTier, out: Seq<char>) -> Seq<
    Seq<char>,
> {
    seq![
        "-y"@,
        "-ss"@,
        timestamp_text(c.start_ms as nat),
        "-i"@,
        c.path@,
        "-t"@,
        timestamp_text((c.end_ms - c.start_ms) as nat),
        "-c:v"@,
        "libx264"@,
        "-preset"@,
        "fast"@,
        "-crf"@,
        "18"@,
        "-c:a"@,
        "aac"@,
        "-b:a"@,
        "192k"@,
    ] + extraction_scale(t) + seq![out]
}

/// One line of a concat list: `file '<path>'`.
pub open spec fn list_line(path: Seq<char>) -> Seq<char> {
    "file '"@ + path + seq!['\'']
}

/// The concat-list document: one line per file, nothing else.
pub open spec fn list_document(paths: Seq<Seq<char>>) -> Seq<char> {
    joined(paths.map_values(|p: Seq<char>| list_line(p)), seq!['\n'])
}

/// The arguments of a concat-demux, stream-copy run from a list to `out`.
pub open spec fn concat_demux_arguments(list: Seq<char>, out: Seq<char>) -> Seq<Seq<char>> {
    seq!["-y"@, "-f"@, "concat"@, "-safe"@, "0"@, "-i"@, list, "-c"@, "copy"@, out]
}

/// The arguments that lay an overlay over the concatenated `main` into `out`.
pub open spec fn pip_arguments(main: Seq<char>, p: PipOverlay, out: Seq<char>) -> Seq<Seq<char>> {
    seq![
        "-y"@,
        "-i"@,
        main,
        "-i"@,
        p.path@,
        "-filter_complex"@,
        graph_text(pip_segments(p)),
        "-map"@,
        "[v]"@,
        "-map"@,
        "[a]"@,
        "-c:v"@,
        "libx264"@,
        "-preset"@,
        "fast"@,
        "-crf"@,
        "18"@,
        "-c:a"@,
        "aac"@,
        "-b:a"@,
        "192k"@,
        out,
    ]
}

/// The views of a list of argument lists.
pub open spec fn commands_view(v: Seq<Vec<String>>) -> Seq<Seq<Seq<char>>> {
    v.map_values(|c: Vec<String>| texts(c@))
}

/// Every clip's range ends after it starts.
pub open spec fn clips_ok(clips: Seq<ClipSegment>) -> bool {
    forall|i: int| 0 <= i < clips.len() ==> (#[trigger] clips[i]).start_ms < clips[i].end_ms
}

/// What a concatenation runs, in order: each segment command, then the
/// document written to its path, then the final command or commands.
pub struct ConcatPlan {
    pub segment_commands: Vec<Vec<String>>,
    pub list_path: String,
    pub list_document: String,
    pub final_commands: Vec<Vec<String>>,
}

/// `plan` is the concatenation of `clips` at tier `t` through scratch
/// directory `dir` into `output`, with the overlay `pip` if there is one.
pub open spec fn is_concat_plan(
    plan: ConcatPlan,
    clips: Seq<ClipSegment>,
    dir: Seq<char>,
    output: Seq<char>,
    t: ResolutionTier,
    pip: Option<PipOverlay>,
) -> bool {
    let n = clips.len();
    &&& commands_view(plan.segment_commands@) == Seq::new(
        n,
        |i: int| extraction_arguments(clips[i], t, segment_path(dir, i as nat)),
    )
    &&& plan.list_path@ == list_path(dir)
    &&& plan.list_document@ == list_document(Seq::new(n, |i: int| segment_path(dir, i as nat)))
    &&& commands_view(plan.final_commands@) == match pip {
        None => seq![concat_demux_arguments(list_path(dir), output)],
        Some(p) => seq![
            concat_demux_arguments(list_path(dir), intermediate_path(dir)),
            pip_arguments(intermediate_path(dir), p, output),
        ],
    }
}

pub proof fn lemma_commands_view_push(v: Seq<Vec<String>>, c: Vec<String>)
    ensures
        commands_view(v.push(c)) == commands_view(v).push(texts(c@)),
{
    assert(commands_view(v.push(c)) =~= commands_view(v).push(texts(c@)));
}

/// Names the scratch directory of a process.
pub fn scratch_dir_name(id: u32) -> (r: String)
    ensures
        r@ == scratch_dir_text(id as nat),
{
    let mut out = text("clipforge_");
    push_decimal(&mut out, id as u64);
    out
}

fn file_in(dir: &str, name: String) -> (r: String)
    ensures
        r@ == in_dir(dir@, name@),
{
    let mut out = text(dir);
    proof {
        reveal_strlit("/");
    }
    out.append("/");
    out.append(name.as_str());
    out
}

/// The scratch file of clip `i`.
pub fn segment_file(dir: &str, i: usize) -> (r: String)
    ensures
        r@ == segment_path(dir@, i as nat),
{
    let mut name = text("segment_");
    push_decimal(&mut name, i as u64);
    name.append(".mp4");
    file_in(dir, name)
}

/// The arguments that extract one clip into `out`.
pub fn extraction_args(c: &ClipSegment, t: ResolutionTier, out: String) -> (r: Vec<String>)
    requires
        c.start_ms < c.end_ms,
    ensures
        texts(r@) == extraction_arguments(*c, t, out@),
{
    let mut args: Vec<String> = Vec::new();
    push_arg(&mut args, "-y");
    push_arg(&mut args, "-ss");
    push_owned(&mut args, format_timestamp(c.start_ms));
    push_arg(&mut args, "-i");
    push_arg(&mut args, c.path.as_str());
    push_arg(&mut args, "-t");
    push_owned(&mut args, format_timestamp(c.end_ms - c.start_ms));
    push_arg(&mut args, "-c:v");
    push_arg(&mut args, "libx264");
    push_arg(&mut args, "-preset");
    push_arg(&mut args, "fast");
    push_arg(&mut args, "-crf");
    push_arg(&mut args, "18");
    push_arg(&mut args, "-c:a");
    push_arg(&mut args, "aac");
    push_arg(&mut args, "-b:a");
    push_arg(&mut args, "192k");
    match t {
        ResolutionTier::Hd720 => {
            push_arg(&mut args, "-vf");
            push_arg(&mut args, "scale=-2:720");
        },
        ResolutionTier::Hd1080 => {
            push_arg(&mut args, "-vf");
            push_arg(&mut args, "scale=-2:1080");
        },
        ResolutionTier::Source => {},
    }
    push_owned(&mut args, out);
    proof {
        assert(texts(args@) =~= extraction_arguments(*c, t, out@));
    }
    args
}

/// Writes the concat-list document of `paths`.
pub fn concat_list_document(paths: &Vec<String>) -> (r: String)
    ensures
        r@ == list_document(texts(paths@)),
{
    let ghost lines = texts(paths@).map_values(|p: Seq<char>| list_line(p));
    let mut out = String::new();
    let mut i: usize = 0;
    proof {
        assert(lines.take(0) =~= Seq::<Seq<char>>::empty());
    }
    while i < paths.len()
        invariant
            i <= paths.len(),
            lines == texts(paths@).map_values(|p: Seq<char>| list_line(p)),
            out@ == joined(lines.take(i as int), seq!['\n']),
        decreases paths.len() - i,
    {
        if i > 0 {
            proof {
                reveal_strlit("\n");
            }
            out.append("\n");
        }
        out.append("file '");
        out.append(paths[i].as_str());
        proof {
            reveal_strlit("'");
        }
        out.append("'");
        proof {
            let t = lines.take(i + 1);
            assert(t.drop_last() =~= lines.take(i as int));
            assert(t.last() == list_line(paths@[i as int]@));
            if i == 0 {
                assert(out@ =~= t[0]);
            } else {
                assert(out@ =~= joined(t.drop_last(), seq!['\n']) + seq!['\n'] + t.last());
            }
        }
        i = i + 1;
    }
    proof {
        assert(lines.take(i as int) =~= lines);
    }
    out
}

fn concat_demux_args(list: &str, out: String) -> (r: Vec<String>)
    ensures
        texts(r@) == concat_demux_arguments(list@, out@),
{
    let mut args: Vec<String> = Vec::new();
    push_arg(&mut args, "-y");
    push_arg(&mut args, "-f");
    push_arg(&mut args, "concat");
    push_arg(&mut args, "-safe");
    push_arg(&mut args, "0");
    push_arg(&mut args, "-i");
    push_arg(&mut args, list);
    push_arg(&mut args, "-c");
    push_arg(&mut args, "copy");
    push_owned(&mut args, out);
    proof {
        assert(texts(args@) =~= concat_demux_arguments(list@, out@));
    }
    args
}

fn pip_args(main: &str, p: &PipOverlay, out: &str) -> (r: Vec<String>)
    requires
        overlay_ok(*p),
    ensures
        texts(r@) == pip_arguments(main@, *p, out@),
{
    let graph = pip_graph(p);
    let mut args: Vec<String> = Vec::new();
    push_arg(&mut args, "-y");
    push_arg(&mut args, "-i");
    push_arg(&mut args, main);
    push_arg(&mut args, "-i");
    push_arg(&mut args, p.path.as_str());
    push_arg(&mut args, "-filter_complex");
    push_owned(&mut args, render_graph(&graph));
    push_arg(&mut args, "-map");
    push_arg(&mut args, "[v]");
    push_arg(&mut args, "-map");
    push_arg(&mut args, "[a]");
    push_arg(&mut args, "-c:v");
    push_arg(&mut args, "libx264");
    push_arg(&mut args, "-preset");
    push_arg(&mut args, "fast");
    push_arg(&mut args, "-crf");
    push_arg(&mut args, "18");
    push_arg(&mut args, "-c:a");
    push_arg(&mut args, "aac");
    push_arg(&mut args, "-b:a");
    push_arg(&mut args, "192k");
    push_arg(&mut args, out);
    proof {
        assert(texts(args@) =~= pip_arguments(main@, *p, out@));
    }
    args
}

/// Plans the concatenation of `clips` through scratch directory
/// `scratch_dir` into `output`. Checked in this order: an empty clip list,
/// the tier name, each clip's range, the overlay.
pub fn plan_concatenation(
    clips: &Vec<ClipSegment>,
    scratch_dir: &str,
    output: &str,
    tier: Option<&str>,
    pip: Option<&PipOverlay>,
) -> (r: Result<ConcatPlan, ValidationError>)
    ensures
        clips.len() == 0 ==> r is Err && r->Err_0 == ValidationError::NoClips,
        clips.len() > 0 ==> match tier_selected(name_view(tier)) {
            None => r is Err && reports_invalid_resolution(r->Err_0, tier->Some_0@),
            Some(t) => if !clips_ok(clips@) {
                r is Err && r->Err_0 == ValidationError::InvalidTimeRange
            } else if pip is Some && !overlay_ok(*pip->Some_0) {
                r is Err && r->Err_0 == ValidationError::InvalidOverlay
            } else {
                r is Ok && is_concat_plan(
                    r->Ok_0,
                    clips@,
                    scratch_dir@,
                    output@,
                    t,
                    match pip {
                        None => None,
                        Some(p) => Some(*p),
                    },
                )
            },
        },
{
    if clips.len() == 0 {
        return Err(ValidationError::NoClips);
    }
    let t = match parse_tier(tier) {
        Ok(t) => t,
        Err(e) => return Err(e),
    };
    let mut i: usize = 0;
    while i < clips.len()
        invariant
            i <= clips.len(),
            clips.len() > 0,
            tier_selected(name_view(tier)) == Some(t),
            forall|j: int| 0 <= j < i ==> (#[trigger] clips@[j]).start_ms < clips@[j].end_ms,
        decreases clips.len() - i,
    {
        if clips[i].start_ms >= clips[i].end_ms {
            proof {
                let bad = clips@[i as int];
                assert(!(bad.start_ms < bad.end_ms));
                assert(!clips_ok(clips@));
            }
            return Err(ValidationError::InvalidTimeRange);
        }
        i = i + 1;
    }
    match pip {
        Some(p) => {
            if p.duration_ms == 0 || p.volume_milli > 1000 || p.offset_ms > u64::MAX - p.duration_ms {
                return Err(ValidationError::InvalidOverlay);
            }
        },
        None => {},
    }
    let mut commands: Vec<Vec<String>> = Vec::new();
    let mut paths: Vec<String> = Vec::new();
    let mut k: usize = 0;
    while k < clips.len()
        invariant
            k <= clips.len(),
            clips_ok(clips@),
            commands_view(commands@) == Seq::new(
                k as nat,
                |i: int| extraction_arguments(clips@[i], t, segment_path(scratch_dir@, i as nat)),
            ),
            texts(paths@) == Seq::new(k as nat, |i: int| segment_path(scratch_dir@, i as nat)),
        decreases clips.len() - k,
    {
        let path = segment_file(scratch_dir, k);
        let cmd = extraction_args(&clips[k], t, path.clone());
        proof {
            lemma_commands_view_push(commands@, cmd);
        }
        commands.push(cmd);
        push_owned(&mut paths, path);
        k = k + 1;
        proof {
            assert(commands_view(commands@) =~= Seq::new(
                k as nat,
                |i: int| extraction_arguments(clips@[i], t, segment_path(scratch_dir@, i as nat)),
            ));
            assert(texts(paths@) =~= Seq::new(k as nat, |i: int| segment_path(scratch_dir@, i as nat)));
        }
    }
    let document = concat_list_document(&paths);
    let list = file_in(scratch_dir, text("concat_list.txt"));
    let mut finals: Vec<Vec<String>> = Vec::new();
    match pip {
        None => {
            let c = concat_demux_args(list.as_str(), text(output));
            proof {
                lemma_commands_view_push(finals@, c);
            }
            finals.push(c);
        },
        Some(p) => {
            let main = file_in(scratch_dir, text("temp_concat.mp4"));
            let c0 = concat_demux_args(list.as_str(), main.clone());
            let c1 = pip_args(main.as_str(), p, output);
            proof {
                lemma_commands_view_push(finals@, c0);
                lemma_commands_view_push(finals@.push(c0), c1);
            }
            finals.push(c0);
            finals.push(c1);
        },
    }
    let plan = ConcatPlan {
        segment_commands: commands,
        list_path: list,
        list_document: document,
        final_commands: finals,
    };
    proof {
        let want = match pip {
            None => seq![concat_demux_arguments(list_path(scratch_dir@), output@)],
            Some(p) => seq![
                concat_demux_arguments(list_path(scratch_dir@), intermediate_path(scratch_dir@)),
                pip_arguments(intermediate_path(scratch_dir@), *p, output@),
            ],
        };
        assert(commands_view(plan.final_commands@) =~= want);
    }
    Ok(plan)
}

/// The start and the length of a clip's extraction, written as timestamps,
/// read back as the clip's start and length in milliseconds.
pub proof fn lemma_extraction_times_read_back(c: ClipSegment, t: ResolutionTier, out: Seq<char>)
    requires
        c.start_ms < c.end_ms,
    ensures
        timestamp_value(extraction_arguments(c, t, out)[2]) == c.start_ms,
        timestamp_value(extraction_arguments(c, t, out)[6]) == c.end_ms - c.start_ms,
{
    lemma_timestamp_round_trip(c.start_ms as nat);
    lemma_timestamp_round_trip((c.end_ms - c.start_ms) as nat);
}

/// Why a concatenation run stopped early.
#[derive(Debug, Clone, Copy, PartialEq, Eq)]
pub enum ConcatFailure {
    /// The extraction of this clip failed.
    SegmentFailed(usize),
    /// The concat-list document could not be written.
    ListNotWritten,
    /// This final command failed.
    FinalFailed(usize),
}

/// What a concatenation run does next.
#[derive(Debug, Clone, Copy, PartialEq, Eq)]
pub enum ConcatStep {
    /// Run segment command `i`.
    RunSegment(usize),
    /// Write the concat-list document to its path.
    WriteList,
    /// Run final command `j`.
    RunFinal(usize),
    /// The run is over, with this outcome; the scratch directory goes now.
    Finish(Result<(), ConcatFailure>),
}

/// The first step of a run over `segments` segment commands.
pub open spec fn concat_first(segments: nat) -> ConcatStep {
    if segments > 0 {
        ConcatStep::RunSegment(0)
    } else {
        ConcatStep::WriteList
    }
}

/// The step after `step` succeeded (`ok`) or failed: the first failure ends
/// the run; otherwise segments run in order, then the document is written,
/// then the final commands run in order.
pub open spec fn concat_next(step: ConcatStep, ok: bool, segments: nat, finals: nat) -> ConcatStep {
    match step {
        ConcatStep::RunSegment(i) => if !ok {
            ConcatStep::Finish(Err(ConcatFailure::SegmentFailed(i)))
        } else if i + 1 < segments {
            ConcatStep::RunSegment((i + 1) as usize)
        } else {
            ConcatStep::WriteList
        },
        ConcatStep::WriteList => if !ok {
            ConcatStep::Finish(Err(ConcatFailure::ListNotWritten))
        } else if finals > 0 {
            ConcatStep::RunFinal(0)
        } else {
            ConcatStep::Finish(Ok(()))
        },
        ConcatStep::RunFinal(j) => if !ok {
            ConcatStep::Finish(Err(ConcatFailure::FinalFailed(j)))
        } else if j + 1 < finals {
            ConcatStep::RunFinal((j + 1) as usize)
        } else {
            ConcatStep::Finish(Ok(()))
        },
        ConcatStep::Finish(r) => ConcatStep::Finish(r),
    }
}

impl ConcatPlan {
    /// The first step of running this plan.
    pub fn first_step(&self) -> (r: ConcatStep)
        ensures
            r == concat_first(self.segment_commands@.len()),
    {
        if self.segment_commands.len() > 0 {
            ConcatStep::RunSegment(0)
        } else {
            ConcatStep::WriteList
        }
    }

    /// The step after `step`, given whether it succeeded.
    pub fn next_step(&self, step: ConcatStep, ok: bool) -> (r: ConcatStep)
        ensures
            r == concat_next(step, ok, self.segment_commands@.len(), self.final_commands@.len()),
    {
        match step {
            ConcatStep::RunSegment(i) => if !ok {
                ConcatStep::Finish(Err(ConcatFailure::SegmentFailed(i)))
            } else if i < self.segment_commands.len() && i + 1 < self.segment_commands.len() {
                ConcatStep::RunSegment(i + 1)
            } else {
                ConcatStep::WriteList
            },
            ConcatStep::WriteList => if !ok {
                ConcatStep::Finish(Err(ConcatFailure::ListNotWritten))
            } else if self.final_commands.len() > 0 {
                ConcatStep::RunFinal(0)
            } else {
                ConcatStep::Finish(Ok(()))
            },
            ConcatStep::RunFinal(j) => if !ok {
                ConcatStep::Finish(Err(ConcatFailure::FinalFailed(j)))
            } else if j < self.final_commands.len() && j + 1 < self.final_commands.len() {
                ConcatStep::RunFinal(j + 1)
            } else {
                ConcatStep::Finish(Ok(()))
            },
            ConcatStep::Finish(r) => ConcatStep::Finish(r),
        }
    }
}

/// When every step succeeds, a run over `segments` segment commands and
/// `finals` final commands visits each segment in order, writes the
/// document, runs each final command in order, and finishes with success.
pub proof fn lemma_concat_run_succeeds(segments: nat, finals: nat, i: usize, j: usize)
    requires
        i < segments,
        j < finals,
    ensures
        i + 1 < segments ==> concat_next(ConcatStep::RunSegment(i), true, segments, finals)
            == ConcatStep::RunSegment((i + 1) as usize),
        i + 1 == segments ==> concat_next(ConcatStep::RunSegment(i), true, segments, finals)
            == ConcatStep::WriteList,
        concat_next(ConcatStep::WriteList, true, segments, finals) == ConcatStep::RunFinal(0),
        j + 1 < finals ==> concat_next(ConcatStep::RunFinal(j), true, segments, finals)
            == ConcatStep::RunFinal((j + 1) as usize),
        j + 1 == finals ==> concat_next(ConcatStep::RunFinal(j), true, segments, finals)
            == ConcatStep::Finish(Ok(())),
        concat_first(segments) == ConcatStep::RunSegment(0),
{
}

} // verus!

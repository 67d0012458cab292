//! Multi-track composite export: tracks stacked by z-index, scaled from the
//! editing canvas to the output size, overlaid on a background in one chain,
//! and their audio mixed.
use vstd::prelude::*;
use vstd::set_lib::{lemma_int_range, lemma_subset_equality, set_int_range};

use crate::error::{reports_invalid_resolution, ValidationError};
use crate::graph::{lemma_segment_views_push, render_graph, segment, segment_views, graph_text, FilterSegment, SegmentView};
use crate::text::{
    dec, push_arg, push_decimal, push_owned, push_signed, push_thousandths, signed_dec, text, texts,
    thousandths_text,
};
use crate::tier::{bitrate_text, fixed_size, name_view, parse_tier, tier_selected, ResolutionTier};

verus! {

/// One track of a composite export. Opacity and volume are in thousandths
/// (`1000` is full).
#[derive(Debug, Clone)]
pub struct TrackExport {
    pub path: String,
    pub position_x: i32,
    pub position_y: i32,
    pub width: i32,
    pub height: i32,
    pub opacity_milli: u32,
    pub volume_milli: u32,
    pub z_index: i32,
}

/// Track `a` is stacked below track `b`: a lower z-index, or the same one and
/// an earlier place in the request.
pub open spec fn stacked_below(tracks: Seq<TrackExport>, a: int, b: int) -> bool {
    tracks[a].z_index < tracks[b].z_index || (tracks[a].z_index == tracks[b].z_index && a < b)
}

/// `order` lists every track index once, from the bottom of the stack to the
/// top: a stable sort by z-index.
pub open spec fn is_stacking_order(tracks: Seq<TrackExport>, order: Seq<usize>) -> bool {
    &&& order.len() == tracks.len()
    &&& forall|k: int| 0 <= k < order.len() ==> #[trigger] order[k] < tracks.len()
    &&& forall|i: int, j: int|
        0 <= i < j < order.len() ==> stacked_below(tracks, #[trigger] order[i] as int, #[trigger] order[j] as int)
}

/// Sorts the tracks by z-index, keeping the request's order among equal
/// z-indices; returns the track indices from bottom to top.
pub fn stacking_order(tracks: &Vec<TrackExport>) -> (order: Vec<usize>)
    ensures
        is_stacking_order(tracks@, order@),
{
    let mut order: Vec<usize> = Vec::new();
    let mut i: usize = 0;
    while i < tracks.len()
        invariant
            i <= tracks.len(),
            order.len() == i,
            forall|k: int| 0 <= k < order.len() ==> #[trigger] order@[k] < i,
            forall|a: int, b: int|
                0 <= a < b < order.len() ==> stacked_below(tracks@, #[trigger] order@[a] as int, #[trigger] order@[b] as int),
        decreases tracks.len() - i,
    {
        let z = tracks[i].z_index;
        let mut p: usize = 0;
        while p < order.len() && tracks[order[p]].z_index <= z
            invariant
                p <= order.len(),
                order.len() == i,
                i < tracks.len(),
                z == tracks@[i as int].z_index,
                forall|k: int| 0 <= k < order.len() ==> #[trigger] order@[k] < i,
                forall|k: int| 0 <= k < p ==> #[trigger] tracks@[order@[k] as int].z_index <= z,
            decreases order.len() - p,
        {
            p = p + 1;
        }
        proof {
            if p < order.len() {
                assert(tracks@[order@[p as int] as int].z_index > z);
                assert forall|k: int| p <= k < order.len() implies #[trigger] tracks@[order@[k] as int].z_index > z by {
                    if k > p {
                        assert(stacked_below(tracks@, order@[p as int] as int, order@[k] as int));
                    }
                }
            }
        }
        let ghost before = order@;
        order.insert(p, i);
        proof {
            assert(order@ == before.insert(p as int, i));
            assert forall|a: int, b: int|
                0 <= a < b < order.len() implies stacked_below(tracks@, #[trigger] order@[a] as int, #[trigger] order@[b] as int) by {
                if b < p {
                    assert(order@[a] == before[a] && order@[b] == before[b]);
                } else if b == p {
                    assert(order@[a] == before[a]);
                } else if a < p {
                    assert(order@[a] == before[a] && order@[b] == before[b - 1]);
                } else if a == p {
                    assert(order@[b] == before[b - 1]);
                } else {
                    assert(order@[a] == before[a - 1] && order@[b] == before[b - 1]);
                }
            }
            assert forall|k: int| 0 <= k < order.len() implies #[trigger] order@[k] < i + 1 by {
                if k < p {
                    assert(order@[k] == before[k]);
                } else if k > p {
                    assert(order@[k] == before[k - 1]);
                }
            }
        }
        i = i + 1;
    }
    order
}

/// Every track index appears in a stacking order.
pub proof fn lemma_stacking_order_covers(tracks: Seq<TrackExport>, order: Seq<usize>, a: int)
    requires
        is_stacking_order(tracks, order),
        0 <= a < tracks.len(),
    ensures
        exists|p: int| 0 <= p < order.len() && order[p] as int == a,
{
    let n = tracks.len() as int;
    let s = order.map_values(|v: usize| v as int);
    assert(s.no_duplicates()) by {
        assert forall|i: int, j: int| 0 <= i < s.len() && 0 <= j < s.len() && i != j implies s[i] != s[j] by {
            if i < j {
                assert(stacked_below(tracks, order[i] as int, order[j] as int));
            } else {
                assert(stacked_below(tracks, order[j] as int, order[i] as int));
            }
        }
    }
    s.unique_seq_to_set();
    lemma_int_range(0, n);
    assert(s.to_set().subset_of(set_int_range(0, n))) by {
        assert forall|x: int| s.to_set().contains(x) implies set_int_range(0, n).contains(x) by {
            let i = choose|i: int| 0 <= i < s.len() && s[i] == x;
            assert(order[i] < tracks.len());
        }
    }
    lemma_subset_equality(s.to_set(), set_int_range(0, n));
    assert(set_int_range(0, n).contains(a));
    assert(s.to_set().contains(a));
    let p = choose|p: int| 0 <= p < s.len() && s[p] == a;
    assert(order[p] as int == a);
}

proof fn lemma_stacking_prefix_equal(tracks: Seq<TrackExport>, o1: Seq<usize>, o2: Seq<usize>, k: int)
    requires
        is_stacking_order(tracks, o1),
        is_stacking_order(tracks, o2),
        0 <= k <= o1.len(),
    ensures
        forall|j: int| 0 <= j < k ==> o1[j] == o2[j],
    decreases k,
{
    if k > 0 {
        let m = k - 1;
        lemma_stacking_prefix_equal(tracks, o1, o2, m);
        let a = o1[m] as int;
        let b = o2[m] as int;
        if a != b {
            lemma_stacking_order_covers(tracks, o2, a);
            lemma_stacking_order_covers(tracks, o1, b);
            let p = choose|p: int| 0 <= p < o2.len() && o2[p] as int == a;
            let q = choose|q: int| 0 <= q < o1.len() && o1[q] as int == b;
            if stacked_below(tracks, a, b) {
                if p > m {
                    assert(stacked_below(tracks, o2[m] as int, o2[p] as int));
                } else {
                    assert(o1[p] == o2[p]);
                    assert(stacked_below(tracks, o1[p] as int, o1[m] as int));
                }
            } else {
                if q > m {
                    assert(stacked_below(tracks, o1[m] as int, o1[q] as int));
                } else {
                    assert(o1[q] == o2[q]);
                    assert(stacked_below(tracks, o2[q] as int, o2[m] as int));
                }
            }
        }
    }
}

/// A stack has one stacking order: the stable sort by z-index is unique.
pub proof fn lemma_stacking_order_unique(tracks: Seq<TrackExport>, o1: Seq<usize>, o2: Seq<usize>)
    requires
        is_stacking_order(tracks, o1),
        is_stacking_order(tracks, o2),
    ensures
        o1 == o2,
{
    lemma_stacking_prefix_equal(tracks, o1, o2, o1.len() as int);
    assert(o1 =~= o2);
}

/// Division rounded toward zero, as a conversion from a fraction to an integer rounds.
pub open spec fn div_toward_zero(a: int, d: int) -> int {
    if a >= 0 {
        a / d
    } else {
        -((-a) / d)
    }
}

/// The nearest value of `i32` (a conversion to `i32` saturates).
pub open spec fn saturate_i32(x: int) -> int {
    if x > i32::MAX {
        i32::MAX as int
    } else if x < i32::MIN {
        i32::MIN as int
    } else {
        x
    }
}

/// A length on the canvas scaled by `out / canvas`.
pub open spec fn scaled_len(len: int, out: int, canvas: int) -> int {
    saturate_i32(div_toward_zero(len * out, canvas))
}

/// A position on the canvas scaled by `out / canvas`, then moved by half the
/// output size less half the scaled length: `pos·out/canvas + out/2 − scaled/2`.
pub open spec fn scaled_pos(pos: int, scaled: int, out: int, canvas: int) -> int {
    saturate_i32(div_toward_zero(2 * (pos * out) + out * canvas - scaled * canvas, 2 * canvas))
}

/// Where a track lands in the output: scaled width and height, then x and y.
pub open spec fn placement(t: TrackExport, ow: int, oh: int, cw: int, ch: int) -> (int, int, int, int) {
    let w = scaled_len(t.width as int, ow, cw);
    let h = scaled_len(t.height as int, oh, ch);
    (w, h, scaled_pos(t.position_x as int, w, ow, cw), scaled_pos(t.position_y as int, h, oh, ch))
}

/// A track's size and position in the output frame.
#[derive(Debug, Clone, Copy, PartialEq, Eq)]
pub struct Placement {
    pub width: i32,
    pub height: i32,
    pub x: i32,
    pub y: i32,
}

fn to_i32_saturating(x: i128) -> (r: i32)
    ensures
        r as int == saturate_i32(x as int),
{
    if x > i32::MAX as i128 {
        i32::MAX
    } else if x < i32::MIN as i128 {
        i32::MIN
    } else {
        x as i32
    }
}

fn div_toward_zero_exec(a: i128, d: i128) -> (r: i128)
    requires
        d > 0,
        a > i128::MIN,
    ensures
        r as int == div_toward_zero(a as int, d as int),
{
    if a >= 0 {
        a / d
    } else {
        -((-a) / d)
    }
}

fn product(a: i32, b: i32) -> (r: i128)
    ensures
        r == a as int * b as int,
        -0x4000_0000_0000_0000 <= r <= 0x4000_0000_0000_0000,
{
    proof {
        let x = a as int;
        let y = b as int;
        assert(-0x8000_0000 <= x <= 0x7fff_ffff);
        assert(-0x8000_0000 <= y <= 0x7fff_ffff);
        assert(-0x4000_0000_0000_0000 <= x * y <= 0x4000_0000_0000_0000) by (nonlinear_arith)
            requires
                -0x8000_0000 <= x <= 0x7fff_ffff,
                -0x8000_0000 <= y <= 0x7fff_ffff,
        ;
    }
    a as i128 * b as i128
}

/// Scales a track from a `cw`×`ch` canvas to a `ow`×`oh` output, each axis
/// by its own ratio.
pub fn place_track(t: &TrackExport, ow: i32, oh: i32, cw: i32, ch: i32) -> (r: Placement)
    requires
        cw > 0,
        ch > 0,
    ensures
        placement(*t, ow as int, oh as int, cw as int, ch as int) == (
            r.width as int,
            r.height as int,
            r.x as int,
            r.y as int,
        ),
{
    let w = to_i32_saturating(div_toward_zero_exec(product(t.width, ow), cw as i128));
    let h = to_i32_saturating(div_toward_zero_exec(product(t.height, oh), ch as i128));
    let x = to_i32_saturating(div_toward_zero_exec(
        2 * product(t.position_x, ow) + product(ow, cw) - product(w, cw),
        2 * cw as i128,
    ));
    let y = to_i32_saturating(div_toward_zero_exec(
        2 * product(t.position_y, oh) + product(oh, ch) - product(h, ch),
        2 * ch as i128,
    ));
    Placement { width: w, height: h, x, y }
}

/// Output size and editing-canvas size of a composite export.
#[derive(Debug, Clone, Copy, PartialEq, Eq)]
pub struct OutputFrame {
    pub out_w: i32,
    pub out_h: i32,
    pub canvas_w: i32,
    pub canvas_h: i32,
}

/// The frame is usable: a positive canvas and a positive output.
pub open spec fn frame_ok(f: OutputFrame) -> bool {
    f.canvas_w > 0 && f.canvas_h > 0 && f.out_w > 0 && f.out_h > 0
}

/// Where the `k`-th track from the bottom lands.
pub open spec fn placed(tracks: Seq<TrackExport>, order: Seq<usize>, f: OutputFrame, k: int) -> (
    int,
    int,
    int,
    int,
) {
    placement(
        tracks[order[k] as int],
        f.out_w as int,
        f.out_h as int,
        f.canvas_w as int,
        f.canvas_h as int,
    )
}

/// A label made of a prefix and a number (`v0`, `tmp3`).
pub open spec fn numbered(prefix: Seq<char>, k: nat) -> Seq<char> {
    prefix + dec(k)
}

/// The solid background that the chain starts from.
pub open spec fn background_segment(f: OutputFrame) -> SegmentView {
    (
        Seq::empty(),
        "color=c=black:s="@ + dec(f.out_w as nat) + seq!['x'] + dec(f.out_h as nat) + ":d=30"@,
        seq!["bg"@],
    )
}

/// Input `k` scaled and made translucent, written to `v<k>`.
pub open spec fn video_segment(k: nat, p: (int, int, int, int), opacity: nat) -> SegmentView {
    (
        seq![dec(k) + ":v"@],
        "scale="@ + signed_dec(p.0) + seq![':'] + signed_dec(p.1)
            + ",format=yuva420p,colorchannelmixer=aa="@ + thousandths_text(opacity),
        seq![numbered("v"@, k)],
    )
}

/// The audio of input `k` at its volume, written to `a<k>`.
pub open spec fn audio_segment(k: nat, volume: nat) -> SegmentView {
    (seq![dec(k) + ":a"@], "volume="@ + thousandths_text(volume), seq![numbered("a"@, k)])
}

/// The `j`-th per-track segment: video and audio of each track in turn.
pub open spec fn track_segment(tracks: Seq<TrackExport>, order: Seq<usize>, f: OutputFrame, j: int) -> SegmentView {
    let k = j / 2;
    let t = tracks[order[k] as int];
    if j % 2 == 0 {
        video_segment(k as nat, placed(tracks, order, f, k), t.opacity_milli as nat)
    } else {
        audio_segment(k as nat, t.volume_milli as nat)
    }
}

/// Step `k` of the overlay fold over `n` tracks: the background (for the
/// first) or the previous result, under track `k`; the last step writes
/// `vout`, the others `tmp<k>`.
pub open spec fn overlay_segment(k: nat, n: nat, x: int, y: int) -> SegmentView {
    (
        seq![if k == 0 { "bg"@ } else { numbered("tmp"@, (k - 1) as nat) }, numbered("v"@, k)],
        "overlay=x="@ + signed_dec(x) + ":y="@ + signed_dec(y),
        seq![if k + 1 == n { "vout"@ } else { numbered("tmp"@, k) }],
    )
}

/// The overlay fold over the first `m` of the stacked tracks.
pub open spec fn overlay_chain(tracks: Seq<TrackExport>, order: Seq<usize>, f: OutputFrame, m: nat) -> Seq<SegmentView> {
    Seq::new(
        m,
        |k: int|
            overlay_segment(
                k as nat,
                tracks.len(),
                placed(tracks, order, f, k).2,
                placed(tracks, order, f, k).3,
            ),
    )
}

/// The audio of `n` tracks: mixed when there are several, passed through
/// when there is one.
pub open spec fn mix_segment(n: nat) -> SegmentView {
    (
        Seq::new(n, |k: int| numbered("a"@, k as nat)),
        if n > 1 {
            "amix=inputs="@ + dec(n) + ":duration=longest"@
        } else {
            "anull"@
        },
        seq!["aout"@],
    )
}

/// The whole filter graph of a composite export.
pub open spec fn composite_segments(tracks: Seq<TrackExport>, order: Seq<usize>, f: OutputFrame) -> Seq<SegmentView> {
    seq![background_segment(f)] + Seq::new(
        2 * tracks.len(),
        |j: int| track_segment(tracks, order, f, j),
    ) + overlay_chain(tracks, order, f, tracks.len()) + seq![mix_segment(tracks.len())]
}

/// The overlay fold over `n` tracks is a chain of `n` overlays: the first
/// reads the background, each later one reads what the one before it wrote,
/// and the last writes the video output. With one track the chain is a single
/// overlay from the background to the output, with no intermediate label.
pub proof fn lemma_overlay_fold(tracks: Seq<TrackExport>, order: Seq<usize>, f: OutputFrame)
    requires
        tracks.len() >= 1,
        is_stacking_order(tracks, order),
    ensures
        ({
            let n = tracks.len();
            let chain = overlay_chain(tracks, order, f, n);
            &&& chain.len() == n
            &&& chain[0].0[0] == "bg"@
            &&& forall|k: int| 1 <= k < n ==> (#[trigger] chain[k]).0[0] == chain[k - 1].2[0]
            &&& forall|k: int| 0 <= k < n ==> (#[trigger] chain[k]).0[1] == numbered("v"@, k as nat)
            &&& forall|k: int| 0 <= k < n - 1 ==> (#[trigger] chain[k]).2 == seq![numbered("tmp"@, k as nat)]
            &&& chain[n - 1].2 == seq!["vout"@]
            &&& n == 1 ==> chain[0].0 == seq!["bg"@, numbered("v"@, 0)] && chain[0].2 == seq!["vout"@]
        }),
{
    let n = tracks.len();
    let chain = overlay_chain(tracks, order, f, n);
    assert forall|k: int| 1 <= k < n implies (#[trigger] chain[k]).0[0] == chain[k - 1].2[0] by {
        assert(k - 1 + 1 != n);
    }
}

/// A label made of a prefix and a number.
fn numbered_label(prefix: &str, k: usize) -> (r: String)
    ensures
        r@ == numbered(prefix@, k as nat),
{
    let mut out = text(prefix);
    push_decimal(&mut out, k as u64);
    out
}

/// The pad of one stream of input `k` (`0:v`).
fn stream_pad(k: usize, kind: &str) -> (r: String)
    ensures
        r@ == dec(k as nat) + kind@,
{
    let mut out = String::new();
    push_decimal(&mut out, k as u64);
    out.append(kind);
    out
}

fn single(s: String) -> (r: Vec<String>)
    ensures
        texts(r@) == seq![s@],
{
    let mut v: Vec<String> = Vec::new();
    push_owned(&mut v, s);
    proof {
        assert(texts(v@) =~= seq![s@]);
    }
    v
}

fn background(f: OutputFrame) -> (r: FilterSegment)
    requires
        frame_ok(f),
    ensures
        r@ == background_segment(f),
{
    let mut filter = text("color=c=black:s=");
    push_decimal(&mut filter, f.out_w as u64);
    proof {
        reveal_strlit("x");
    }
    filter.append("x");
    push_decimal(&mut filter, f.out_h as u64);
    filter.append(":d=30");
    let none: Vec<String> = Vec::new();
    proof {
        assert(texts(none@) =~= Seq::<Seq<char>>::empty());
    }
    let r = segment(none, filter, single(text("bg")));
    proof {
        assert(r@ =~= background_segment(f));
    }
    r
}

fn video(k: usize, p: Placement, opacity: u32) -> (r: FilterSegment)
    ensures
        r@ == video_segment(k as nat, (p.width as int, p.height as int, p.x as int, p.y as int), opacity as nat),
{
    let mut filter = text("scale=");
    push_signed(&mut filter, p.width as i64);
    proof {
        reveal_strlit(":");
    }
    filter.append(":");
    push_signed(&mut filter, p.height as i64);
    filter.append(",format=yuva420p,colorchannelmixer=aa=");
    push_thousandths(&mut filter, opacity as u64);
    let r = segment(single(stream_pad(k, ":v")), filter, single(numbered_label("v", k)));
    proof {
        assert(r@ =~= video_segment(k as nat, (p.width as int, p.height as int, p.x as int, p.y as int), opacity as nat));
    }
    r
}

fn audio(k: usize, volume: u32) -> (r: FilterSegment)
    ensures
        r@ == audio_segment(k as nat, volume as nat),
{
    let mut filter = text("volume=");
    push_thousandths(&mut filter, volume as u64);
    let r = segment(single(stream_pad(k, ":a")), filter, single(numbered_label("a", k)));
    proof {
        assert(r@ =~= audio_segment(k as nat, volume as nat));
    }
    r
}

fn overlay(k: usize, n: usize, x: i32, y: i32) -> (r: FilterSegment)
    requires
        k < n,
    ensures
        r@ == overlay_segment(k as nat, n as nat, x as int, y as int),
{
    let mut inputs: Vec<String> = Vec::new();
    if k == 0 {
        push_arg(&mut inputs, "bg");
    } else {
        push_owned(&mut inputs, numbered_label("tmp", k - 1));
    }
    push_owned(&mut inputs, numbered_label("v", k));
    let mut filter = text("overlay=x=");
    push_signed(&mut filter, x as i64);
    filter.append(":y=");
    push_signed(&mut filter, y as i64);
    let out = if k + 1 == n {
        text("vout")
    } else {
        numbered_label("tmp", k)
    };
    let r = segment(inputs, filter, single(out));
    proof {
        assert(r@ =~= overlay_segment(k as nat, n as nat, x as int, y as int));
    }
    r
}

fn mix(n: usize) -> (r: FilterSegment)
    ensures
        r@ == mix_segment(n as nat),
{
    let mut inputs: Vec<String> = Vec::new();
    let mut k: usize = 0;
    while k < n
        invariant
            k <= n,
            texts(inputs@) == Seq::new(k as nat, |i: int| numbered("a"@, i as nat)),
        decreases n - k,
    {
        push_owned(&mut inputs, numbered_label("a", k));
        k = k + 1;
        proof {
            assert(texts(inputs@) =~= Seq::new(k as nat, |i: int| numbered("a"@, i as nat)));
        }
    }
    let filter = if n > 1 {
        let mut f = text("amix=inputs=");
        push_decimal(&mut f, n as u64);
        f.append(":duration=longest");
        f
    } else {
        text("anull")
    };
    let r = segment(inputs, filter, single(text("aout")));
    proof {
        assert(r@ =~= mix_segment(n as nat));
    }
    r
}

/// Builds the filter graph of a composite export: a background, each
/// stacked track scaled and faded with its audio at its volume, the overlay
/// fold, and the audio mix.
pub fn composite_graph(tracks: &Vec<TrackExport>, order: &Vec<usize>, f: OutputFrame) -> (r: Vec<
    FilterSegment,
>)
    requires
        tracks.len() >= 1,
        is_stacking_order(tracks@, order@),
        frame_ok(f),
    ensures
        segment_views(r@) == composite_segments(tracks@, order@, f),
{
    let n = tracks.len();
    let mut segs: Vec<FilterSegment> = Vec::new();
    segs.push(background(f));
    let mut places: Vec<Placement> = Vec::new();
    let mut k: usize = 0;
    proof {
        assert(segment_views(segs@) =~= seq![background_segment(f)] + Seq::new(
            0,
            |j: int| track_segment(tracks@, order@, f, j),
        ));
    }
    while k < n
        invariant
            k <= n,
            n == tracks.len(),
            is_stacking_order(tracks@, order@),
            frame_ok(f),
            places.len() == k,
            forall|i: int|
                0 <= i < k ==> placed(tracks@, order@, f, i) == (
                    (#[trigger] places@[i]).width as int,
                    places@[i].height as int,
                    places@[i].x as int,
                    places@[i].y as int,
                ),
            segment_views(segs@) == seq![background_segment(f)] + Seq::new(
                (2 * k) as nat,
                |j: int| track_segment(tracks@, order@, f, j),
            ),
        decreases n - k,
    {
        let t = &tracks[order[k]];
        let p = place_track(t, f.out_w, f.out_h, f.canvas_w, f.canvas_h);
        places.push(p);
        let vs = video(k, p, t.opacity_milli);
        let au = audio(k, t.volume_milli);
        let ghost s0 = segs@;
        proof {
            lemma_segment_views_push(s0, vs);
            lemma_segment_views_push(s0.push(vs), au);
            assert((2 * k) / 2 == k);
            assert((2 * k + 1) / 2 == k);
            assert((2 * k) % 2 == 0);
            assert((2 * k + 1) % 2 == 1);
            assert(vs@ == track_segment(tracks@, order@, f, 2 * k as int));
            assert(au@ == track_segment(tracks@, order@, f, 2 * k + 1));
        }
        segs.push(vs);
        segs.push(au);
        proof {
            assert(segment_views(segs@) =~= seq![background_segment(f)] + Seq::new(
                (2 * (k + 1)) as nat,
                |j: int| track_segment(tracks@, order@, f, j),
            ));
        }
        k = k + 1;
    }
    let ghost front = segment_views(segs@);
    let mut m: usize = 0;
    while m < n
        invariant
            m <= n,
            n == tracks.len(),
            places.len() == n,
            forall|i: int|
                0 <= i < n ==> placed(tracks@, order@, f, i) == (
                    (#[trigger] places@[i]).width as int,
                    places@[i].height as int,
                    places@[i].x as int,
                    places@[i].y as int,
                ),
            segment_views(segs@) == front + overlay_chain(tracks@, order@, f, m as nat),
        decreases n - m,
    {
        let ov = overlay(m, n, places[m].x, places[m].y);
        proof {
            lemma_segment_views_push(segs@, ov);
            assert(ov@ == overlay_chain(tracks@, order@, f, (m + 1) as nat)[m as int]);
        }
        segs.push(ov);
        m = m + 1;
        proof {
            assert(segment_views(segs@) =~= front + overlay_chain(tracks@, order@, f, m as nat));
        }
    }
    let mx = mix(n);
    proof {
        lemma_segment_views_push(segs@, mx);
    }
    segs.push(mx);
    proof {
        assert(segment_views(segs@) =~= composite_segments(tracks@, order@, f));
    }
    segs
}

/// The input arguments: `-i <path>` for each track from the bottom up.
pub open spec fn input_arguments(tracks: Seq<TrackExport>, order: Seq<usize>) -> Seq<Seq<char>> {
    Seq::new(
        2 * tracks.len(),
        |j: int|
            if j % 2 == 0 {
                "-i"@
            } else {
                tracks[order[j / 2] as int].path@
            },
    )
}

/// The full argument list of a composite export.
pub open spec fn composite_arguments(
    output: Seq<char>,
    tracks: Seq<TrackExport>,
    order: Seq<usize>,
    f: OutputFrame,
    t: ResolutionTier,
) -> Seq<Seq<char>> {
    seq!["-y"@] + input_arguments(tracks, order) + seq![
        "-filter_complex"@,
        graph_text(composite_segments(tracks, order, f)),
        "-map"@,
        "[vout]"@,
        "-map"@,
        "[aout]"@,
        "-c:v"@,
        "libx264"@,
        "-preset"@,
        "fast"@,
        "-b:v"@,
        bitrate_text(t),
        "-c:a"@,
        "aac"@,
        "-b:a"@,
        "192k"@,
        "-pix_fmt"@,
        "yuv420p"@,
        output,
    ]
}

/// The output frame of a tier over a canvas: the tier's fixed size, or the
/// canvas itself for `source`.
pub open spec fn frame_for(t: ResolutionTier, cw: i32, ch: i32) -> OutputFrame {
    match fixed_size(t) {
        Some((w, h)) => OutputFrame { out_w: w as i32, out_h: h as i32, canvas_w: cw, canvas_h: ch },
        None => OutputFrame { out_w: cw, out_h: ch, canvas_w: cw, canvas_h: ch },
    }
}

/// Every track's opacity and volume lie within `[0, 1]`.
pub open spec fn tracks_ok(tracks: Seq<TrackExport>) -> bool {
    forall|i: int|
        0 <= i < tracks.len() ==> (#[trigger] tracks[i]).opacity_milli <= 1000
            && tracks[i].volume_milli <= 1000
}

/// Arguments of a composite export of `tracks`, laid out on a
/// `canvas_w`×`canvas_h` canvas, into `output`. Checked in this order before
/// any filter text is built: an empty track list, the tier name, the canvas
/// size, each track's opacity and volume.
pub fn composite_args(
    output: &str,
    tracks: &Vec<TrackExport>,
    canvas_w: i32,
    canvas_h: i32,
    tier: Option<&str>,
) -> (r: Result<Vec<String>, ValidationError>)
    ensures
        tracks.len() == 0 ==> r == Err::<Vec<String>, ValidationError>(ValidationError::NoTracks),
        tracks.len() > 0 ==> match tier_selected(name_view(tier)) {
            None => r is Err && reports_invalid_resolution(r->Err_0, tier->Some_0@),
            Some(t) => if canvas_w <= 0 || canvas_h <= 0 {
                r == Err::<Vec<String>, ValidationError>(ValidationError::InvalidCanvas)
            } else if !tracks_ok(tracks@) {
                r == Err::<Vec<String>, ValidationError>(ValidationError::InvalidTrack)
            } else {
                r is Ok && exists|order: Seq<usize>|
                    is_stacking_order(tracks@, order) && texts(r->Ok_0@) == composite_arguments(
                        output@,
                        tracks@,
                        order,
                        frame_for(t, canvas_w, canvas_h),
                        t,
                    )
            },
        },
{
    if tracks.len() == 0 {
        return Err(ValidationError::NoTracks);
    }
    let t = match parse_tier(tier) {
        Ok(t) => t,
        Err(e) => return Err(e),
    };
    if canvas_w <= 0 || canvas_h <= 0 {
        return Err(ValidationError::InvalidCanvas);
    }
    let mut i: usize = 0;
    while i < tracks.len()
        invariant
            i <= tracks.len(),
            tracks.len() > 0,
            canvas_w > 0 && canvas_h > 0,
            tier_selected(name_view(tier)) == Some(t),
            forall|j: int|
                0 <= j < i ==> (#[trigger] tracks@[j]).opacity_milli <= 1000
                    && tracks@[j].volume_milli <= 1000,
        decreases tracks.len() - i,
    {
        if tracks[i].opacity_milli > 1000 || tracks[i].volume_milli > 1000 {
            proof {
                let bad = tracks@[i as int];
                assert(!(bad.opacity_milli <= 1000 && bad.volume_milli <= 1000));
                assert(!tracks_ok(tracks@));
            }
            return Err(ValidationError::InvalidTrack);
        }
        i = i + 1;
    }
    let f = match t.fixed_size() {
        Some((w, h)) => OutputFrame { out_w: w as i32, out_h: h as i32, canvas_w, canvas_h },
        None => OutputFrame { out_w: canvas_w, out_h: canvas_h, canvas_w, canvas_h },
    };
    let order = stacking_order(tracks);
    let graph = composite_graph(tracks, &order, f);
    let mut args: Vec<String> = Vec::new();
    push_arg(&mut args, "-y");
    let mut k: usize = 0;
    while k < tracks.len()
        invariant
            k <= tracks.len(),
            is_stacking_order(tracks@, order@),
            texts(args@) == seq!["-y"@] + Seq::new(
                (2 * k) as nat,
                |j: int|
                    if j % 2 == 0 {
                        "-i"@
                    } else {
                        tracks@[order@[j / 2] as int].path@
                    },
            ),
        decreases tracks.len() - k,
    {
        push_arg(&mut args, "-i");
        push_arg(&mut args, tracks[order[k]].path.as_str());
        proof {
            assert((2 * k) % 2 == 0 && (2 * k + 1) % 2 == 1 && (2 * k + 1) / 2 == k);
        }
        k = k + 1;
        proof {
            assert(texts(args@) =~= seq!["-y"@] + Seq::new(
                (2 * k) as nat,
                |j: int|
                    if j % 2 == 0 {
                        "-i"@
                    } else {
                        tracks@[order@[j / 2] as int].path@
                    },
            ));
        }
    }
    push_arg(&mut args, "-filter_complex");
    push_owned(&mut args, render_graph(&graph));
    push_arg(&mut args, "-map");
    push_arg(&mut args, "[vout]");
    push_arg(&mut args, "-map");
    push_arg(&mut args, "[aout]");
    push_arg(&mut args, "-c:v");
    push_arg(&mut args, "libx264");
    push_arg(&mut args, "-preset");
    push_arg(&mut args, "fast");
    push_arg(&mut args, "-b:v");
    push_owned(&mut args, t.bitrate_text());
    push_arg(&mut args, "-c:a");
    push_arg(&mut args, "aac");
    push_arg(&mut args, "-b:a");
    push_arg(&mut args, "192k");
    push_arg(&mut args, "-pix_fmt");
    push_arg(&mut args, "yuv420p");
    push_arg(&mut args, output);
    proof {
        assert(f == frame_for(t, canvas_w, canvas_h));
        assert(texts(args@) =~= composite_arguments(output@, tracks@, order@, f, t));
    }
    Ok(args)
}

} // verus!

//! Filter graphs as lists of segments with labelled pads, rendered to the
//! engine's textual notation only at the end.
use vstd::prelude::*;

use crate::text::{joined, texts};

verus! {

/// One filter of a graph: the pads it reads, its filter text, the pads it writes.
pub struct FilterSegment {
    pub inputs: Vec<String>,
    pub filter: String,
    pub outputs: Vec<String>,
}

/// What a segment holds: input labels, filter text, output labels.
pub type SegmentView = (Seq<Seq<char>>, Seq<char>, Seq<Seq<char>>);

impl View for FilterSegment {
    type V = SegmentView;

    open spec fn view(&self) -> SegmentView {
        (texts(self.inputs@), self.filter@, texts(self.outputs@))
    }
}

/// The views of a list of segments.
pub open spec fn segment_views(s: Seq<FilterSegment>) -> Seq<SegmentView> {
    s.map_values(|x: FilterSegment| x@)
}

pub proof fn lemma_segment_views_push(s: Seq<FilterSegment>, x: FilterSegment)
    ensures
        segment_views(s.push(x)) == segment_views(s).push(x@),
{
    assert(segment_views(s.push(x)) =~= segment_views(s).push(x@));
}

/// Labels written as pads: `[a][b]`.
pub open spec fn pads_text(labels: Seq<Seq<char>>) -> Seq<char>
    decreases labels.len(),
{
    if labels.len() == 0 {
        Seq::empty()
    } else {
        pads_text(labels.drop_last()) + seq!['['] + labels.last() + seq![']']
    }
}

/// A segment in the engine's notation: `[in]filter[out]`.
pub open spec fn segment_text(s: SegmentView) -> Seq<char> {
    pads_text(s.0) + s.1 + pads_text(s.2)
}

/// A graph in the engine's notation: its segments, separated by `;`.
pub open spec fn graph_text(segments: Seq<SegmentView>) -> Seq<char> {
    joined(segments.map_values(|s: SegmentView| segment_text(s)), seq![';'])
}

/// Builds a segment from its parts.
pub fn segment(inputs: Vec<String>, filter: String, outputs: Vec<String>) -> (r: FilterSegment)
    ensures
        r@ == (texts(inputs@), filter@, texts(outputs@)),
{
    FilterSegment { inputs, filter, outputs }
}

/// Appends labels as pads.
pub fn push_pads(out: &mut String, labels: &Vec<String>)
    ensures
        final(out)@ == old(out)@ + pads_text(texts(labels@)),
{
    let ghost start = out@;
    let mut i: usize = 0;
    proof {
        assert(texts(labels@).take(0) =~= Seq::<Seq<char>>::empty());
    }
    while i < labels.len()
        invariant
            i <= labels.len(),
            out@ == start + pads_text(texts(labels@).take(i as int)),
        decreases labels.len() - i,
    {
        proof {
            reveal_strlit("[");
            reveal_strlit("]");
        }
        out.append("[");
        out.append(labels[i].as_str());
        out.append("]");
        proof {
            let t = texts(labels@).take(i + 1);
            assert(t.drop_last() =~= texts(labels@).take(i as int));
            assert(t.last() == labels@[i as int]@);
        }
        i = i + 1;
        proof {
            assert(out@ =~= start + pads_text(texts(labels@).take(i as int)));
        }
    }
    proof {
        assert(texts(labels@).take(i as int) =~= texts(labels@));
    }
}

/// Writes a graph in the engine's notation.
pub fn render_graph(segments: &Vec<FilterSegment>) -> (r: String)
    ensures
        r@ == graph_text(segment_views(segments@)),
{
    let ghost all = segment_views(segments@).map_values(|s: SegmentView| segment_text(s));
    let mut out = String::new();
    let mut i: usize = 0;
    proof {
        assert(all.take(0) =~= Seq::<Seq<char>>::empty());
    }
    while i < segments.len()
        invariant
            i <= segments.len(),
            all == segment_views(segments@).map_values(|s: SegmentView| segment_text(s)),
            out@ == joined(all.take(i as int), seq![';']),
        decreases segments.len() - i,
    {
        if i > 0 {
            proof {
                reveal_strlit(";");
            }
            out.append(";");
        }
        let s = &segments[i];
        push_pads(&mut out, &s.inputs);
        out.append(s.filter.as_str());
        push_pads(&mut out, &s.outputs);
        proof {
            let t = all.take(i + 1);
            assert(t.drop_last() =~= all.take(i as int));
            assert(t.last() == segment_text(segments@[i as int]@));
            assert(segments@[i as int]@ == segment_views(segments@)[i as int]);
            if i == 0 {
                assert(t.len() == 1);
                assert(out@ =~= t[0]);
            } else {
                assert(out@ =~= joined(t.drop_last(), seq![';']) + seq![';'] + t.last());
            }
        }
        i = i + 1;
    }
    proof {
        assert(all.take(i as int) =~= all);
    }
    out
}

} // verus!

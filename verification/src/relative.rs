//! Relative paths: parent references first, then names.

use vstd::prelude::*;
use crate::component::{is_name, DOT};

verus! {

/// A segment as contracts see it.
pub enum SegmentView {
    ParentRef,
    Named(Seq<u8>),
}

/// One segment of a relative path: a step up to the parent directory (`..`),
/// or a step down into the directory or file of that name.
#[derive(Debug, PartialEq, Eq)]
pub enum RelativeSegment {
    ParentRef,
    Named(Vec<u8>),
}

impl View for RelativeSegment {
    type V = SegmentView;

    open spec fn view(&self) -> SegmentView {
        match self {
            RelativeSegment::ParentRef => SegmentView::ParentRef,
            RelativeSegment::Named(name) => SegmentView::Named(name@),
        }
    }
}

impl Clone for RelativeSegment {
    fn clone(&self) -> (r: Self)
        ensures
            r@ == self@,
    {
        match self {
            RelativeSegment::ParentRef => RelativeSegment::ParentRef,
            RelativeSegment::Named(name) => RelativeSegment::Named(name.clone()),
        }
    }
}

/// The views of a run of segments, in order.
pub open spec fn segment_views(segments: Seq<RelativeSegment>) -> Seq<SegmentView> {
    segments.map_values(|s: RelativeSegment| s@)
}

/// What makes a run of segments a relative path: every parent reference
/// stands before every name, and every name is a proper name.
pub open spec fn is_relative(segments: Seq<SegmentView>) -> bool {
    &&& forall|i: int, j: int|
        0 <= i < j < segments.len() && segments[j] is ParentRef ==> segments[i] is ParentRef
    &&& forall|i: int|
        0 <= i < segments.len() ==> (#[trigger] segments[i] matches SegmentView::Named(name)
            ==> is_name(name))
}

/// The text of one segment: `..` for a parent reference, else the name.
pub open spec fn segment_text(segment: SegmentView) -> Seq<u8> {
    match segment {
        SegmentView::ParentRef => seq![DOT, DOT],
        SegmentView::Named(name) => name,
    }
}

/// The segments as path text: their texts in order, with `separator`
/// between each two. No segments give no text.
pub open spec fn rendered(segments: Seq<SegmentView>, separator: u8) -> Seq<u8>
    decreases segments.len(),
{
    if segments.len() == 0 {
        Seq::empty()
    } else if segments.len() == 1 {
        segment_text(segments[0])
    } else {
        rendered(segments.drop_last(), separator).push(separator) + segment_text(segments.last())
    }
}

/// The way from one directory to a file or directory elsewhere under the same
/// root: up to their deepest common ancestor, then down. `is_relative` holds
/// of every value. The empty path stays where it is.
#[derive(Debug, PartialEq, Eq)]
pub struct RelativePath {
    segments: Vec<RelativeSegment>,
}

impl View for RelativePath {
    type V = Seq<SegmentView>;

    closed spec fn view(&self) -> Seq<SegmentView> {
        segment_views(self.segments@)
    }
}

impl Clone for RelativePath {
    fn clone(&self) -> (r: Self)
        ensures
            r@ == self@,
    {
        proof {
            use_type_invariant(self);
        }
        let segments = self.segments.clone();
        assert(segment_views(segments@) =~= segment_views(self.segments@));
        RelativePath { segments }
    }
}

impl RelativePath {
    /// What holds of every relative path.
    #[verifier::type_invariant]
    pub open spec fn well_formed(self) -> bool {
        is_relative(self@)
    }

    /// The relative path made of `segments`, which the caller has shown to
    /// form one.
    pub(crate) fn from_valid(segments: Vec<RelativeSegment>) -> (r: RelativePath)
        requires
            is_relative(segment_views(segments@)),
        ensures
            r@ == segment_views(segments@),
    {
        RelativePath { segments }
    }

    /// The segments, in the order in which they are walked.
    pub fn segments(&self) -> (r: &Vec<RelativeSegment>)
        ensures
            segment_views(r@) == self@,
            is_relative(self@),
    {
        proof {
            use_type_invariant(self);
        }
        &self.segments
    }

    /// The path as text, its segments joined by `separator`.
    ///
    /// The empty path gives the empty text: what stands for the current
    /// directory where text is needed is the caller's choice.
    pub fn render(&self, separator: u8) -> (r: Vec<u8>)
        ensures
            r@ == rendered(self@, separator),
    {
        let mut text: Vec<u8> = Vec::new();
        let mut i: usize = 0;
        while i < self.segments.len()
            invariant
                i <= self.segments.len(),
                text@ == rendered(self@.take(i as int), separator),
            decreases self.segments.len() - i,
        {
            let ghost upto = self@.take(i + 1);
            assert(upto.drop_last() =~= self@.take(i as int));
            if i > 0 {
                text.push(separator);
            }
            match &self.segments[i] {
                RelativeSegment::ParentRef => {
                    text.push(DOT);
                    text.push(DOT);
                },
                RelativeSegment::Named(name) => {
                    text.extend_from_slice(name.as_slice());
                },
            }
            i += 1;
        }
        assert(self@.take(self.segments.len() as int) =~= self@);
        text
    }

    /// Whether the path has no segment: base and target are the same place.
    pub fn is_empty(&self) -> (r: bool)
        ensures
            r == (self@.len() == 0),
    {
        self.segments.len() == 0
    }
}

} // verus!

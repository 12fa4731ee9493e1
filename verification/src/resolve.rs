//! The relative path from a base directory to a target.

use vstd::prelude::*;
use crate::absolute::{is_absolute, AbsolutePath};
use crate::component::{component_views, is_name, ComponentView};
use crate::error::{ResolutionFailure, ResolveError};
use crate::relative::{is_relative, segment_views, RelativePath, RelativeSegment, SegmentView};

verus! {

/// How many positions in a row, from position `from` on, hold the same
/// component in `a` and in `b`.
pub open spec fn agreement(a: Seq<ComponentView>, b: Seq<ComponentView>, from: int) -> nat
    decreases a.len() - from,
{
    if 0 <= from < a.len() && from < b.len() && a[from] == b[from] {
        1 + agreement(a, b, from + 1)
    } else {
        0
    }
}

/// The number of components of the deepest common ancestor of two paths,
/// its root marker counted: the walk starts behind the root markers, which
/// are the guard's business, and stops at the first position where the paths
/// differ or one of them ends.
pub open spec fn common_depth(a: Seq<ComponentView>, b: Seq<ComponentView>) -> nat {
    1 + agreement(a, b, 1)
}

/// `count` parent references.
pub open spec fn ascent(count: nat) -> Seq<SegmentView> {
    Seq::new(count, |i: int| SegmentView::ParentRef)
}

/// The components as names to walk down, in their order.
pub open spec fn descent(components: Seq<ComponentView>) -> Seq<SegmentView> {
    components.map_values(|c: ComponentView| SegmentView::Named(c.text()))
}

/// The segments that lead from `base` to `target`: one parent reference for
/// each component of `base` below the common ancestor, then the components
/// of `target` below it.
pub open spec fn relative_segments(
    base: Seq<ComponentView>,
    target: Seq<ComponentView>,
) -> Seq<SegmentView> {
    let depth = common_depth(base, target);
    ascent((base.len() - depth) as nat) + descent(target.skip(depth as int))
}

/// Whether the root guard stops the resolution: it is on, and the two root
/// markers differ.
pub open spec fn roots_disjoint(
    base: Seq<ComponentView>,
    target: Seq<ComponentView>,
    multi_root: bool,
) -> bool {
    multi_root && base[0] != target[0]
}

/// What `common_depth` is, without the walk: the one position within both
/// paths up to which they agree behind the root and at which they do not.
pub proof fn lemma_common_depth(a: Seq<ComponentView>, b: Seq<ComponentView>)
    requires
        a.len() >= 1,
        b.len() >= 1,
    ensures
        1 <= common_depth(a, b) <= a.len(),
        common_depth(a, b) <= b.len(),
        forall|i: int| 1 <= i < common_depth(a, b) ==> a[i] == b[i],
        common_depth(a, b) < a.len() && common_depth(a, b) < b.len() ==> a[common_depth(a, b) as int]
            != b[common_depth(a, b) as int],
{
    lemma_agreement(a, b, 1);
}

/// The same, for a walk that starts at `from`.
proof fn lemma_agreement(a: Seq<ComponentView>, b: Seq<ComponentView>, from: int)
    requires
        0 <= from <= a.len(),
        from <= b.len(),
    ensures
        from + agreement(a, b, from) <= a.len(),
        from + agreement(a, b, from) <= b.len(),
        forall|i: int| from <= i < from + agreement(a, b, from) ==> a[i] == b[i],
        from + agreement(a, b, from) < a.len() && from + agreement(a, b, from) < b.len() ==> a[from
            + agreement(a, b, from)] != b[from + agreement(a, b, from)],
    decreases a.len() - from,
{
    if from < a.len() && from < b.len() && a[from] == b[from] {
        lemma_agreement(a, b, from + 1);
    }
}

/// A position that does what `lemma_common_depth` says is the common depth.
pub proof fn lemma_common_depth_is(a: Seq<ComponentView>, b: Seq<ComponentView>, depth: int)
    requires
        1 <= depth <= a.len(),
        depth <= b.len(),
        forall|i: int| 1 <= i < depth ==> a[i] == b[i],
        depth < a.len() && depth < b.len() ==> a[depth] != b[depth],
    ensures
        common_depth(a, b) == depth,
{
    lemma_agreement_is(a, b, 1, depth);
}

/// The same, for a walk that starts at `from` and stops at `stop`.
proof fn lemma_agreement_is(a: Seq<ComponentView>, b: Seq<ComponentView>, from: int, stop: int)
    requires
        0 <= from <= stop <= a.len(),
        stop <= b.len(),
        forall|i: int| from <= i < stop ==> a[i] == b[i],
        stop < a.len() && stop < b.len() ==> a[stop] != b[stop],
    ensures
        from + agreement(a, b, from) == stop,
    decreases stop - from,
{
    if from < stop {
        lemma_agreement_is(a, b, from + 1, stop);
    }
}

/// What `relative_segments` gives between two absolute paths is a relative
/// path.
pub proof fn lemma_relative_segments_form_a_path(a: Seq<ComponentView>, b: Seq<ComponentView>)
    requires
        is_absolute(a),
        is_absolute(b),
    ensures
        is_relative(relative_segments(a, b)),
{
    lemma_common_depth(a, b);
    let depth = common_depth(a, b) as int;
    let up = ascent((a.len() - depth) as nat);
    let down = descent(b.skip(depth));
    let all = relative_segments(a, b);
    assert forall|i: int| 0 <= i < all.len() implies (#[trigger] all[i] matches SegmentView::Named(
        name,
    ) ==> is_name(name)) by {
        if i >= up.len() {
            assert(all[i] == down[i - up.len()]);
        }
    }
    assert forall|i: int, j: int| 0 <= i < j < all.len() && all[j] is ParentRef implies all[i]
        is ParentRef by {
        if j >= up.len() {
            assert(all[j] == down[j - up.len()]);
        }
    }
}

impl AbsolutePath {
    /// The number of components that the two paths share from the top, the
    /// root marker counted.
    pub fn common_depth(&self, other: &AbsolutePath) -> (r: usize)
        ensures
            r == common_depth(self@, other@),
            1 <= r <= self@.len(),
            r <= other@.len(),
    {
        let a = self.components();
        let b = other.components();
        let mut i: usize = 1;
        while i < a.len() && i < b.len() && a[i].same_as(&b[i])
            invariant
                1 <= i <= a.len(),
                i <= b.len(),
                component_views(a@) == self@,
                component_views(b@) == other@,
                i + agreement(self@, other@, i as int) == common_depth(self@, other@),
            decreases a.len() - i,
        {
            i += 1;
        }
        i
    }
}

/// The relative path that leads from the directory `base` to `target`.
///
/// `multi_root` says whether the platform has several roots that no relative
/// path can bridge (drive letters). Where it has, two paths with different
/// root markers have no relative path between them, and the call fails with
/// `DisjointRoots`. Where it has not, the root markers are not looked at: all
/// paths are taken to hang from the one root.
///
/// Otherwise the result climbs from `base` to the deepest ancestor that the
/// two paths share, and goes down from there to `target`. It is empty when
/// the two paths are the same.
pub fn resolve(base: &AbsolutePath, target: &AbsolutePath, multi_root: bool) -> (r: Result<
    RelativePath,
    ResolveError,
>)
    ensures
        match r {
            Ok(path) => !roots_disjoint(base@, target@, multi_root) && path@ == relative_segments(
                base@,
                target@,
            ),
            Err(e) => e is DisjointRoots && roots_disjoint(base@, target@, multi_root),
        },
{
    let from = base.components();
    let to = target.components();
    if multi_root && !from[0].same_as(&to[0]) {
        return Err(ResolveError::DisjointRoots);
    }
    let depth = base.common_depth(target);
    let climb: usize = from.len() - depth;
    let mut segments: Vec<RelativeSegment> = Vec::new();
    let mut i: usize = 0;
    while i < climb
        invariant
            i <= climb,
            segments@.len() == i,
            forall|k: int| 0 <= k < i ==> segments@[k]@ is ParentRef,
        decreases climb - i,
    {
        segments.push(RelativeSegment::ParentRef);
        i += 1;
    }
    let mut j: usize = depth;
    while j < to.len()
        invariant
            depth <= j <= to.len(),
            component_views(to@) == target@,
            segments@.len() == climb + (j - depth),
            forall|k: int| 0 <= k < climb ==> segments@[k]@ is ParentRef,
            forall|k: int|
                depth <= k < j ==> segments@[climb + (k - depth)]@ == SegmentView::Named(
                    target@[k].text(),
                ),
        decreases to.len() - j,
    {
        let name = to[j].text().clone();
        segments.push(RelativeSegment::Named(name));
        j += 1;
    }
    proof {
        let wanted = relative_segments(base@, target@);
        assert forall|k: int| 0 <= k < wanted.len() implies segment_views(segments@)[k]
            == wanted[k] by {
            if k >= climb {
                assert(segments@[climb + ((k - climb + depth) - depth)]@ == SegmentView::Named(
                    target@[k - climb + depth].text(),
                ));
            }
        }
        assert(segment_views(segments@) =~= wanted);
        lemma_relative_segments_form_a_path(base@, target@);
    }
    Ok(RelativePath::from_valid(segments))
}

/// The relative path between two paths of which each was first asked for its
/// absolute form: `base` and `target` are what came of that.
///
/// Where `base` has no absolute form, its failure is the result, unchanged;
/// else where `target` has none, that of `target`. Where both have one, the
/// two are resolved with the root guard on: on a host with a single root all
/// absolute forms have the same root marker, and the guard never fires.
pub fn resolve_outcomes(
    base: Result<AbsolutePath, ResolutionFailure>,
    target: Result<AbsolutePath, ResolutionFailure>,
) -> (r: Result<RelativePath, ResolveError>)
    ensures
        match (base, target) {
            (Err(failure), _) => r matches Err(ResolveError::ResolutionFailure(f)) && f
                == failure,
            (Ok(_), Err(failure)) => r matches Err(ResolveError::ResolutionFailure(f)) && f
                == failure,
            (Ok(from), Ok(to)) => match r {
                Ok(path) => from@[0] == to@[0] && path@ == relative_segments(from@, to@),
                Err(e) => e is DisjointRoots && from@[0] != to@[0],
            },
        },
{
    match base {
        Err(failure) => Err(ResolveError::ResolutionFailure(failure)),
        Ok(from) => match target {
            Err(failure) => Err(ResolveError::ResolutionFailure(failure)),
            Ok(to) => resolve(&from, &to, true),
        },
    }
}

} // verus!

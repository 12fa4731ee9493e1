//! Walking a relative path from an absolute one.

use vstd::prelude::*;
use crate::absolute::{is_absolute, AbsolutePath};
use crate::component::{component_views, is_name, ComponentView, PathComponent};
use crate::relative::{is_relative, segment_views, RelativePath, RelativeSegment, SegmentView};

verus! {

/// Where one segment leads from `path`: a parent reference leaves the last
/// name behind, and stays at the root where no name is left; a name is
/// entered.
pub open spec fn step(path: Seq<ComponentView>, segment: SegmentView) -> Seq<ComponentView> {
    match segment {
        SegmentView::ParentRef => if path.len() > 1 {
            path.drop_last()
        } else {
            path
        },
        SegmentView::Named(name) => path.push(ComponentView::Named(name)),
    }
}

/// Where `relative` leads from `path`, one segment after the other: the two
/// joined, and the parent references then resolved against the names before
/// them.
pub open spec fn follow(path: Seq<ComponentView>, relative: Seq<SegmentView>) -> Seq<
    ComponentView,
>
    decreases relative.len(),
{
    if relative.len() == 0 {
        path
    } else {
        follow(step(path, relative[0]), relative.skip(1))
    }
}

/// Walking a relative path from an absolute path ends at an absolute path.
pub proof fn lemma_follow_stays_absolute(path: Seq<ComponentView>, relative: Seq<SegmentView>)
    requires
        is_absolute(path),
        is_relative(relative),
    ensures
        is_absolute(follow(path, relative)),
    decreases relative.len(),
{
    if relative.len() > 0 {
        let rest = relative.skip(1);
        assert forall|i: int, j: int|
            0 <= i < j < rest.len() && rest[j] is ParentRef implies rest[i] is ParentRef by {
            assert(rest[i] == relative[i + 1] && rest[j] == relative[j + 1]);
        }
        assert forall|i: int| 0 <= i < rest.len() implies (#[trigger] rest[i]
            matches SegmentView::Named(name) ==> is_name(name)) by {
            assert(rest[i] == relative[i + 1]);
        }
        lemma_follow_stays_absolute(step(path, relative[0]), rest);
    }
}

/// Walking two relative paths in a row is walking them joined.
pub proof fn lemma_follow_in_two(
    path: Seq<ComponentView>,
    first: Seq<SegmentView>,
    second: Seq<SegmentView>,
)
    ensures
        follow(path, first + second) == follow(follow(path, first), second),
    decreases first.len(),
{
    if first.len() == 0 {
        assert(first + second =~= second);
    } else {
        assert((first + second).skip(1) =~= first.skip(1) + second);
        lemma_follow_in_two(step(path, first[0]), first.skip(1), second);
    }
}

impl AbsolutePath {
    /// The absolute path at which `relative` ends when walked from this one.
    pub fn join(&self, relative: &RelativePath) -> (r: AbsolutePath)
        ensures
            r@ == follow(self@, relative@),
    {
        let segments = relative.segments();
        let mut components: Vec<PathComponent> = self.components().clone();
        assert(component_views(components@) =~= self@);
        assert(relative@.skip(0) =~= relative@);
        let mut i: usize = 0;
        while i < segments.len()
            invariant
                i <= segments.len(),
                segment_views(segments@) == relative@,
                components@.len() >= 1,
                follow(component_views(components@), relative@.skip(i as int)) == follow(
                    self@,
                    relative@,
                ),
            decreases segments.len() - i,
        {
            let ghost before = component_views(components@);
            let ghost rest = relative@.skip(i as int);
            assert(rest.skip(1) =~= relative@.skip(i + 1));
            match &segments[i] {
                RelativeSegment::ParentRef => {
                    if components.len() > 1 {
                        components.pop();
                    }
                },
                RelativeSegment::Named(name) => {
                    components.push(PathComponent::Named(name.clone()));
                },
            }
            assert(component_views(components@) =~= step(before, rest[0]));
            i += 1;
        }
        proof {
            lemma_follow_stays_absolute(self@, relative@);
        }
        AbsolutePath::from_valid(components)
    }
}

} // verus!

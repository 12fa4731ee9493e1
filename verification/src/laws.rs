//! What holds of every resolution.

use vstd::prelude::*;
use crate::absolute::is_absolute;
use crate::component::ComponentView;
use crate::join::{follow, lemma_follow_in_two};
use crate::relative::SegmentView;
use crate::resolve::{
    ascent, common_depth, descent, lemma_common_depth, lemma_common_depth_is, relative_segments,
    roots_disjoint,
};

verus! {

/// Climbing `count` levels from a path with more names than that leaves its
/// first components.
proof fn lemma_follow_ascent(path: Seq<ComponentView>, count: nat)
    requires
        count < path.len(),
    ensures
        follow(path, ascent(count)) == path.take(path.len() - count),
    decreases count,
{
    if count == 0 {
        assert(path.take(path.len() as int) =~= path);
    } else {
        assert(ascent(count).skip(1) =~= ascent((count - 1) as nat));
        lemma_follow_ascent(path.drop_last(), (count - 1) as nat);
        assert(path.drop_last().take(path.len() - count) =~= path.take(path.len() - count));
    }
}

/// Walking down along names appends them.
proof fn lemma_follow_descent(path: Seq<ComponentView>, names: Seq<ComponentView>)
    requires
        forall|i: int| 0 <= i < names.len() ==> names[i] is Named,
    ensures
        follow(path, descent(names)) == path + names,
    decreases names.len(),
{
    if names.len() == 0 {
        assert(path + names =~= path);
    } else {
        assert(descent(names).skip(1) =~= descent(names.skip(1)));
        lemma_follow_descent(path.push(names[0]), names.skip(1));
        assert(path.push(names[0]) + names.skip(1) =~= path + names);
    }
}

/// Round trip: for absolute paths `base` and `target` under the same root,
/// walking from `base` along the relative path that leads to `target` ends
/// at `target`.
pub proof fn law_round_trip(base: Seq<ComponentView>, target: Seq<ComponentView>)
    requires
        is_absolute(base),
        is_absolute(target),
        base[0] == target[0],
    ensures
        follow(base, relative_segments(base, target)) == target,
{
    lemma_common_depth(base, target);
    let depth = common_depth(base, target) as int;
    let up = ascent((base.len() - depth) as nat);
    let below = target.skip(depth);
    lemma_follow_in_two(base, up, descent(below));
    lemma_follow_ascent(base, (base.len() - depth) as nat);
    lemma_follow_descent(base.take(depth), below);
    assert(base.take(depth) =~= target.take(depth));
    assert(target.take(depth) + below =~= target);
}

/// Identity: the relative path from an absolute path to itself is empty,
/// with the root guard on or off.
pub proof fn law_identity(path: Seq<ComponentView>, multi_root: bool)
    requires
        is_absolute(path),
    ensures
        !roots_disjoint(path, path, multi_root),
        relative_segments(path, path) == Seq::<SegmentView>::empty(),
{
    lemma_common_depth_is(path, path, path.len() as int);
}

/// Ancestor: where `target` lies strictly below `base`, the relative path
/// holds no parent reference, and is exactly the names by which `target`
/// extends `base`, in their order.
pub proof fn law_ancestor(
    base: Seq<ComponentView>,
    target: Seq<ComponentView>,
    multi_root: bool,
)
    requires
        is_absolute(base),
        is_absolute(target),
        base.len() < target.len(),
        target.take(base.len() as int) == base,
    ensures
        !roots_disjoint(base, target, multi_root),
        relative_segments(base, target) == descent(target.skip(base.len() as int)),
        relative_segments(base, target).len() == target.len() - base.len(),
        forall|i: int|
            0 <= i < target.len() - base.len() ==> relative_segments(base, target)[i]
                == SegmentView::Named(target[base.len() + i].text()),
{
    assert forall|i: int| 0 <= i < base.len() implies base[i] == target[i] by {
        assert(target.take(base.len() as int)[i] == target[i]);
    }
    lemma_common_depth_is(base, target, base.len() as int);
}

/// Ascendant: where `base` lies strictly below `target`, the relative path
/// holds no name, and one parent reference for each component by which
/// `base` is deeper than `target`, their common ancestor.
pub proof fn law_ascendant(
    base: Seq<ComponentView>,
    target: Seq<ComponentView>,
    multi_root: bool,
)
    requires
        is_absolute(base),
        is_absolute(target),
        target.len() < base.len(),
        base.take(target.len() as int) == target,
    ensures
        !roots_disjoint(base, target, multi_root),
        common_depth(base, target) == target.len(),
        relative_segments(base, target) == ascent((base.len() - target.len()) as nat),
        relative_segments(base, target).len() == base.len() - target.len(),
        forall|i: int|
            0 <= i < base.len() - target.len() ==> relative_segments(base, target)[i]
                is ParentRef,
{
    assert forall|i: int| 0 <= i < target.len() implies base[i] == target[i] by {
        assert(base.take(target.len() as int)[i] == base[i]);
    }
    lemma_common_depth_is(base, target, target.len() as int);
}

} // verus!

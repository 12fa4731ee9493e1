//! Absolute paths: a root marker followed by names.

use vstd::prelude::*;
use crate::component::{component_views, is_name, is_valid_name, ComponentView, PathComponent};

verus! {

/// What makes a run of components an absolute path: it begins with its one
/// root marker, and every component after that is a proper name.
pub open spec fn is_absolute(components: Seq<ComponentView>) -> bool {
    &&& components.len() >= 1
    &&& components[0] is Root
    &&& forall|i: int|
        1 <= i < components.len() ==> (#[trigger] components[i] matches ComponentView::Named(name)
            && is_name(name))
}

/// An absolute path, already normalised: `is_absolute` holds of every value.
#[derive(Debug, PartialEq, Eq)]
pub struct AbsolutePath {
    components: Vec<PathComponent>,
}

impl View for AbsolutePath {
    type V = Seq<ComponentView>;

    closed spec fn view(&self) -> Seq<ComponentView> {
        component_views(self.components@)
    }
}

impl Clone for AbsolutePath {
    fn clone(&self) -> (r: Self)
        ensures
            r@ == self@,
    {
        proof {
            use_type_invariant(self);
        }
        let components = self.components.clone();
        assert(component_views(components@) =~= component_views(self.components@));
        AbsolutePath { components }
    }
}

impl AbsolutePath {
    /// What holds of every absolute path.
    #[verifier::type_invariant]
    pub open spec fn well_formed(self) -> bool {
        is_absolute(self@)
    }

    /// The path made of `components`, where they form one.
    pub fn from_components(components: Vec<PathComponent>) -> (r: Option<AbsolutePath>)
        ensures
            match r {
                Some(path) => is_absolute(path@) && path@ == component_views(components@),
                None => !is_absolute(component_views(components@)),
            },
    {
        let n: usize = components.len();
        if n == 0 {
            return None;
        }
        match &components[0] {
            PathComponent::Root(_) => {},
            PathComponent::Named(_) => {
                return None;
            },
        }
        let ghost views = component_views(components@);
        let mut i: usize = 1;
        while i < n
            invariant
                1 <= i <= n,
                n == components.len(),
                views == component_views(components@),
                forall|k: int|
                    1 <= k < i ==> (#[trigger] views[k] matches ComponentView::Named(name)
                        && is_name(name)),
            decreases n - i,
        {
            match &components[i] {
                PathComponent::Root(_) => {
                    return None;
                },
                PathComponent::Named(name) => {
                    if !is_valid_name(name) {
                        assert(views[i as int] == ComponentView::Named(name@));
                        return None;
                    }
                },
            }
            i += 1;
        }
        Some(AbsolutePath { components })
    }

    /// The path made of `components`, which the caller has shown to form one.
    pub(crate) fn from_valid(components: Vec<PathComponent>) -> (r: AbsolutePath)
        requires
            is_absolute(component_views(components@)),
        ensures
            r@ == component_views(components@),
    {
        AbsolutePath { components }
    }

    /// The components, root marker first.
    pub fn components(&self) -> (r: &Vec<PathComponent>)
        ensures
            component_views(r@) == self@,
            is_absolute(self@),
    {
        proof {
            use_type_invariant(self);
        }
        &self.components
    }
}

} // verus!

//! The components of an absolute path: one root marker, then names.

use vstd::prelude::*;

verus! {

/// A component as contracts see it: the bytes of a root marker or of a name.
pub enum ComponentView {
    Root(Seq<u8>),
    Named(Seq<u8>),
}

/// One component of an absolute path.
///
/// `Root` is the anchor of the path and holds the drive or prefix token that
/// tells one root from another (`C:`); where the host has a single root the
/// token is empty. `Named` is one directory or file name. Text is kept as the
/// bytes the host gave, since a path need not be valid Unicode, and two
/// components are the same when their bytes are: no case folding, no
/// normalisation.
#[derive(Debug, PartialEq, Eq)]
pub enum PathComponent {
    Root(Vec<u8>),
    Named(Vec<u8>),
}

impl View for PathComponent {
    type V = ComponentView;

    open spec fn view(&self) -> ComponentView {
        match self {
            PathComponent::Root(token) => ComponentView::Root(token@),
            PathComponent::Named(name) => ComponentView::Named(name@),
        }
    }
}

impl ComponentView {
    /// The bytes of the component, whichever kind it is.
    pub open spec fn text(self) -> Seq<u8> {
        match self {
            ComponentView::Root(token) => token,
            ComponentView::Named(name) => name,
        }
    }
}

/// The views of a run of components, in order.
pub open spec fn component_views(components: Seq<PathComponent>) -> Seq<ComponentView> {
    components.map_values(|c: PathComponent| c@)
}

/// The byte `.`, of which the names `.` and `..` are made.
pub const DOT: u8 = 46;

/// What a name may be: not empty, and neither `.` nor `..`.
pub open spec fn is_name(text: Seq<u8>) -> bool {
    &&& text.len() > 0
    &&& text != seq![DOT]
    &&& text != seq![DOT, DOT]
}

/// Whether two runs of bytes hold the same bytes.
fn same_bytes(a: &Vec<u8>, b: &Vec<u8>) -> (r: bool)
    ensures
        r == (a@ == b@),
{
    let r = a == b;
    assert(r ==> a@ =~= b@);
    r
}

/// Whether `text` may stand as a name in a path.
pub fn is_valid_name(text: &Vec<u8>) -> (r: bool)
    ensures
        r == is_name(text@),
{
    let n: usize = text.len();
    if n == 0 {
        false
    } else if n == 1 {
        assert(text@ =~= seq![DOT] <==> text@[0] == DOT);
        text[0] != DOT
    } else if n == 2 {
        assert(text@ =~= seq![DOT, DOT] <==> (text@[0] == DOT && text@[1] == DOT));
        !(text[0] == DOT && text[1] == DOT)
    } else {
        true
    }
}

impl Clone for PathComponent {
    fn clone(&self) -> (r: Self)
        ensures
            r@ == self@,
    {
        match self {
            PathComponent::Root(token) => PathComponent::Root(token.clone()),
            PathComponent::Named(name) => PathComponent::Named(name.clone()),
        }
    }
}

impl PathComponent {
    /// The bytes of the component, whichever kind it is.
    pub fn text(&self) -> (r: &Vec<u8>)
        ensures
            r@ == self@.text(),
    {
        match self {
            PathComponent::Root(token) => token,
            PathComponent::Named(name) => name,
        }
    }

    /// Whether the two components are of one kind and hold the same bytes.
    pub fn same_as(&self, other: &PathComponent) -> (r: bool)
        ensures
            r == (self@ == other@),
    {
        match (self, other) {
            (PathComponent::Root(a), PathComponent::Root(b)) => same_bytes(a, b),
            (PathComponent::Named(a), PathComponent::Named(b)) => same_bytes(a, b),
            _ => false,
        }
    }
}

} // verus!

//! Paths as the host's path functions see them, and their absolute form.

use std::path::{Component, Path, PathBuf};
use vstd::prelude::*;
use crate::absolute::{is_absolute, AbsolutePath};
use crate::component::{component_views, is_name, is_valid_name, ComponentView, PathComponent};
use crate::error::{ResolutionFailure, ResolveError};
use crate::join::step;
use crate::relative::{RelativePath, SegmentView};
use crate::resolve::{relative_segments, resolve_outcomes};

verus! {

/// The host's owned path, `std::path::PathBuf`. Nothing is claimed of what
/// it holds; it is only handed from one host function to the next.
#[verifier::external_type_specification]
#[verifier::external_body]
pub struct ExPathBuf(PathBuf);

/// The host's borrowed path, `std::path::Path`. Nothing is claimed of what
/// it holds.
#[verifier::external_type_specification]
#[verifier::external_body]
pub struct ExPath(Path);

/// A host component as contracts see it.
pub enum HostComponentView {
    Prefix(Seq<u8>),
    RootDir,
    CurDir,
    ParentDir,
    Normal(Seq<u8>),
}

/// One component of a path in the host's own terms, with its text as bytes:
/// a drive or share prefix (`C:`), the root directory, `.`, `..`, or a name.
#[derive(Debug, PartialEq, Eq)]
pub enum HostComponent {
    Prefix(Vec<u8>),
    RootDir,
    CurDir,
    ParentDir,
    Normal(Vec<u8>),
}

impl View for HostComponent {
    type V = HostComponentView;

    open spec fn view(&self) -> HostComponentView {
        match self {
            HostComponent::Prefix(token) => HostComponentView::Prefix(token@),
            HostComponent::RootDir => HostComponentView::RootDir,
            HostComponent::CurDir => HostComponentView::CurDir,
            HostComponent::ParentDir => HostComponentView::ParentDir,
            HostComponent::Normal(name) => HostComponentView::Normal(name@),
        }
    }
}

/// The views of a run of host components, in order.
pub open spec fn host_views(components: Seq<HostComponent>) -> Seq<HostComponentView> {
    components.map_values(|c: HostComponent| c@)
}

/// How many host components make up the root marker: the root directory
/// alone, or a prefix and the root directory behind it. Zero where the
/// components begin with neither.
pub open spec fn host_root_len(host: Seq<HostComponentView>) -> nat {
    if host.len() >= 1 && host[0] is RootDir {
        1
    } else if host.len() >= 2 && host[0] is Prefix && host[1] is RootDir {
        2
    } else {
        0
    }
}

/// The token of the root marker: the prefix where there is one, else empty.
pub open spec fn host_root_token(host: Seq<HostComponentView>) -> Seq<u8> {
    if host.len() >= 1 && host[0] is Prefix {
        host[0]->Prefix_0
    } else {
        Seq::empty()
    }
}

/// Where one more host component leads from an absolute path: a name is
/// entered, `.` changes nothing, `..` leaves the last name behind and stays
/// at the root where no name is left. A name that is none, a prefix or a
/// second root directory leads nowhere.
pub open spec fn host_step(path: Seq<ComponentView>, component: HostComponentView) -> Option<
    Seq<ComponentView>,
> {
    match component {
        HostComponentView::Normal(name) => if is_name(name) {
            Some(path.push(ComponentView::Named(name)))
        } else {
            None
        },
        HostComponentView::CurDir => Some(path),
        HostComponentView::ParentDir => Some(step(path, SegmentView::ParentRef)),
        HostComponentView::Prefix(_) => None,
        HostComponentView::RootDir => None,
    }
}

/// Where the first `upto` host components lead, from the root marker that
/// they begin with.
pub open spec fn host_walk(host: Seq<HostComponentView>, upto: int) -> Option<Seq<ComponentView>>
    decreases upto,
{
    if upto <= host_root_len(host) {
        Some(seq![ComponentView::Root(host_root_token(host))])
    } else {
        match host_walk(host, upto - 1) {
            Some(path) => host_step(path, host[upto - 1]),
            None => None,
        }
    }
}

/// The absolute path that the host components spell, where they spell one:
/// they begin with a root marker, and what follows is walked from there with
/// `host_step`, so that a `.` or `..` that the host left in is resolved
/// against the names before it. Components without a root spell none.
pub open spec fn host_form(host: Seq<HostComponentView>) -> Option<Seq<ComponentView>> {
    if host_root_len(host) == 0 {
        None
    } else {
        host_walk(host, host.len() as int)
    }
}

/// A walk that has led nowhere leads nowhere however far it goes on.
proof fn lemma_host_walk_stays_lost(host: Seq<HostComponentView>, at: int, upto: int)
    requires
        at <= upto,
        host_walk(host, at) is None,
    ensures
        host_walk(host, upto) is None,
    decreases upto - at,
{
    if at < upto {
        lemma_host_walk_stays_lost(host, at, upto - 1);
    }
}

impl AbsolutePath {
    /// The absolute path that the host's components spell.
    ///
    /// Fails with `NotAbsolute` where they spell none: see `host_form`.
    pub fn from_host(host: &Vec<HostComponent>) -> (r: Result<AbsolutePath, ResolutionFailure>)
        ensures
            match r {
                Ok(path) => is_absolute(path@) && host_form(host_views(host@)) == Some(path@),
                Err(e) => e is NotAbsolute && host_form(host_views(host@)) is None,
            },
    {
        let ghost views = host_views(host@);
        let n: usize = host.len();
        if n == 0 {
            return Err(ResolutionFailure::NotAbsolute);
        }
        let mut components: Vec<PathComponent> = Vec::new();
        let skipped: usize = match &host[0] {
            HostComponent::RootDir => {
                components.push(PathComponent::Root(Vec::new()));
                1
            },
            HostComponent::Prefix(token) => {
                if n < 2 {
                    return Err(ResolutionFailure::NotAbsolute);
                }
                match &host[1] {
                    HostComponent::RootDir => {},
                    _ => {
                        return Err(ResolutionFailure::NotAbsolute);
                    },
                }
                components.push(PathComponent::Root(token.clone()));
                2
            },
            _ => {
                return Err(ResolutionFailure::NotAbsolute);
            },
        };
        assert(component_views(components@) =~= seq![ComponentView::Root(host_root_token(views))]);
        let mut i: usize = skipped;
        while i < n
            invariant
                1 <= skipped <= i <= n,
                n == host.len(),
                views == host_views(host@),
                skipped == host_root_len(views),
                is_absolute(component_views(components@)),
                host_walk(views, i as int) == Some(component_views(components@)),
            decreases n - i,
        {
            let ghost before = component_views(components@);
            match &host[i] {
                HostComponent::Normal(name) => {
                    if !is_valid_name(name) {
                        proof {
                            lemma_host_walk_stays_lost(views, i + 1, n as int);
                        }
                        return Err(ResolutionFailure::NotAbsolute);
                    }
                    components.push(PathComponent::Named(name.clone()));
                },
                HostComponent::CurDir => {},
                HostComponent::ParentDir => {
                    if components.len() > 1 {
                        components.pop();
                    }
                },
                _ => {
                    proof {
                        lemma_host_walk_stays_lost(views, i + 1, n as int);
                    }
                    return Err(ResolutionFailure::NotAbsolute);
                },
            }
            assert(Some(component_views(components@)) =~= host_step(before, views[i as int]));
            i += 1;
        }
        Ok(AbsolutePath::from_valid(components))
    }

    /// The absolute path that the host reported, where it reported one:
    /// `outcome` holds the components of the path's absolute form, or the
    /// error with which the host refused.
    ///
    /// The host's error is handed on unchanged, as `Host`. Components that
    /// spell no absolute path fail with `NotAbsolute`: see `host_form`.
    pub fn from_host_outcome(outcome: Result<Vec<HostComponent>, std::io::Error>) -> (r: Result<
        AbsolutePath,
        ResolutionFailure,
    >)
        ensures
            match outcome {
                Ok(host) => match r {
                    Ok(path) => is_absolute(path@) && host_form(host_views(host@)) == Some(path@),
                    Err(e) => e is NotAbsolute && host_form(host_views(host@)) is None,
                },
                Err(error) => r matches Err(ResolutionFailure::Host(e)) && e == error,
            },
    {
        match outcome {
            Ok(host) => AbsolutePath::from_host(&host),
            Err(error) => Err(ResolutionFailure::Host(error)),
        }
    }
}

/// The host's view of a path given as text: `std::path::Path::new`, which
/// borrows the text as a path. Nothing is claimed of the result.
#[verifier::external_body]
fn host_path(text: &str) -> (r: &Path) {
    Path::new(text)
}

/// The host's absolute form of a path: `std::path::absolute`. It reads the
/// current directory for a relative path, so that one path may give one
/// result now and another later; nothing is claimed of what comes back.
#[verifier::external_body]
fn host_absolute(path: &Path) -> (r: Result<PathBuf, std::io::Error>) {
    std::path::absolute(path)
}

/// The components of a host path, in order: `std::path::Path::components`,
/// each component copied out kind for kind with its text as bytes. Nothing
/// is claimed of which components come back.
#[verifier::external_body]
fn host_components(path: &PathBuf) -> (r: Vec<HostComponent>) {
    let mut components = Vec::new();
    for component in path.components() {
        components.push(match component {
            Component::Prefix(p) => HostComponent::Prefix(p.as_os_str().as_encoded_bytes().to_vec()),
            Component::RootDir => HostComponent::RootDir,
            Component::CurDir => HostComponent::CurDir,
            Component::ParentDir => HostComponent::ParentDir,
            Component::Normal(name) => HostComponent::Normal(name.as_encoded_bytes().to_vec()),
        });
    }
    components
}

/// The absolute form of a path of the host: what the host makes of it,
/// handed to `from_host_outcome`.
///
/// Whether there is a form, and which, is the host's to say: it may depend
/// on the current directory. What comes back as one is an absolute path,
/// a root marker followed by proper names, whatever the host reported.
fn host_resolve(path: &Path) -> (r: Result<AbsolutePath, ResolutionFailure>)
    ensures
        r matches Ok(form) ==> is_absolute(form@),
{
    let outcome = match host_absolute(path) {
        Ok(absolute) => Ok(host_components(&absolute)),
        Err(e) => Err(e),
    };
    AbsolutePath::from_host_outcome(outcome)
}

/// Anything that has an absolute form: text, a path of the host, or an
/// absolute path itself.
pub trait PathLike: Sized {
    /// The absolute form that the value has whatever the host says, where it
    /// has one. A value that the host must resolve has none.
    spec fn fixed_form(self) -> Option<Seq<ComponentView>>;

    /// The absolute, normalised form of the value: where there is one, a
    /// root marker followed by proper names.
    fn to_absolute(self) -> (r: Result<AbsolutePath, ResolutionFailure>)
        ensures
            r matches Ok(path) ==> is_absolute(path@),
            self.fixed_form() matches Some(form) ==> r matches Ok(path) && path@ == form,
    ;
}

/// An absolute path is its own absolute form.
impl PathLike for AbsolutePath {
    open spec fn fixed_form(self) -> Option<Seq<ComponentView>> {
        Some(self@)
    }

    fn to_absolute(self) -> (r: Result<AbsolutePath, ResolutionFailure>) {
        proof {
            use_type_invariant(&self);
        }
        Ok(self)
    }
}

/// A borrowed absolute path gives a copy of itself.
impl<'a> PathLike for &'a AbsolutePath {
    open spec fn fixed_form(self) -> Option<Seq<ComponentView>> {
        Some(self@)
    }

    fn to_absolute(self) -> (r: Result<AbsolutePath, ResolutionFailure>) {
        proof {
            use_type_invariant(self);
        }
        Ok(self.clone())
    }
}

/// A path of the host is made absolute by the host.
impl<'a> PathLike for &'a Path {
    open spec fn fixed_form(self) -> Option<Seq<ComponentView>> {
        None
    }

    fn to_absolute(self) -> (r: Result<AbsolutePath, ResolutionFailure>) {
        host_resolve(self)
    }
}

/// Text is read as a path of the host.
impl<'a> PathLike for &'a str {
    open spec fn fixed_form(self) -> Option<Seq<ComponentView>> {
        None
    }

    fn to_absolute(self) -> (r: Result<AbsolutePath, ResolutionFailure>) {
        host_resolve(host_path(self))
    }
}

/// Owned text is read as a path of the host.
impl PathLike for String {
    open spec fn fixed_form(self) -> Option<Seq<ComponentView>> {
        None
    }

    fn to_absolute(self) -> (r: Result<AbsolutePath, ResolutionFailure>) {
        host_resolve(host_path(self.as_str()))
    }
}

/// The relative path from the directory `from_path` to `to_path`.
///
/// Both are first brought into absolute form, `from_path` first, and what
/// comes of that is handed to `resolve_outcomes`: the failure of the first
/// that has no absolute form is the result; else the two forms are resolved
/// with the root guard on, and under different roots the call fails with
/// `DisjointRoots`.
///
/// Text and paths of the host may be relative: the host anchors them at the
/// current directory. A `.` or `..` that it leaves in is resolved against
/// the names before it, so that two spellings of one place give the empty
/// path. Neither path is looked up on disk, and links are not followed.
pub fn get_relative_path<P: PathLike>(from_path: P, to_path: P) -> (r: Result<
    RelativePath,
    ResolveError,
>)
    ensures
        r matches Ok(path) ==> exists|base: Seq<ComponentView>, target: Seq<ComponentView>|
            is_absolute(base) && is_absolute(target) && base[0] == target[0] && path@
                == #[trigger] relative_segments(base, target),
        (from_path.fixed_form(), to_path.fixed_form()) matches (Some(base), Some(target))
            ==> match r {
            Ok(path) => base[0] == target[0] && path@ == relative_segments(base, target),
            Err(e) => e is DisjointRoots && base[0] != target[0],
        },
{
    let base = from_path.to_absolute();
    let target = to_path.to_absolute();
    resolve_outcomes(base, target)
}

} // verus!

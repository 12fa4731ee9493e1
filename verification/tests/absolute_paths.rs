use relpath::absolute::AbsolutePath;
use relpath::component::{is_valid_name, PathComponent};
use relpath::error::ResolutionFailure;
use relpath::host::HostComponent;

fn root(token: &str) -> PathComponent {
    PathComponent::Root(token.as_bytes().to_vec())
}

fn named(name: &str) -> PathComponent {
    PathComponent::Named(name.as_bytes().to_vec())
}

fn normal(name: &str) -> HostComponent {
    HostComponent::Normal(name.as_bytes().to_vec())
}

fn prefix(token: &str) -> HostComponent {
    HostComponent::Prefix(token.as_bytes().to_vec())
}

#[test]
fn valid_names() {
    assert!(is_valid_name(&b"file.txt".to_vec()));
    assert!(is_valid_name(&b"a".to_vec()));
    assert!(is_valid_name(&b"...".to_vec()));
    assert!(is_valid_name(&b".a".to_vec()));
    assert!(is_valid_name(&b"a.".to_vec()));
    assert!(is_valid_name(&b".hidden".to_vec()));
    assert!(is_valid_name(&vec![0xff, 0xfe]));
}

#[test]
fn invalid_names() {
    assert!(!is_valid_name(&Vec::new()));
    assert!(!is_valid_name(&b".".to_vec()));
    assert!(!is_valid_name(&b"..".to_vec()));
}

#[test]
fn components_round_trip_through_the_path() {
    let parts = vec![root(""), named("foo"), named("bar")];
    let path = AbsolutePath::from_components(parts.clone()).unwrap();
    assert_eq!(path.components(), &parts);
}

#[test]
fn the_root_alone_is_a_path() {
    let path = AbsolutePath::from_components(vec![root("C:")]).unwrap();
    assert_eq!(path.components(), &vec![root("C:")]);
}

#[test]
fn no_components_are_no_path() {
    assert_eq!(AbsolutePath::from_components(Vec::new()), None);
}

#[test]
fn a_path_begins_with_its_root() {
    assert_eq!(AbsolutePath::from_components(vec![named("foo")]), None);
    assert_eq!(AbsolutePath::from_components(vec![named("foo"), root("")]), None);
}

#[test]
fn a_path_has_one_root_only() {
    assert_eq!(AbsolutePath::from_components(vec![root(""), root("")]), None);
    assert_eq!(AbsolutePath::from_components(vec![root(""), named("a"), root("")]), None);
}

#[test]
fn relative_markers_and_empty_names_are_refused() {
    assert_eq!(AbsolutePath::from_components(vec![root(""), named("..")]), None);
    assert_eq!(AbsolutePath::from_components(vec![root(""), named(".")]), None);
    assert_eq!(AbsolutePath::from_components(vec![root(""), named("")]), None);
    assert_eq!(AbsolutePath::from_components(vec![root(""), named("a"), named("..")]), None);
    assert_eq!(
        AbsolutePath::from_components(vec![root(""), named("a"), named("."), named("b")]),
        None
    );
}

#[test]
fn component_text_and_sameness() {
    assert_eq!(root("C:").text(), &b"C:".to_vec());
    assert_eq!(named("foo").text(), &b"foo".to_vec());
    assert!(named("foo").same_as(&named("foo")));
    assert!(!named("foo").same_as(&named("Foo")));
    assert!(!named("foo").same_as(&named("fo")));
    assert!(!named("foo").same_as(&root("foo")));
    assert!(root("").same_as(&root("")));
    assert!(!root("C:").same_as(&root("D:")));
}

#[test]
fn clones_are_equal() {
    let path = AbsolutePath::from_components(vec![root("C:"), named("foo")]).unwrap();
    let copy = path.clone();
    assert_eq!(copy, path);
    assert_eq!(copy.components(), &vec![root("C:"), named("foo")]);
    assert_eq!(named("x").clone(), named("x"));
    assert_eq!(root("x").clone(), root("x"));
}

#[test]
fn host_path_with_single_root() {
    let host = vec![HostComponent::RootDir, normal("foo"), normal("bar")];
    let path = AbsolutePath::from_host(&host).unwrap();
    assert_eq!(path.components(), &vec![root(""), named("foo"), named("bar")]);
}

#[test]
fn host_path_with_prefix() {
    let host = vec![prefix("C:"), HostComponent::RootDir, normal("foo")];
    let path = AbsolutePath::from_host(&host).unwrap();
    assert_eq!(path.components(), &vec![root("C:"), named("foo")]);
}

#[test]
fn host_root_alone() {
    let path = AbsolutePath::from_host(&vec![HostComponent::RootDir]).unwrap();
    assert_eq!(path.components(), &vec![root("")]);
    let path = AbsolutePath::from_host(&vec![prefix("D:"), HostComponent::RootDir]).unwrap();
    assert_eq!(path.components(), &vec![root("D:")]);
}

fn not_absolute(host: Vec<HostComponent>) -> bool {
    matches!(AbsolutePath::from_host(&host), Err(ResolutionFailure::NotAbsolute))
}

#[test]
fn host_path_without_root_is_refused() {
    assert!(not_absolute(Vec::new()));
    assert!(not_absolute(vec![normal("foo")]));
    assert!(not_absolute(vec![HostComponent::CurDir, normal("foo")]));
    assert!(not_absolute(vec![HostComponent::ParentDir]));
    assert!(not_absolute(vec![prefix("C:")]));
    assert!(not_absolute(vec![prefix("C:"), normal("foo")]));
    assert!(not_absolute(vec![prefix("C:"), prefix("D:"), HostComponent::RootDir]));
}

#[test]
fn host_path_with_a_second_root_is_refused() {
    assert!(not_absolute(vec![HostComponent::RootDir, HostComponent::RootDir]));
    assert!(not_absolute(vec![HostComponent::RootDir, normal("a"), HostComponent::RootDir]));
    assert!(not_absolute(vec![HostComponent::RootDir, normal("a"), prefix("C:")]));
    assert!(not_absolute(vec![
        prefix("C:"),
        HostComponent::RootDir,
        prefix("C:"),
        HostComponent::RootDir,
    ]));
}

#[test]
fn host_path_with_a_name_that_is_none_is_refused() {
    assert!(not_absolute(vec![HostComponent::RootDir, normal("..")]));
    assert!(not_absolute(vec![HostComponent::RootDir, normal(".")]));
    assert!(not_absolute(vec![HostComponent::RootDir, normal("")]));
    assert!(not_absolute(vec![HostComponent::RootDir, normal("a"), normal(""), normal("b")]));
    assert!(not_absolute(vec![
        HostComponent::RootDir,
        normal(".."),
        HostComponent::ParentDir,
    ]));
}

fn host_path(host: Vec<HostComponent>) -> Vec<PathComponent> {
    AbsolutePath::from_host(&host).unwrap().components().clone()
}

#[test]
fn parent_directory_left_by_the_host_is_resolved() {
    assert_eq!(
        host_path(vec![HostComponent::RootDir, normal("a"), HostComponent::ParentDir]),
        vec![root("")]
    );
    assert_eq!(
        host_path(vec![
            HostComponent::RootDir,
            normal("foo"),
            HostComponent::ParentDir,
            normal("bar"),
        ]),
        vec![root(""), named("bar")]
    );
    assert_eq!(
        host_path(vec![
            prefix("C:"),
            HostComponent::RootDir,
            normal("a"),
            normal("b"),
            HostComponent::ParentDir,
            HostComponent::ParentDir,
            normal("c"),
        ]),
        vec![root("C:"), named("c")]
    );
}

#[test]
fn parent_directory_of_the_root_is_the_root() {
    assert_eq!(host_path(vec![HostComponent::RootDir, HostComponent::ParentDir]), vec![root("")]);
    assert_eq!(
        host_path(vec![
            HostComponent::RootDir,
            normal("a"),
            HostComponent::ParentDir,
            HostComponent::ParentDir,
            normal("b"),
        ]),
        vec![root(""), named("b")]
    );
}

#[test]
fn current_directory_left_by_the_host_is_dropped() {
    assert_eq!(host_path(vec![HostComponent::RootDir, HostComponent::CurDir]), vec![root("")]);
    assert_eq!(
        host_path(vec![
            HostComponent::RootDir,
            normal("a"),
            HostComponent::CurDir,
            normal("b"),
        ]),
        vec![root(""), named("a"), named("b")]
    );
}

#[test]
fn host_outcome_with_components() {
    let outcome = Ok(vec![prefix("C:"), HostComponent::RootDir, normal("foo")]);
    let path = AbsolutePath::from_host_outcome(outcome).unwrap();
    assert_eq!(path.components(), &vec![root("C:"), named("foo")]);
    let outcome = Ok(vec![HostComponent::RootDir, prefix("C:")]);
    assert!(matches!(
        AbsolutePath::from_host_outcome(outcome),
        Err(ResolutionFailure::NotAbsolute)
    ));
}

#[test]
fn host_outcome_with_error_keeps_the_error() {
    let error = std::io::Error::new(std::io::ErrorKind::NotFound, "no current directory");
    match AbsolutePath::from_host_outcome(Err(error)) {
        Err(ResolutionFailure::Host(e)) => {
            assert_eq!(e.kind(), std::io::ErrorKind::NotFound);
            assert_eq!(e.to_string(), "no current directory");
        }
        other => panic!("unexpected outcome: {:?}", other),
    }
}

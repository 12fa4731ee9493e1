use relpath::absolute::AbsolutePath;
use relpath::component::PathComponent;
use relpath::relative::RelativePath;
use relpath::resolve::resolve;

fn posix(text: &str) -> AbsolutePath {
    let mut parts = vec![PathComponent::Root(Vec::new())];
    for piece in text.split('/') {
        if !piece.is_empty() {
            parts.push(PathComponent::Named(piece.as_bytes().to_vec()));
        }
    }
    AbsolutePath::from_components(parts).unwrap()
}

fn way(base: &str, target: &str) -> RelativePath {
    resolve(&posix(base), &posix(target), false).unwrap()
}

#[test]
fn the_empty_path_renders_as_nothing() {
    assert_eq!(way("/foo", "/foo").render(b'/'), Vec::<u8>::new());
}

#[test]
fn one_segment_has_no_separator() {
    assert_eq!(way("/foo", "/foo/file.txt").render(b'/'), b"file.txt".to_vec());
    assert_eq!(way("/foo/bar", "/foo").render(b'/'), b"..".to_vec());
}

#[test]
fn segments_are_joined_by_the_separator() {
    assert_eq!(way("/foo/bar/sub", "/foo/bar/file.txt").render(b'/'), b"../file.txt".to_vec());
    assert_eq!(
        way("/foo/bar/sub", "/xyz/baz/file.txt").render(b'/'),
        b"../../../xyz/baz/file.txt".to_vec()
    );
    assert_eq!(
        way("/foo/bar/sub", "/xyz/baz/file.txt").render(b'\\'),
        b"..\\..\\..\\xyz\\baz\\file.txt".to_vec()
    );
    assert_eq!(way("/a/b/c", "/").render(b'/'), b"../../..".to_vec());
    assert_eq!(way("/", "/a/b/c").render(b'/'), b"a/b/c".to_vec());
}

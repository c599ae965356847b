use rkbpf::path::{AbsoluteOwnedPath, AbsolutePath, OwnedPath, Path};

#[test]
fn test_make_absolute() {
    for (path, expected) in [
        ("", "/"),
        ("/", "/"),
        ("//", "//"),
        ("foo", "/foo"),
        ("/foo", "/foo"),
        ("foo/bar", "/foo/bar"),
        ("/foo/bar", "/foo/bar"),
        ("//foo/bar", "//foo/bar"),
        ("///foo/bar", "///foo/bar"),
    ] {
        assert_eq!(Path::new(path).make_absolute().as_str(), expected);
    }
}

#[test]
fn test_parent() {
    for (path, parent) in [
        ("/", None),
        ("//", None),
        ("///", None),
        ("", None),
        ("/foo/bar/baz", Some("/foo/bar")),
        ("/foo/bar", Some("/foo")),
        ("/foo//bar", Some("/foo")),
        ("///foo/bar", Some("///foo")),
        ("foo", None),
        ("/foo", None),
        ("//foo", None),
        ("foo/", None),
        ("/foo/", None),
        ("/foo/bar/baz/", Some("/foo/bar")),
        ("/foo/bar/baz//", Some("/foo/bar")),
        ("/foo/bar/baz///", Some("/foo/bar")),
        ("/foo/bar//baz///", Some("/foo/bar")),
        ("/foo/bar///baz///", Some("/foo/bar")),
        ("///foo///bar///baz///", Some("///foo///bar")),
    ] {
        assert_eq!(
            Path::new(path).parent().map(|p| p.as_str().to_string()),
            parent.map(|p: &str| p.to_string())
        );
    }
}

#[test]
fn mod_test_file_name() {
    assert_eq!(Path::new("").file_name(), None);
    assert_eq!(Path::new("/").file_name(), None);
    assert_eq!(Path::new("//").file_name(), None);
    assert_eq!(Path::new("foo").file_name(), Some("foo".to_string()));
    assert_eq!(Path::new("/foo").file_name(), Some("foo".to_string()));
    assert_eq!(Path::new("//foo").file_name(), Some("foo".to_string()));
    assert_eq!(Path::new("foo/").file_name(), Some("foo".to_string()));
    assert_eq!(Path::new("/foo/").file_name(), Some("foo".to_string()));
    assert_eq!(Path::new("/foo//bar/").file_name(), Some("bar".to_string()));
}

#[test]
fn test_is_absolute() {
    assert!(!Path::new("").is_absolute());

    assert!(Path::new("/").is_absolute());
    assert!(Path::new("//").is_absolute());
    assert!(Path::new("///").is_absolute());

    assert!(!Path::new(" ").is_absolute());
    assert!(!Path::new(" /").is_absolute());

    assert!(!Path::new("foo").is_absolute());
    assert!(Path::new("/foo/bar").is_absolute());
    assert!(!Path::new("foo/bar").is_absolute());
}

#[test]
fn test_is_relative() {
    assert!(Path::new("").is_relative());
    assert!(Path::new("foo").is_relative());
    assert!(Path::new("foo/bar").is_relative());
    assert!(Path::new("foo/bar/baz").is_relative());
    assert!(Path::new("./foo").is_relative());
    assert!(Path::new("../foo").is_relative());

    assert!(Path::new(" ").is_relative());
    assert!(Path::new(" /").is_relative());
    assert!(Path::new("foo ").is_relative());
    assert!(Path::new(" foo").is_relative());

    assert!(!Path::new("/").is_relative());
    assert!(!Path::new("//").is_relative());
    assert!(!Path::new("///").is_relative());
    assert!(!Path::new("/foo").is_relative());
    assert!(!Path::new("/foo/bar").is_relative());
    assert!(!Path::new("//foo/bar").is_relative());
}

#[test]
fn test_file_name_edge_cases() {
    assert_eq!(Path::new("/foo/bar//").file_name(), Some("bar".to_string()));
    assert_eq!(Path::new("/foo/bar///").file_name(), Some("bar".to_string()));
    assert_eq!(Path::new("/foo/bar////").file_name(), Some("bar".to_string()));

    assert_eq!(Path::new("foo bar").file_name(), Some("foo bar".to_string()));
    assert_eq!(Path::new("/foo/bar baz").file_name(), Some("bar baz".to_string()));
    assert_eq!(Path::new("/ foo").file_name(), Some(" foo".to_string()));
    assert_eq!(Path::new("/foo/ bar").file_name(), Some(" bar".to_string()));

    assert_eq!(Path::new("file.txt").file_name(), Some("file.txt".to_string()));
    assert_eq!(Path::new("dir").file_name(), Some("dir".to_string()));

    assert_eq!(Path::new(".").file_name(), Some(".".to_string()));
    assert_eq!(Path::new("..").file_name(), Some("..".to_string()));
    assert_eq!(Path::new("/.").file_name(), Some(".".to_string()));
    assert_eq!(Path::new("/..").file_name(), Some("..".to_string()));
    assert_eq!(Path::new("/foo/.").file_name(), Some(".".to_string()));
    assert_eq!(Path::new("/foo/..").file_name(), Some("..".to_string()));

    assert_eq!(Path::new(".hidden").file_name(), Some(".hidden".to_string()));
    assert_eq!(Path::new("/foo/.hidden").file_name(), Some(".hidden".to_string()));
}

#[test]
fn test_parent_edge_cases() {
    assert_eq!(Path::new(".").parent().map(|p| p.as_str().to_string()), Some(".".to_string()));
    assert_eq!(Path::new("..").parent().map(|p| p.as_str().to_string()), Some("..".to_string()));
    assert_eq!(
        Path::new("./foo").parent().map(|p| p.as_str().to_string()),
        Some(".".to_string())
    );
    assert_eq!(
        Path::new("../foo").parent().map(|p| p.as_str().to_string()),
        Some("..".to_string())
    );
    assert!(Path::new("/.").parent().is_none());
    assert!(Path::new("/..").parent().is_none());

    assert_eq!(
        Path::new("/a/b/c/d/e/f").parent().map(|p| p.as_str().to_string()),
        Some("/a/b/c/d/e".to_string())
    );
    assert_eq!(
        Path::new("/a/b/c/d/e").parent().map(|p| p.as_str().to_string()),
        Some("/a/b/c/d".to_string())
    );

    assert_eq!(
        Path::new("foo/bar").parent().map(|p| p.as_str().to_string()),
        Some("foo".to_string())
    );
    assert_eq!(
        Path::new("foo/bar/baz").parent().map(|p| p.as_str().to_string()),
        Some("foo/bar".to_string())
    );
}

#[test]
fn test_make_absolute_edge_cases() {
    assert_eq!(Path::new(".").make_absolute().as_str(), "/.");
    assert_eq!(Path::new("..").make_absolute().as_str(), "/..");
    assert_eq!(Path::new("./foo").make_absolute().as_str(), "/./foo");
    assert_eq!(Path::new("../foo").make_absolute().as_str(), "/../foo");

    assert_eq!(Path::new(" ").make_absolute().as_str(), "/ ");
    assert_eq!(Path::new("foo bar").make_absolute().as_str(), "/foo bar");

    assert_eq!(Path::new("/").make_absolute().as_str(), "/");
    assert_eq!(Path::new("/foo/bar/baz").make_absolute().as_str(), "/foo/bar/baz");

    assert_eq!(Path::new("////foo").make_absolute().as_str(), "////foo");
}

#[test]
fn test_path_new() {
    let path = Path::new("foo");
    assert_eq!(path.as_str(), "foo");

    let path = Path::new("/foo/bar");
    assert_eq!(path.as_str(), "/foo/bar");

    let path = Path::new("");
    assert_eq!(path.as_str(), "");

    let path = Path::new("/foo-bar_baz.txt");
    assert_eq!(path.as_str(), "/foo-bar_baz.txt");
}

#[test]
fn test_path_deref() {
    let path = Path::new("/foo/bar");
    assert_eq!(path.as_str(), "/foo/bar");
    assert!(path.as_str().starts_with('/'));
    assert!(path.as_str().ends_with("bar"));
    assert_eq!(path.as_str().len(), 8);
}

#[test]
fn test_path_display() {
    let path = Path::new("/foo/bar");
    assert_eq!(path.as_str().to_string(), "/foo/bar");

    let path = Path::new("");
    assert_eq!(path.as_str().to_string(), "");

    let path = Path::new("relative/path");
    assert_eq!(path.as_str().to_string(), "relative/path");
}

#[test]
fn test_path_as_ref() {
    let path = Path::new("/foo/bar");
    let path_ref: &Path = &path;
    assert_eq!(path_ref, &path);

    let str_ref: &str = "/foo/bar";
    let path_from_str = Path::new(str_ref);
    assert_eq!(path_from_str, Path::new("/foo/bar"));
}

#[test]
fn test_path_to_owned() {
    let path = Path::new("/foo/bar");
    let owned = path.to_owned();
    assert_eq!(owned.as_str(), "/foo/bar");

    let path = Path::new("");
    let owned = path.to_owned();
    assert_eq!(owned.as_str(), "");
}

#[test]
fn test_try_new_valid() {
    assert!(AbsolutePath::try_new("/").is_ok());
    assert!(AbsolutePath::try_new("//").is_ok());
    assert!(AbsolutePath::try_new("///").is_ok());
    assert!(AbsolutePath::try_new("/foo").is_ok());
    assert!(AbsolutePath::try_new("/foo/bar").is_ok());
    assert!(AbsolutePath::try_new("/foo/bar/baz").is_ok());

    assert!(AbsolutePath::try_new("/foo-bar").is_ok());
    assert!(AbsolutePath::try_new("/foo_bar").is_ok());
    assert!(AbsolutePath::try_new("/foo.bar").is_ok());
    assert!(AbsolutePath::try_new("/foo bar").is_ok());

    assert!(AbsolutePath::try_new("/.").is_ok());
    assert!(AbsolutePath::try_new("/..").is_ok());
    assert!(AbsolutePath::try_new("/.hidden").is_ok());
}

#[test]
fn test_try_new_invalid() {
    assert!(AbsolutePath::try_new("").is_err());
    assert!(AbsolutePath::try_new("foo").is_err());
    assert!(AbsolutePath::try_new("foo/bar").is_err());
    assert!(AbsolutePath::try_new("./foo").is_err());
    assert!(AbsolutePath::try_new("../foo").is_err());
    assert!(AbsolutePath::try_new("foo/").is_err());
    assert!(AbsolutePath::try_new(" /foo").is_err());
}

#[test]
fn test_try_from_str() {
    let result = AbsolutePath::try_new("/");
    assert!(result.is_ok());

    let result = AbsolutePath::try_new("/foo/bar");
    assert!(result.is_ok());

    let result = AbsolutePath::try_new("");
    assert!(result.is_err());

    let result = AbsolutePath::try_new("foo");
    assert!(result.is_err());

    let result = AbsolutePath::try_new("foo/bar");
    assert!(result.is_err());
}

#[test]
fn test_try_from_path() {
    let path = Path::new("/foo/bar");
    let result = AbsolutePath::try_new(path.as_str());
    assert!(result.is_ok());

    let path = Path::new("foo/bar");
    let result = AbsolutePath::try_new(path.as_str());
    assert!(result.is_err());

    let path = Path::new("");
    let result = AbsolutePath::try_new(path.as_str());
    assert!(result.is_err());
}

#[test]
fn test_parent_absolute() {
    let path = AbsolutePath::try_new("/foo/bar").unwrap();
    let parent = path.parent();
    assert!(parent.is_some());
    assert_eq!(parent.unwrap().as_str(), "/foo");

    let path = AbsolutePath::try_new("/foo").unwrap();
    assert!(path.parent().is_none());

    let path = AbsolutePath::try_new("/").unwrap();
    assert!(path.parent().is_none());

    let path = AbsolutePath::try_new("//foo//bar").unwrap();
    let parent = path.parent();
    assert!(parent.is_some());
    assert_eq!(parent.unwrap().as_str(), "//foo");

    let path = AbsolutePath::try_new("//foo").unwrap();
    assert!(path.parent().is_none());

    let path = AbsolutePath::try_new("/foo/bar/").unwrap();
    let parent = path.parent();
    assert!(parent.is_some());
    assert_eq!(parent.unwrap().as_str(), "/foo");

    let path = AbsolutePath::try_new("/a/b/c/d/e/f").unwrap();
    let parent = path.parent();
    assert!(parent.is_some());
    assert_eq!(parent.unwrap().as_str(), "/a/b/c/d/e");
}

#[test]
fn test_deref_to_path() {
    let abs_path = AbsolutePath::try_new("/foo/bar").unwrap();
    assert_eq!(abs_path.as_str(), "/foo/bar");
}

#[test]
fn test_display() {
    let path = AbsolutePath::try_new("/foo/bar").unwrap();
    assert_eq!(path.as_str().to_string(), "/foo/bar");

    let path = AbsolutePath::try_new("/").unwrap();
    assert_eq!(path.as_str().to_string(), "/");

    let path = AbsolutePath::try_new("//foo").unwrap();
    assert_eq!(path.as_str().to_string(), "//foo");
}

#[test]
fn test_to_owned() {
    let path = AbsolutePath::try_new("/foo/bar").unwrap();
    let owned = AbsoluteOwnedPath::try_new(path.as_str()).unwrap();
    assert_eq!(owned.as_str(), "/foo/bar");

    let path = AbsolutePath::try_new("/").unwrap();
    let owned = AbsoluteOwnedPath::try_new(path.as_str()).unwrap();
    assert_eq!(owned.as_str(), "/");
}

#[test]
fn absolute_owned_test_new() {
    let path = AbsoluteOwnedPath::new();
    assert_eq!(path.as_str(), "/");
    assert!(path.is_absolute());
}

#[test]
fn test_default() {
    let path = AbsoluteOwnedPath::new();
    assert_eq!(path.as_str(), "/");
    assert!(path.is_absolute());
}

#[test]
fn test_try_from_str_valid() {
    let path = AbsoluteOwnedPath::try_new("/");
    assert!(path.is_ok());
    assert_eq!(path.unwrap().as_str(), "/");

    let path = AbsoluteOwnedPath::try_new("/foo");
    assert!(path.is_ok());
    assert_eq!(path.unwrap().as_str(), "/foo");

    let path = AbsoluteOwnedPath::try_new("/foo/bar");
    assert!(path.is_ok());
    assert_eq!(path.unwrap().as_str(), "/foo/bar");

    let path = AbsoluteOwnedPath::try_new("//foo");
    assert!(path.is_ok());
    assert_eq!(path.unwrap().as_str(), "//foo");
}

#[test]
fn test_try_from_str_invalid() {
    assert!(AbsoluteOwnedPath::try_new("").is_err());
    assert!(AbsoluteOwnedPath::try_new("foo").is_err());
    assert!(AbsoluteOwnedPath::try_new("foo/bar").is_err());
    assert!(AbsoluteOwnedPath::try_new("./foo").is_err());
    assert!(AbsoluteOwnedPath::try_new("../foo").is_err());
}

#[test]
fn test_try_from_owned_path_valid() {
    let owned = OwnedPath::new("/");
    let path = AbsoluteOwnedPath::try_from_owned(owned);
    assert!(path.is_ok());
    assert_eq!(path.unwrap().as_str(), "/");

    let owned = OwnedPath::new("/foo/bar");
    let path = AbsoluteOwnedPath::try_from_owned(owned);
    assert!(path.is_ok());
    assert_eq!(path.unwrap().as_str(), "/foo/bar");
}

#[test]
fn test_try_from_owned_path_invalid() {
    let owned = OwnedPath::new("");
    assert!(AbsoluteOwnedPath::try_from_owned(owned).is_err());

    let owned = OwnedPath::new("foo");
    assert!(AbsoluteOwnedPath::try_from_owned(owned).is_err());

    let owned = OwnedPath::new("foo/bar");
    assert!(AbsoluteOwnedPath::try_from_owned(owned).is_err());
}

#[test]
fn test_deref() {
    let abs_path = AbsoluteOwnedPath::new();
    assert_eq!(abs_path.as_str(), "/");
}

#[test]
fn test_deref_mut() {
    let mut abs_path = AbsoluteOwnedPath::new();
    abs_path.push("foo");
    assert_eq!(abs_path.as_str(), "/foo");

    abs_path.push("bar");
    assert_eq!(abs_path.as_str(), "/foo/bar");

    abs_path.append_str(".txt");
    assert_eq!(abs_path.as_str(), "/foo/bar.txt");
}

#[test]
fn test_as_ref_absolute_path() {
    let abs_owned = AbsoluteOwnedPath::new();
    assert_eq!(abs_owned.as_str(), "/");
}

#[test]
fn test_clone() {
    let path = AbsoluteOwnedPath::try_new("/foo/bar").unwrap();
    let cloned = path.clone();
    assert_eq!(path, cloned);
    assert_eq!(cloned.as_str(), "/foo/bar");
}

#[test]
fn test_eq() {
    let path1 = AbsoluteOwnedPath::try_new("/foo/bar").unwrap();
    let path2 = AbsoluteOwnedPath::try_new("/foo/bar").unwrap();
    let path3 = AbsoluteOwnedPath::try_new("/foo/baz").unwrap();

    assert_eq!(path1, path2);
    assert_ne!(path1, path3);
}

#[test]
fn test_push_operations() {
    let mut path = AbsoluteOwnedPath::new();
    path.push("home");
    assert_eq!(path.as_str(), "/home");

    path.push("user");
    assert_eq!(path.as_str(), "/home/user");

    path.push("documents");
    assert_eq!(path.as_str(), "/home/user/documents");
}

#[test]
fn test_append_str_operations() {
    let mut path = AbsoluteOwnedPath::new();
    path.push("file");
    path.append_str(".txt");
    assert_eq!(path.as_str(), "/file.txt");

    let mut path = AbsoluteOwnedPath::try_new("/foo").unwrap();
    path.append_str("bar");
    assert_eq!(path.as_str(), "/foobar");
}

#[test]
fn test_mixed_operations() {
    let mut path = AbsoluteOwnedPath::new();
    path.push("home");
    path.push("user");
    path.push("file");
    path.append_str(".txt");
    assert_eq!(path.as_str(), "/home/user/file.txt");
}

#[test]
fn test_parent_navigation() {
    let path = AbsoluteOwnedPath::try_new("/foo/bar/baz").unwrap();
    assert_eq!(path.parent().map(|p| p.as_str().to_string()), Some("/foo/bar".to_string()));

    let path = AbsoluteOwnedPath::try_new("/foo").unwrap();
    assert!(path.parent().is_none());

    let path = AbsoluteOwnedPath::new();
    assert!(path.parent().is_none());
}

#[test]
fn absolute_owned_test_file_name() {
    let path = AbsoluteOwnedPath::try_new("/foo/bar").unwrap();
    assert_eq!(path.file_name(), Some("bar".to_string()));

    let path = AbsoluteOwnedPath::try_new("/foo").unwrap();
    assert_eq!(path.file_name(), Some("foo".to_string()));

    let path = AbsoluteOwnedPath::new();
    assert_eq!(path.file_name(), None);
}

#[test]
fn test_always_absolute() {
    let mut path = AbsoluteOwnedPath::new();
    assert!(path.is_absolute());

    path.push("foo");
    assert!(path.is_absolute());

    path.push("bar");
    assert!(path.is_absolute());

    path.append_str("baz");
    assert!(path.is_absolute());
}

use mkfat::paths::{normalize, PathError};

fn comps(path: &str) -> Vec<String> {
    normalize(path).unwrap()
}

#[test]
fn leading_root_is_stripped() {
    assert_eq!(comps("/etc/foo"), comps("etc/foo"));
    assert_eq!(comps("/etc/foo"), vec!["etc".to_string(), "foo".to_string()]);
}

#[test]
fn repeated_and_trailing_separators_collapse() {
    assert_eq!(comps("a//b/"), vec!["a".to_string(), "b".to_string()]);
}

#[test]
fn dot_segments_vanish() {
    assert_eq!(comps("a/./b"), vec!["a".to_string(), "b".to_string()]);
    assert_eq!(comps("./a"), vec!["a".to_string()]);
}

#[test]
fn empty_path_has_no_components() {
    assert_eq!(comps(""), Vec::<String>::new());
    assert_eq!(comps("/"), Vec::<String>::new());
}

#[test]
fn parent_reference_is_rejected() {
    match normalize("a/../b") {
        Err(PathError::InvalidEncoding(c)) => assert_eq!(c, ".."),
        other => panic!("expected the parent reference to be rejected, got {:?}", other),
    }
}

#[test]
fn unsupported_character_is_rejected() {
    match normalize("dir/bad*name") {
        Err(PathError::InvalidEncoding(c)) => assert_eq!(c, "bad*name"),
        other => panic!("expected the component to be rejected, got {:?}", other),
    }
}

#[test]
fn long_name_characters_are_accepted() {
    assert_eq!(
        comps("UPPER lower 0123/n$a%m-e_@`!(){}.+,;=[]^#&"),
        vec!["UPPER lower 0123".to_string(), "n$a%m-e_@`!(){}.+,;=[]^#&".to_string()]
    );
}

#[test]
fn tilde_is_rejected() {
    match normalize("dir/VERYLO~1.TXT") {
        Err(PathError::InvalidEncoding(c)) => assert_eq!(c, "VERYLO~1.TXT"),
        other => panic!("expected the alias-shaped name to be rejected, got {:?}", other),
    }
}

#[test]
fn trailing_dot_is_rejected() {
    // A single trailing dot would give the entry a tilde-free 8.3 alias
    // that disagrees with the name's case fold, so it is not representable
    // here.
    match normalize("foo.") {
        Err(PathError::InvalidEncoding(c)) => assert_eq!(c, "foo."),
        other => panic!("expected the trailing-dot name to be rejected, got {:?}", other),
    }
    assert!(normalize("dir.name/x").is_ok());
    assert!(normalize("dir./x").is_err());
}

#[test]
fn overlong_component_is_rejected() {
    let long = "x".repeat(256);
    assert!(matches!(normalize(&long), Err(PathError::InvalidEncoding(_))));
    let fits = "x".repeat(255);
    assert_eq!(comps(&fits), vec![fits.clone()]);
}

use mkfat::builder::{build_image, BuildError};
use mkfat::config::{resolve, CliOverrides};
use mkfat::image::{check_dir, read_file, volume_label, FatImage};
use mkfat::manifest::{parse_manifest, FatVariant};

fn build(
    manifest_text: &str,
    sources: Vec<Vec<u8>>,
    size_mb: u64,
    label: &str,
    variant: Option<FatVariant>,
) -> Result<FatImage, BuildError> {
    let m = parse_manifest(manifest_text).unwrap();
    let cli = CliOverrides {
        output: Some("out.fat".to_string()),
        size_mb,
        label: label.as_bytes().to_vec(),
        variant,
        base: "/base".to_string(),
    };
    let cfg = resolve(&cli, &m).unwrap();
    build_image(&cfg, &m, &sources)
}

#[test]
fn places_file_and_reads_it_back() {
    let text = r#"{"build_args": {"files": [
        {"in": "hello.txt", "out": "greeting/hello.txt"}
    ]}}"#;
    let mut img = build(text, vec![b"Hello, world!".to_vec()], 4, "BOOT", None).unwrap();
    assert_eq!(img.byte_len(), 4 * 1024 * 1024);
    assert_eq!(volume_label(&mut img).unwrap(), b"BOOT".to_vec());
    assert!(check_dir(&mut img, "greeting").is_ok());
    let data = read_file(&mut img, "greeting/hello.txt").unwrap();
    assert_eq!(data, b"Hello, world!".to_vec());
    let bytes = img.into_bytes();
    assert!(bytes.len() >= 4 * 1024 * 1024);
    assert_eq!(bytes[510], 0x55);
    assert_eq!(bytes[511], 0xAA);
}

#[test]
fn lookup_ignores_name_case() {
    let text = r#"{"files": [{"in": "hello.txt", "out": "Greeting/Hello.txt"}]}"#;
    let mut img = build(text, vec![b"case".to_vec()], 2, "FATFS", None).unwrap();
    assert_eq!(read_file(&mut img, "greeting/HELLO.TXT").unwrap(), b"case".to_vec());
    assert!(check_dir(&mut img, "GREETING").is_ok());
}

#[test]
fn declared_directories_are_openable() {
    let text = r#"{"files": [], "directories": ["dir1", "dir2/subdir"]}"#;
    let mut img = build(text, vec![], 1, "FATFS", None).unwrap();
    assert!(check_dir(&mut img, "dir1").is_ok());
    assert!(check_dir(&mut img, "dir2").is_ok());
    assert!(check_dir(&mut img, "dir2/subdir").is_ok());
    assert!(check_dir(&mut img, "missing").is_err());
}

#[test]
fn directory_creation_is_idempotent() {
    let text = r#"{
        "files": [{"in": "f", "out": "a/b/file.txt"}],
        "directories": ["a/b", "a/b", "a"]
    }"#;
    let mut img = build(text, vec![b"data".to_vec()], 1, "FATFS", None).unwrap();
    assert!(check_dir(&mut img, "a").is_ok());
    assert!(check_dir(&mut img, "a/b").is_ok());
    assert_eq!(read_file(&mut img, "a/b/file.txt").unwrap(), b"data".to_vec());
}

#[test]
fn duplicate_destination_keeps_last_content() {
    let text = r#"{"files": [
        {"in": "one", "out": "same.txt"},
        {"in": "two", "out": "same.txt"}
    ]}"#;
    let mut img = build(text, vec![b"first".to_vec(), b"second".to_vec()], 1, "FATFS", None)
        .unwrap();
    assert_eq!(read_file(&mut img, "same.txt").unwrap(), b"second".to_vec());
}

#[test]
fn shorter_overwrite_truncates() {
    let text = r#"{"files": [
        {"in": "one", "out": "f.txt"},
        {"in": "two", "out": "f.txt"}
    ]}"#;
    let mut img = build(
        text,
        vec![b"a very long first content".to_vec(), b"tiny".to_vec()],
        1,
        "FATFS",
        None,
    )
    .unwrap();
    assert_eq!(read_file(&mut img, "f.txt").unwrap(), b"tiny".to_vec());
}

#[test]
fn same_manifest_text_builds_same_contents() {
    let text = r#"{"build_args": {"files": [{"in": "h", "out": "greeting/hello.txt"}]},
                   "out": "test_stdin.fat"}"#;
    let src = b"Hello, stdin!".to_vec();
    let mut img1 = build(text, vec![src.clone()], 1, "STDIN", None).unwrap();
    let mut img2 = build(&text.to_string(), vec![src.clone()], 1, "STDIN", None).unwrap();
    assert_eq!(
        read_file(&mut img1, "greeting/hello.txt").unwrap(),
        read_file(&mut img2, "greeting/hello.txt").unwrap()
    );
    assert_eq!(volume_label(&mut img1).unwrap(), volume_label(&mut img2).unwrap());
    assert_eq!(img1.byte_len(), img2.byte_len());
}

#[test]
fn each_variant_formats() {
    let text = r#"{"files": [{"in": "f", "out": "x.txt"}]}"#;
    for variant in [FatVariant::Fat12, FatVariant::Fat16, FatVariant::Fat32] {
        let mut img = build(text, vec![b"v".to_vec()], 40, "FATFS", Some(variant)).unwrap();
        assert_eq!(read_file(&mut img, "x.txt").unwrap(), b"v".to_vec());
        let bytes = img.into_bytes();
        assert_eq!(bytes[510], 0x55);
        assert_eq!(bytes[511], 0xAA);
    }
}

#[test]
fn empty_destination_is_rejected() {
    let text = r#"{"files": [{"in": "f", "out": "/"}]}"#;
    let r = build(text, vec![b"v".to_vec()], 1, "FATFS", None);
    assert!(matches!(r, Err(BuildError::EmptyDestination { .. })));
}

#[test]
fn invalid_directory_component_is_rejected() {
    let text = r#"{"files": [], "directories": ["bad*dir"]}"#;
    let r = build(text, vec![], 1, "FATFS", None);
    match r {
        Err(BuildError::InvalidDirectory { dir, component }) => {
            assert_eq!(dir, "bad*dir");
            assert_eq!(component, "bad*dir");
        },
        other => panic!("expected the directory to be rejected, got {:?}", other.is_ok()),
    }
}

#[test]
fn invalid_destination_component_is_rejected() {
    let text = r#"{"files": [{"in": "f", "out": "dir/na:me"}]}"#;
    let r = build(text, vec![b"v".to_vec()], 1, "FATFS", None);
    match r {
        Err(BuildError::InvalidDestination { dest, component }) => {
            assert_eq!(dest, "dir/na:me");
            assert_eq!(component, "na:me");
        },
        other => panic!("expected the destination to be rejected, got {:?}", other.is_ok()),
    }
}

#[test]
fn destination_defaults_to_source_path() {
    let text = r#"{"files": ["nested/dir/file.bin"]}"#;
    let mut img = build(text, vec![vec![1u8, 2, 3]], 1, "FATFS", None).unwrap();
    assert!(check_dir(&mut img, "nested/dir").is_ok());
    assert_eq!(read_file(&mut img, "nested/dir/file.bin").unwrap(), vec![1u8, 2, 3]);
}

#[test]
fn volume_too_small_to_format() {
    let text = r#"{"files": []}"#;
    let r = build(text, vec![], 0, "FATFS", None);
    assert!(matches!(r, Err(BuildError::Format { .. })));
}

#[test]
fn trailing_dot_destination_is_rejected() {
    // "foo." would be stored with the tilde-free 8.3 alias FOO, which a
    // later lookup of "foo" would reach; the build refuses the name instead
    // of letting the two destinations collide through the alias.
    let text = r#"{"files": [
        {"in": "one", "out": "foo."},
        {"in": "two", "out": "foo"}
    ]}"#;
    let r = build(text, vec![b"a".to_vec(), b"b".to_vec()], 1, "FATFS", None);
    match r {
        Err(BuildError::InvalidDestination { dest, component }) => {
            assert_eq!(dest, "foo.");
            assert_eq!(component, "foo.");
        },
        other => panic!("expected the destination to be rejected, got {:?}", other.is_ok()),
    }
    let mut img = build(r#"{"files": [{"in": "two", "out": "foo"}]}"#, vec![b"b".to_vec()], 1,
        "FATFS", None)
    .unwrap();
    assert_eq!(read_file(&mut img, "foo").unwrap(), b"b".to_vec());
    assert!(read_file(&mut img, "foo.").is_err());
}

#[test]
fn directory_colliding_with_file_fails() {
    let text = r#"{"files": [
        {"in": "one", "out": "a"},
        {"in": "two", "out": "a/b.txt"}
    ]}"#;
    let r = build(text, vec![b"1".to_vec(), b"2".to_vec()], 1, "FATFS", None);
    assert!(matches!(r, Err(BuildError::CreateDir { .. })));
}

#[test]
fn file_colliding_with_directory_fails() {
    let text = r#"{"files": [{"in": "one", "out": "data"}], "directories": ["data"]}"#;
    let r = build(text, vec![b"1".to_vec()], 1, "FATFS", None);
    assert!(matches!(r, Err(BuildError::CreateFile { .. })));
}

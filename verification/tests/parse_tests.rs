use mkfat::manifest::{parse_manifest, FatVariant, FieldName, ParseError};

#[test]
fn string_entry_parses() {
    let m = parse_manifest(r#"{"files": ["a/b.txt"]}"#).unwrap();
    assert_eq!(m.files.len(), 1);
    assert_eq!(m.files[0].get_in(), "a/b.txt");
    assert_eq!(m.files[0].get_out(), "a/b.txt");
}

#[test]
fn string_entry_equals_object_entry() {
    let m1 = parse_manifest(r#"{"files": ["a/b.txt"]}"#).unwrap();
    let m2 = parse_manifest(r#"{"files": [{"source": "a/b.txt", "destination": "a/b.txt"}]}"#)
        .unwrap();
    assert_eq!(m1.files[0].get_in(), m2.files[0].get_in());
    assert_eq!(m1.files[0].get_out(), m2.files[0].get_out());
}

#[test]
fn object_entry_with_aliased_names() {
    let m = parse_manifest(r#"{"files": [{"in": "hello.txt", "out": "greeting/hello.txt"}]}"#)
        .unwrap();
    assert_eq!(m.files[0].get_in(), "hello.txt");
    assert_eq!(m.files[0].get_out(), "greeting/hello.txt");
}

#[test]
fn nested_build_args_layout() {
    let text = r#"{
        "build_args": {
            "files": [
                {"in": "hello.txt", "out": "greeting/hello.txt"}
            ],
            "variant": "FAT16"
        },
        "out": "test.fat"
    }"#;
    let m = parse_manifest(text).unwrap();
    assert_eq!(m.files.len(), 1);
    assert_eq!(m.files[0].get_out(), "greeting/hello.txt");
    assert_eq!(m.out.as_deref(), Some("test.fat"));
    assert_eq!(m.variant, Some(FatVariant::Fat16));
}

#[test]
fn top_level_fields_win_over_nested() {
    let text = r#"{
        "variant": "FAT12",
        "build_args": {"files": [], "variant": "FAT32"}
    }"#;
    let m = parse_manifest(text).unwrap();
    assert_eq!(m.variant, Some(FatVariant::Fat12));
}

#[test]
fn missing_source_field() {
    let r = parse_manifest(r#"{"files": [{"out": "y"}]}"#);
    assert_eq!(r.err().unwrap(), ParseError::MissingField(FieldName::Source));
}

#[test]
fn duplicate_source_aliases() {
    let r = parse_manifest(r#"{"files": [{"in": "x", "source": "z"}]}"#);
    assert_eq!(r.err().unwrap(), ParseError::DuplicateField(FieldName::Source));
}

#[test]
fn duplicate_destination_aliases() {
    let r = parse_manifest(r#"{"files": [{"in": "x", "out": "a", "destination": "b"}]}"#);
    assert_eq!(r.err().unwrap(), ParseError::DuplicateField(FieldName::Destination));
}

#[test]
fn entry_of_invalid_shape() {
    let r = parse_manifest(r#"{"files": [42]}"#);
    assert_eq!(r.err().unwrap(), ParseError::InvalidEntryShape);
}

#[test]
fn files_of_wrong_type() {
    let r = parse_manifest(r#"{"files": "x"}"#);
    assert_eq!(r.err().unwrap(), ParseError::WrongType(FieldName::Files));
}

#[test]
fn files_missing_everywhere() {
    let r = parse_manifest(r#"{"directories": []}"#);
    assert_eq!(r.err().unwrap(), ParseError::MissingField(FieldName::Files));
}

#[test]
fn root_not_an_object() {
    let r = parse_manifest("[1, 2]");
    assert_eq!(r.err().unwrap(), ParseError::RootNotObject);
}

#[test]
fn malformed_json() {
    let r = parse_manifest("{");
    assert_eq!(r.err().unwrap(), ParseError::Json);
}

#[test]
fn unknown_fields_are_ignored() {
    let m = parse_manifest(r#"{"files": [{"in": "x", "mode": "0644"}], "extra": true}"#).unwrap();
    assert_eq!(m.files[0].get_in(), "x");
    assert_eq!(m.files[0].get_out(), "x");
}

#[test]
fn variant_rejects_unknown_name() {
    let r = parse_manifest(r#"{"files": [], "variant": "FAT99"}"#);
    assert_eq!(r.err().unwrap(), ParseError::InvalidVariant);
}

#[test]
fn variant_of_wrong_type() {
    let r = parse_manifest(r#"{"files": [], "variant": 32}"#);
    assert_eq!(r.err().unwrap(), ParseError::WrongType(FieldName::Variant));
}

#[test]
fn directories_list_parses() {
    let m = parse_manifest(r#"{"files": [], "directories": ["a", "b/c"]}"#).unwrap();
    assert_eq!(m.directories.len(), 2);
    assert_eq!(m.directories[0], "a");
    assert_eq!(m.directories[1], "b/c");
}

#[test]
fn directories_entry_of_wrong_type() {
    let r = parse_manifest(r#"{"files": [], "directories": ["a", 3]}"#);
    assert_eq!(r.err().unwrap(), ParseError::WrongType(FieldName::Directories));
}

#[test]
fn output_alias_accepted() {
    let m = parse_manifest(r#"{"files": [], "output": "img.fat"}"#).unwrap();
    assert_eq!(m.out.as_deref(), Some("img.fat"));
}

#[test]
fn same_text_parses_identically() {
    let text = r#"{"build_args": {"files": ["hello.txt"]}, "out": "a.fat"}"#;
    let from_file = parse_manifest(text).unwrap();
    let from_stdin = parse_manifest(&text.to_string()).unwrap();
    assert_eq!(from_file.files.len(), from_stdin.files.len());
    assert_eq!(from_file.files[0].get_in(), from_stdin.files[0].get_in());
    assert_eq!(from_file.files[0].get_out(), from_stdin.files[0].get_out());
    assert_eq!(from_file.out, from_stdin.out);
    assert_eq!(from_file.variant, from_stdin.variant);
}

#[test]
fn build_args_of_wrong_type() {
    let r = parse_manifest(r#"{"files": [], "build_args": 3}"#);
    assert_eq!(r.err().unwrap(), ParseError::WrongType(FieldName::BuildArgs));
}

#[test]
fn output_of_wrong_type() {
    let r = parse_manifest(r#"{"files": [], "out": []}"#);
    assert_eq!(r.err().unwrap(), ParseError::WrongType(FieldName::Output));
}

#[test]
fn source_of_wrong_type() {
    let r = parse_manifest(r#"{"files": [{"in": 3}]}"#);
    assert_eq!(r.err().unwrap(), ParseError::WrongType(FieldName::Source));
}

#[test]
fn destination_of_wrong_type() {
    let r = parse_manifest(r#"{"files": [{"in": "x", "out": 3}]}"#);
    assert_eq!(r.err().unwrap(), ParseError::WrongType(FieldName::Destination));
}

#[test]
fn repeated_literal_key_is_rejected() {
    // The JSON reading collapses a key repeated letter-for-letter, so the
    // raw text is screened for such repeats of the schema's known keys.
    let r = parse_manifest(r#"{"files": [{"in": "a", "in": "b"}]}"#);
    assert_eq!(r.err().unwrap(), ParseError::DuplicateField(FieldName::Source));
    let r2 = parse_manifest(r#"{"files": [{"in": "a", "out": "x", "out": "y"}]}"#);
    assert_eq!(r2.err().unwrap(), ParseError::DuplicateField(FieldName::Output));
}

#[test]
fn repeated_top_level_key_is_rejected() {
    let r = parse_manifest(r#"{"files": [], "files": []}"#);
    assert_eq!(r.err().unwrap(), ParseError::DuplicateField(FieldName::Files));
    let r2 = parse_manifest(r#"{"build_args": {"files": [], "variant": "FAT12", "variant": "FAT16"}}"#);
    assert_eq!(r2.err().unwrap(), ParseError::DuplicateField(FieldName::Variant));
}

#[test]
fn same_key_in_different_objects_is_fine() {
    // Each entry object is its own scope, and structural characters inside
    // string values do not confuse the screen.
    let m = parse_manifest(
        r#"{"files": [{"in": "a{b", "out": "x,y"}, {"in": "c\"d:e", "out": "z"}]}"#,
    )
    .unwrap();
    assert_eq!(m.files.len(), 2);
    assert_eq!(m.files[0].get_in(), "a{b");
    assert_eq!(m.files[0].get_out(), "x,y");
    assert_eq!(m.files[1].get_out(), "z");
}

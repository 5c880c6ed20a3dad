use vstd::prelude::*;

use crate::json::JsonValue;

verus! {

use vstd::string::*;

/// One of the three table-width encodings of the FAT family.
#[derive(Clone, Copy, PartialEq, Eq, Structural, Debug)]
pub enum FatVariant {
    Fat12,
    Fat16,
    Fat32,
}

/// The manifest fields that an error can name.
#[derive(Clone, Copy, PartialEq, Eq, Structural, Debug)]
pub enum FieldName {
    Source,
    Destination,
    Files,
    Directories,
    Output,
    Variant,
    BuildArgs,
}

/// Why a manifest text was rejected.
#[derive(Clone, Copy, PartialEq, Eq, Structural, Debug)]
pub enum ParseError {
    /// The text is not a well-formed JSON document.
    Json,
    /// The document's root is not a JSON object.
    RootNotObject,
    /// A required field is absent under every accepted name.
    MissingField(FieldName),
    /// A field is declared twice in one object: either two alias spellings
    /// of the same field in one entry, or a known key spelling repeated
    /// letter-for-letter anywhere in the document.  The JSON reading
    /// collapses literal repeats before the model sees the object (see
    /// `crate::json::parse_json`), so those are caught by screening the raw
    /// text; a key written with escape sequences is not identified with its
    /// plain spelling, and repeats of unknown keys pass, as the schema
    /// ignores unknown fields.
    DuplicateField(FieldName),
    /// A file entry is neither a string nor an object.
    InvalidEntryShape,
    /// A field is present but holds a value of the wrong JSON type.
    WrongType(FieldName),
    /// A variant field holds none of the three accepted names.
    InvalidVariant,
}

/// One file to place into the image: a source path to read, and an optional
/// destination path inside the image that defaults to the source path.
pub struct FileEntry {
    pub source: String,
    pub dest: Option<String>,
}

impl FileEntry {
    /// The source path, as a character sequence.
    pub open spec fn spec_in(&self) -> Seq<char> {
        self.source@
    }

    /// The destination path after defaulting: the declared destination if one
    /// was given, the source path otherwise.
    pub open spec fn spec_out(&self) -> Seq<char> {
        match self.dest {
            Some(d) => d@,
            None => self.source@,
        }
    }

    pub fn get_in(&self) -> (r: &str)
        ensures
            r@ == self.spec_in(),
    {
        self.source.as_str()
    }

    pub fn get_out(&self) -> (r: &str)
        ensures
            r@ == self.spec_out(),
    {
        match &self.dest {
            Some(d) => d.as_str(),
            None => self.source.as_str(),
        }
    }
}

/// The parsed manifest: files to place in order, directories to create in
/// order, an optional declared output filename, and an optional FAT variant.
pub struct Manifest {
    pub files: Vec<FileEntry>,
    pub directories: Vec<String>,
    pub out: Option<String>,
    pub variant: Option<FatVariant>,
}

/// The first value bound to `key` in an object's field list, walked in order.
pub open spec fn spec_lookup(fields: Seq<(String, JsonValue)>, key: Seq<char>) -> Option<
    JsonValue,
>
    decreases fields.len(),
{
    if fields.len() == 0 {
        None
    } else if fields[0].0@ == key {
        Some(fields[0].1)
    } else {
        spec_lookup(fields.drop_first(), key)
    }
}

/// How many of an entry field's three accepted spellings are present.
pub open spec fn spec_alias_count(
    fields: Seq<(String, JsonValue)>,
    k1: Seq<char>,
    k2: Seq<char>,
    k3: Seq<char>,
) -> int {
    (if spec_lookup(fields, k1) is Some {
        1int
    } else {
        0int
    }) + (if spec_lookup(fields, k2) is Some {
        1int
    } else {
        0int
    }) + (if spec_lookup(fields, k3) is Some {
        1int
    } else {
        0int
    })
}

/// The value of an entry field under the first of its accepted spellings
/// that is present, in resolution order.
pub open spec fn spec_alias_value(
    fields: Seq<(String, JsonValue)>,
    k1: Seq<char>,
    k2: Seq<char>,
    k3: Seq<char>,
) -> Option<JsonValue> {
    if spec_lookup(fields, k1) is Some {
        spec_lookup(fields, k1)
    } else if spec_lookup(fields, k2) is Some {
        spec_lookup(fields, k2)
    } else {
        spec_lookup(fields, k3)
    }
}

/// The accepted spellings of an entry's source field, in resolution order.
pub open spec fn source_keys() -> (Seq<char>, Seq<char>, Seq<char>) {
    ("source"@, "in"@, "filename"@)
}

/// The accepted spellings of an entry's destination field, in resolution
/// order.
pub open spec fn dest_keys() -> (Seq<char>, Seq<char>, Seq<char>) {
    ("destination"@, "out"@, "output"@)
}

/// What parsing one file entry yields.  A bare string `s` stands for
/// `source = s` with the destination defaulted; an object must carry a
/// string-valued source field under exactly one spelling, and may carry a
/// destination field under exactly one spelling; anything else is rejected.
/// A duplicate here means two alias spellings of one field; a key repeated
/// letter-for-letter has already collapsed in the JSON reading and is
/// caught earlier by `scan_duplicate_keys` on the raw text.
pub open spec fn spec_entry_of(v: JsonValue) -> Result<FileEntry, ParseError> {
    match v {
        JsonValue::Text(s) => Ok(FileEntry { source: s, dest: None }),
        JsonValue::Obj(fields) => spec_entry_of_obj(fields@),
        _ => Err(ParseError::InvalidEntryShape),
    }
}

pub open spec fn spec_entry_of_obj(fields: Seq<(String, JsonValue)>) -> Result<
    FileEntry,
    ParseError,
> {
    let (s1, s2, s3) = source_keys();
    let (d1, d2, d3) = dest_keys();
    if spec_alias_count(fields, s1, s2, s3) >= 2 {
        Err(ParseError::DuplicateField(FieldName::Source))
    } else if spec_alias_count(fields, d1, d2, d3) >= 2 {
        Err(ParseError::DuplicateField(FieldName::Destination))
    } else {
        match spec_alias_value(fields, s1, s2, s3) {
            None => Err(ParseError::MissingField(FieldName::Source)),
            Some(JsonValue::Text(s)) => match spec_alias_value(fields, d1, d2, d3) {
                None => Ok(FileEntry { source: s, dest: None }),
                Some(JsonValue::Text(d)) => Ok(FileEntry { source: s, dest: Some(d) }),
                Some(_) => Err(ParseError::WrongType(FieldName::Destination)),
            },
            Some(_) => Err(ParseError::WrongType(FieldName::Source)),
        }
    }
}

/// What parsing a list of file entries yields: the entries in order, or the
/// first entry's error.
pub open spec fn spec_entries_of(es: Seq<JsonValue>) -> Result<Seq<FileEntry>, ParseError>
    decreases es.len(),
{
    if es.len() == 0 {
        Ok(Seq::empty())
    } else {
        match spec_entry_of(es[0]) {
            Err(e) => Err(e),
            Ok(fe) => match spec_entries_of(es.drop_first()) {
                Err(e) => Err(e),
                Ok(rest) => Ok(seq![fe] + rest),
            },
        }
    }
}

/// What parsing a list of directory path strings yields, or a type error.
pub open spec fn spec_dir_list_of(ds: Seq<JsonValue>) -> Result<Seq<String>, ParseError>
    decreases ds.len(),
{
    if ds.len() == 0 {
        Ok(Seq::empty())
    } else {
        match ds[0] {
            JsonValue::Text(s) => match spec_dir_list_of(ds.drop_first()) {
                Err(e) => Err(e),
                Ok(rest) => Ok(seq![s] + rest),
            },
            _ => Err(ParseError::WrongType(FieldName::Directories)),
        }
    }
}

/// The FAT variant that a variant field's text names, if any.
pub open spec fn spec_variant_of(s: Seq<char>) -> Option<FatVariant> {
    if s == "FAT12"@ {
        Some(FatVariant::Fat12)
    } else if s == "FAT16"@ {
        Some(FatVariant::Fat16)
    } else if s == "FAT32"@ {
        Some(FatVariant::Fat32)
    } else {
        None
    }
}

/// A build-relevant field may sit at the document's top level or one level
/// down under the intermediate `build_args` key; the top level wins.
pub open spec fn spec_nested_lookup(fields: Seq<(String, JsonValue)>, key: Seq<char>) -> Option<
    JsonValue,
> {
    match spec_lookup(fields, key) {
        Some(x) => Some(x),
        None => match spec_lookup(fields, "build_args"@) {
            Some(JsonValue::Obj(bf)) => spec_lookup(bf@, key),
            _ => None,
        },
    }
}

/// The declared output filename field: `out` under either level first, then
/// `output` under either level.
pub open spec fn spec_out_field(fields: Seq<(String, JsonValue)>) -> Option<JsonValue> {
    match spec_nested_lookup(fields, "out"@) {
        Some(x) => Some(x),
        None => spec_nested_lookup(fields, "output"@),
    }
}

/// The canonical reading of a whole manifest document, as the tuple of
/// (files, directories, declared output, declared variant), or the first
/// error in field-resolution order.
pub open spec fn spec_manifest_of(v: JsonValue) -> Result<
    (Seq<FileEntry>, Seq<String>, Option<String>, Option<FatVariant>),
    ParseError,
> {
    match v {
        JsonValue::Obj(fields) => spec_manifest_of_obj(fields@),
        _ => Err(ParseError::RootNotObject),
    }
}

pub open spec fn spec_manifest_of_obj(fields: Seq<(String, JsonValue)>) -> Result<
    (Seq<FileEntry>, Seq<String>, Option<String>, Option<FatVariant>),
    ParseError,
> {
    if spec_lookup(fields, "build_args"@) matches Some(b) && !(b matches JsonValue::Obj(_)) {
        Err(ParseError::WrongType(FieldName::BuildArgs))
    } else {
        match spec_nested_lookup(fields, "files"@) {
            None => Err(ParseError::MissingField(FieldName::Files)),
            Some(JsonValue::Arr(es)) => match spec_entries_of(es@) {
                Err(e) => Err(e),
                Ok(fes) => spec_manifest_dirs(fields, fes),
            },
            Some(_) => Err(ParseError::WrongType(FieldName::Files)),
        }
    }
}

pub open spec fn spec_manifest_dirs(fields: Seq<(String, JsonValue)>, fes: Seq<FileEntry>) -> Result<
    (Seq<FileEntry>, Seq<String>, Option<String>, Option<FatVariant>),
    ParseError,
> {
    match spec_nested_lookup(fields, "directories"@) {
        None => spec_manifest_tail(fields, fes, Seq::empty()),
        Some(JsonValue::Arr(ds)) => match spec_dir_list_of(ds@) {
            Err(e) => Err(e),
            Ok(dirs) => spec_manifest_tail(fields, fes, dirs),
        },
        Some(_) => Err(ParseError::WrongType(FieldName::Directories)),
    }
}

pub open spec fn spec_manifest_tail(
    fields: Seq<(String, JsonValue)>,
    fes: Seq<FileEntry>,
    dirs: Seq<String>,
) -> Result<(Seq<FileEntry>, Seq<String>, Option<String>, Option<FatVariant>), ParseError> {
    match spec_out_field(fields) {
        Some(JsonValue::Text(o)) => spec_manifest_variant(fields, fes, dirs, Some(o)),
        Some(_) => Err(ParseError::WrongType(FieldName::Output)),
        None => spec_manifest_variant(fields, fes, dirs, None),
    }
}

pub open spec fn spec_manifest_variant(
    fields: Seq<(String, JsonValue)>,
    fes: Seq<FileEntry>,
    dirs: Seq<String>,
    out: Option<String>,
) -> Result<(Seq<FileEntry>, Seq<String>, Option<String>, Option<FatVariant>), ParseError> {
    match spec_nested_lookup(fields, "variant"@) {
        None => Ok((fes, dirs, out, None)),
        Some(JsonValue::Text(t)) => match spec_variant_of(t@) {
            Some(var) => Ok((fes, dirs, out, Some(var))),
            None => Err(ParseError::InvalidVariant),
        },
        Some(_) => Err(ParseError::WrongType(FieldName::Variant)),
    }
}

/// What parsing a whole manifest text yields: a JSON failure, a duplicate
/// known key caught by screening the raw text (which the JSON reading would
/// otherwise collapse), or the canonical reading of the parsed document.
pub open spec fn spec_parse_manifest(s: Seq<char>) -> Result<
    (Seq<FileEntry>, Seq<String>, Option<String>, Option<FatVariant>),
    ParseError,
> {
    match crate::json::parsed_json(s) {
        None => Err(ParseError::Json),
        Some(v) => match spec_scan_keys(s) {
            Some(f) => Err(ParseError::DuplicateField(f)),
            None => spec_manifest_of(v),
        },
    }
}

fn lookup<'a>(fields: &'a Vec<(String, JsonValue)>, key: &String) -> (r: Option<&'a JsonValue>)
    ensures
        match r {
            Some(v) => spec_lookup(fields@, key@) == Some(*v),
            None => spec_lookup(fields@, key@) is None,
        },
{
    let mut i: usize = 0;
    assert(fields@.skip(0) =~= fields@);
    while i < fields.len()
        invariant
            i <= fields.len(),
            spec_lookup(fields@, key@) == spec_lookup(fields@.skip(i as int), key@),
        decreases fields.len() - i,
    {
        if fields[i].0 == *key {
            assert(fields@.skip(i as int)[0] == fields@[i as int]);
            return Some(&fields[i].1);
        }
        assert(fields@.skip(i as int).drop_first() =~= fields@.skip(i as int + 1));
        i = i + 1;
    }
    assert(fields@.skip(i as int).len() == 0);
    None
}

fn nested_lookup<'a>(fields: &'a Vec<(String, JsonValue)>, key: &String) -> (r: Option<
    &'a JsonValue,
>)
    ensures
        match r {
            Some(v) => spec_nested_lookup(fields@, key@) == Some(*v),
            None => spec_nested_lookup(fields@, key@) is None,
        },
{
    match lookup(fields, key) {
        Some(x) => Some(x),
        None => {
            let kb = String::from_str("build_args");
            match lookup(fields, &kb) {
                Some(JsonValue::Obj(bf)) => lookup(bf, key),
                _ => None,
            }
        },
    }
}

/// Parses one file entry: a bare string, or an object whose source and
/// destination fields are resolved across their accepted alias spellings.
pub fn entry_from_json(v: &JsonValue) -> (r: Result<FileEntry, ParseError>)
    ensures
        r == spec_entry_of(*v),
{
    match v {
        JsonValue::Text(s) => Ok(FileEntry { source: s.clone(), dest: None }),
        JsonValue::Obj(fields) => {
            let ks1 = String::from_str("source");
            let ks2 = String::from_str("in");
            let ks3 = String::from_str("filename");
            let kd1 = String::from_str("destination");
            let kd2 = String::from_str("out");
            let kd3 = String::from_str("output");
            let s1 = lookup(fields, &ks1);
            let s2 = lookup(fields, &ks2);
            let s3 = lookup(fields, &ks3);
            let d1 = lookup(fields, &kd1);
            let d2 = lookup(fields, &kd2);
            let d3 = lookup(fields, &kd3);
            let mut src_count: usize = 0;
            if s1.is_some() {
                src_count = src_count + 1;
            }
            if s2.is_some() {
                src_count = src_count + 1;
            }
            if s3.is_some() {
                src_count = src_count + 1;
            }
            let mut dst_count: usize = 0;
            if d1.is_some() {
                dst_count = dst_count + 1;
            }
            if d2.is_some() {
                dst_count = dst_count + 1;
            }
            if d3.is_some() {
                dst_count = dst_count + 1;
            }
            if src_count >= 2 {
                return Err(ParseError::DuplicateField(FieldName::Source));
            }
            if dst_count >= 2 {
                return Err(ParseError::DuplicateField(FieldName::Destination));
            }
            let src_val = if s1.is_some() {
                s1
            } else if s2.is_some() {
                s2
            } else {
                s3
            };
            let dst_val = if d1.is_some() {
                d1
            } else if d2.is_some() {
                d2
            } else {
                d3
            };
            match src_val {
                None => Err(ParseError::MissingField(FieldName::Source)),
                Some(JsonValue::Text(s)) => match dst_val {
                    None => Ok(FileEntry { source: s.clone(), dest: None }),
                    Some(JsonValue::Text(d)) => Ok(
                        FileEntry { source: s.clone(), dest: Some(d.clone()) },
                    ),
                    Some(_) => Err(ParseError::WrongType(FieldName::Destination)),
                },
                Some(_) => Err(ParseError::WrongType(FieldName::Source)),
            }
        },
        _ => Err(ParseError::InvalidEntryShape),
    }
}

fn entries_from_json(es: &Vec<JsonValue>) -> (r: Result<Vec<FileEntry>, ParseError>)
    ensures
        match spec_entries_of(es@) {
            Ok(s) => r is Ok && r->Ok_0@ == s,
            Err(e) => r == Err::<Vec<FileEntry>, ParseError>(e),
        },
{
    let mut out: Vec<FileEntry> = Vec::new();
    let mut i: usize = 0;
    assert(es@.skip(0) =~= es@);
    while i < es.len()
        invariant
            i <= es.len(),
            spec_entries_of(es@) == (match spec_entries_of(es@.skip(i as int)) {
                Ok(rest) => Ok::<Seq<FileEntry>, ParseError>(out@ + rest),
                Err(e) => Err::<Seq<FileEntry>, ParseError>(e),
            }),
        decreases es.len() - i,
    {
        assert(es@.skip(i as int)[0] == es@[i as int]);
        assert(es@.skip(i as int).drop_first() =~= es@.skip(i as int + 1));
        let ghost old_out = out@;
        match entry_from_json(&es[i]) {
            Err(e) => {
                return Err(e);
            },
            Ok(fe) => {
                out.push(fe);
                assert forall|rest: Seq<FileEntry>| (old_out + (seq![fe] + rest)) =~= (out@
                    + rest) by {}
            },
        }
        i = i + 1;
    }
    assert(es@.skip(i as int).len() == 0);
    assert(out@ + Seq::<FileEntry>::empty() =~= out@);
    Ok(out)
}

fn dir_list_from_json(ds: &Vec<JsonValue>) -> (r: Result<Vec<String>, ParseError>)
    ensures
        match spec_dir_list_of(ds@) {
            Ok(s) => r is Ok && r->Ok_0@ == s,
            Err(e) => r == Err::<Vec<String>, ParseError>(e),
        },
{
    let mut out: Vec<String> = Vec::new();
    let mut i: usize = 0;
    assert(ds@.skip(0) =~= ds@);
    while i < ds.len()
        invariant
            i <= ds.len(),
            spec_dir_list_of(ds@) == (match spec_dir_list_of(ds@.skip(i as int)) {
                Ok(rest) => Ok::<Seq<String>, ParseError>(out@ + rest),
                Err(e) => Err::<Seq<String>, ParseError>(e),
            }),
        decreases ds.len() - i,
    {
        assert(ds@.skip(i as int)[0] == ds@[i as int]);
        assert(ds@.skip(i as int).drop_first() =~= ds@.skip(i as int + 1));
        let ghost old_out = out@;
        match &ds[i] {
            JsonValue::Text(s) => {
                let sc = s.clone();
                out.push(sc);
                assert forall|rest: Seq<String>| (old_out + (seq![*s] + rest)) =~= (out@ + rest) by {
                }
            },
            _ => {
                return Err(ParseError::WrongType(FieldName::Directories));
            },
        }
        i = i + 1;
    }
    assert(ds@.skip(i as int).len() == 0);
    assert(out@ + Seq::<String>::empty() =~= out@);
    Ok(out)
}

/// Reads the canonical manifest fields out of a parsed JSON document,
/// tolerating the accepted surface layouts: fields flat at the top level or
/// nested one level under `build_args`, and aliased entry field names.
pub fn manifest_from_json(v: &JsonValue) -> (r: Result<Manifest, ParseError>)
    ensures
        spec_manifest_of(*v) matches Ok(t) ==> r is Ok && r->Ok_0.files@ == t.0
            && r->Ok_0.directories@ == t.1 && r->Ok_0.out == t.2 && r->Ok_0.variant == t.3,
        spec_manifest_of(*v) matches Err(e) ==> r == Err::<Manifest, ParseError>(e),
{
    let fields = match v {
        JsonValue::Obj(fields) => fields,
        _ => {
            return Err(ParseError::RootNotObject);
        },
    };
    let kb = String::from_str("build_args");
    match lookup(fields, &kb) {
        Some(JsonValue::Obj(_)) => {},
        Some(_) => {
            return Err(ParseError::WrongType(FieldName::BuildArgs));
        },
        None => {},
    }
    let k_files = String::from_str("files");
    let files = match nested_lookup(fields, &k_files) {
        None => {
            return Err(ParseError::MissingField(FieldName::Files));
        },
        Some(JsonValue::Arr(es)) => match entries_from_json(es) {
            Err(e) => {
                return Err(e);
            },
            Ok(fes) => fes,
        },
        Some(_) => {
            return Err(ParseError::WrongType(FieldName::Files));
        },
    };
    let k_dirs = String::from_str("directories");
    let directories = match nested_lookup(fields, &k_dirs) {
        None => Vec::new(),
        Some(JsonValue::Arr(ds)) => match dir_list_from_json(ds) {
            Err(e) => {
                return Err(e);
            },
            Ok(dirs) => dirs,
        },
        Some(_) => {
            return Err(ParseError::WrongType(FieldName::Directories));
        },
    };
    let k_out = String::from_str("out");
    let k_output = String::from_str("output");
    let out_val = match nested_lookup(fields, &k_out) {
        Some(x) => Some(x),
        None => nested_lookup(fields, &k_output),
    };
    let out = match out_val {
        None => None,
        Some(JsonValue::Text(o)) => Some(o.clone()),
        Some(_) => {
            return Err(ParseError::WrongType(FieldName::Output));
        },
    };
    let k_variant = String::from_str("variant");
    let variant = match nested_lookup(fields, &k_variant) {
        None => None,
        Some(JsonValue::Text(t)) => {
            if *t == String::from_str("FAT12") {
                Some(FatVariant::Fat12)
            } else if *t == String::from_str("FAT16") {
                Some(FatVariant::Fat16)
            } else if *t == String::from_str("FAT32") {
                Some(FatVariant::Fat32)
            } else {
                return Err(ParseError::InvalidVariant);
            }
        },
        Some(_) => {
            return Err(ParseError::WrongType(FieldName::Variant));
        },
    };
    Ok(Manifest { files, directories, out, variant })
}

proof fn lemma_lookup_two_misses(f: Seq<(String, JsonValue)>, key: Seq<char>)
    requires
        f.len() == 2,
        f[0].0@ != key,
        f[1].0@ != key,
    ensures
        spec_lookup(f, key) is None,
{
    assert(f.drop_first()[0] == f[1]);
    assert(spec_lookup(f.drop_first().drop_first(), key) is None);
    assert(spec_lookup(f.drop_first(), key) is None);
}


/// Which of the schema's known key spellings have already appeared in one
/// JSON object, and whether the frame is an object at all.
#[derive(Clone, Copy)]
pub struct ObjectKeys {
    pub is_obj: bool,
    pub k_source: bool,
    pub k_in: bool,
    pub k_filename: bool,
    pub k_destination: bool,
    pub k_out: bool,
    pub k_output: bool,
    pub k_files: bool,
    pub k_directories: bool,
    pub k_variant: bool,
    pub k_build_args: bool,
}

/// The scanner's state between characters: inside a string or not, whether
/// the next string closes an escape, whether the next string would be an
/// object key, the characters of the string being read, and one frame of
/// seen keys per open container.
#[verifier::ext_equal]
pub struct ScanState {
    pub in_string: bool,
    pub escaped: bool,
    pub next_is_key: bool,
    pub cur: Seq<char>,
    pub stack: Seq<ObjectKeys>,
}

pub open spec fn scan_init() -> ScanState {
    ScanState {
        in_string: false,
        escaped: false,
        next_is_key: false,
        cur: Seq::empty(),
        stack: Seq::empty(),
    }
}

pub open spec fn fresh_frame(is_obj: bool) -> ObjectKeys {
    ObjectKeys {
        is_obj,
        k_source: false,
        k_in: false,
        k_filename: false,
        k_destination: false,
        k_out: false,
        k_output: false,
        k_files: false,
        k_directories: false,
        k_variant: false,
        k_build_args: false,
    }
}

/// Records one object key against a frame: a known spelling seen for the
/// second time letter-for-letter is the duplicate the schema rejects; an
/// unknown key records nothing, as the schema ignores unknown fields.
pub open spec fn spec_record_key(f: ObjectKeys, cur: Seq<char>) -> Result<ObjectKeys, FieldName> {
    if cur == "source"@ {
        if f.k_source {
            Err(FieldName::Source)
        } else {
            Ok(ObjectKeys { k_source: true, ..f })
        }
    } else if cur == "in"@ {
        if f.k_in {
            Err(FieldName::Source)
        } else {
            Ok(ObjectKeys { k_in: true, ..f })
        }
    } else if cur == "filename"@ {
        if f.k_filename {
            Err(FieldName::Source)
        } else {
            Ok(ObjectKeys { k_filename: true, ..f })
        }
    } else if cur == "destination"@ {
        if f.k_destination {
            Err(FieldName::Destination)
        } else {
            Ok(ObjectKeys { k_destination: true, ..f })
        }
    } else if cur == "out"@ {
        if f.k_out {
            Err(FieldName::Output)
        } else {
            Ok(ObjectKeys { k_out: true, ..f })
        }
    } else if cur == "output"@ {
        if f.k_output {
            Err(FieldName::Output)
        } else {
            Ok(ObjectKeys { k_output: true, ..f })
        }
    } else if cur == "files"@ {
        if f.k_files {
            Err(FieldName::Files)
        } else {
            Ok(ObjectKeys { k_files: true, ..f })
        }
    } else if cur == "directories"@ {
        if f.k_directories {
            Err(FieldName::Directories)
        } else {
            Ok(ObjectKeys { k_directories: true, ..f })
        }
    } else if cur == "variant"@ {
        if f.k_variant {
            Err(FieldName::Variant)
        } else {
            Ok(ObjectKeys { k_variant: true, ..f })
        }
    } else if cur == "build_args"@ {
        if f.k_build_args {
            Err(FieldName::BuildArgs)
        } else {
            Ok(ObjectKeys { k_build_args: true, ..f })
        }
    } else {
        Ok(f)
    }
}

/// One character of the scan.  Inside a string, characters accumulate and a
/// backslash escapes the next one; a closing quote in key position records
/// the key against the innermost frame.  Outside strings, braces and
/// brackets push and pop frames, a comma inside an object makes the next
/// string a key again, and a colon ends key position.
pub open spec fn spec_scan_step(st: ScanState, c: char) -> (ScanState, Option<FieldName>) {
    if st.in_string {
        if st.escaped {
            (ScanState { escaped: false, cur: st.cur.push(c), ..st }, None)
        } else if c == '\\' {
            (ScanState { escaped: true, ..st }, None)
        } else if c == '"' {
            if st.next_is_key && st.stack.len() > 0 && st.stack.last().is_obj {
                match spec_record_key(st.stack.last(), st.cur) {
                    Err(f) => (st, Some(f)),
                    Ok(fr) => (
                        ScanState {
                            in_string: false,
                            cur: Seq::empty(),
                            stack: st.stack.drop_last().push(fr),
                            ..st
                        },
                        None,
                    ),
                }
            } else {
                (ScanState { in_string: false, cur: Seq::empty(), ..st }, None)
            }
        } else {
            (ScanState { cur: st.cur.push(c), ..st }, None)
        }
    } else if c == '"' {
        (ScanState { in_string: true, escaped: false, cur: Seq::empty(), ..st }, None)
    } else if c == '{' {
        (ScanState { next_is_key: true, stack: st.stack.push(fresh_frame(true)), ..st }, None)
    } else if c == '[' {
        (ScanState { next_is_key: false, stack: st.stack.push(fresh_frame(false)), ..st }, None)
    } else if c == '}' || c == ']' {
        if st.stack.len() > 0 {
            (ScanState { next_is_key: false, stack: st.stack.drop_last(), ..st }, None)
        } else {
            (ScanState { next_is_key: false, ..st }, None)
        }
    } else if c == ',' {
        (
            ScanState { next_is_key: st.stack.len() > 0 && st.stack.last().is_obj, ..st },
            None,
        )
    } else if c == ':' {
        (ScanState { next_is_key: false, ..st }, None)
    } else {
        (st, None)
    }
}

/// The first duplicate known key that scanning the text from index `i`
/// onward reports.
pub open spec fn spec_scan_from(s: Seq<char>, i: int, st: ScanState) -> Option<FieldName>
    decreases s.len() - i when 0 <= i <= s.len()
{
    if i >= s.len() {
        None
    } else {
        let step = spec_scan_step(st, s[i]);
        if step.1 is Some {
            step.1
        } else {
            spec_scan_from(s, i + 1, step.0)
        }
    }
}

/// The first known key spelling that any single object of the JSON text
/// repeats letter-for-letter, if one exists.  Reliable on well-formed JSON
/// texts; a key written with escape sequences is not identified with its
/// plain spelling.
pub open spec fn spec_scan_keys(s: Seq<char>) -> Option<FieldName> {
    spec_scan_from(s, 0, scan_init())
}


fn vec_eq_str(v: &Vec<char>, s: &str) -> (r: bool)
    ensures
        r == (v@ == s@),
{
    let sn = s.unicode_len();
    if v.len() != sn {
        proof {
            if v@ == s@ {
                assert(v@.len() == s@.len());
            }
        }
        return false;
    }
    let mut i: usize = 0;
    while i < sn
        invariant
            i <= sn,
            sn == s@.len(),
            v@.len() == sn,
            forall|j: int| 0 <= j < i ==> v@[j] == s@[j],
        decreases sn - i,
    {
        if v[i] != s.get_char(i) {
            return false;
        }
        i = i + 1;
    }
    proof {
        assert(v@ =~= s@);
    }
    true
}

fn record_key(f: ObjectKeys, cur: &Vec<char>) -> (r: Result<ObjectKeys, FieldName>)
    ensures
        r == spec_record_key(f, cur@),
{
    if vec_eq_str(cur, "source") {
        if f.k_source {
            Err(FieldName::Source)
        } else {
            Ok(ObjectKeys { k_source: true, ..f })
        }
    } else if vec_eq_str(cur, "in") {
        if f.k_in {
            Err(FieldName::Source)
        } else {
            Ok(ObjectKeys { k_in: true, ..f })
        }
    } else if vec_eq_str(cur, "filename") {
        if f.k_filename {
            Err(FieldName::Source)
        } else {
            Ok(ObjectKeys { k_filename: true, ..f })
        }
    } else if vec_eq_str(cur, "destination") {
        if f.k_destination {
            Err(FieldName::Destination)
        } else {
            Ok(ObjectKeys { k_destination: true, ..f })
        }
    } else if vec_eq_str(cur, "out") {
        if f.k_out {
            Err(FieldName::Output)
        } else {
            Ok(ObjectKeys { k_out: true, ..f })
        }
    } else if vec_eq_str(cur, "output") {
        if f.k_output {
            Err(FieldName::Output)
        } else {
            Ok(ObjectKeys { k_output: true, ..f })
        }
    } else if vec_eq_str(cur, "files") {
        if f.k_files {
            Err(FieldName::Files)
        } else {
            Ok(ObjectKeys { k_files: true, ..f })
        }
    } else if vec_eq_str(cur, "directories") {
        if f.k_directories {
            Err(FieldName::Directories)
        } else {
            Ok(ObjectKeys { k_directories: true, ..f })
        }
    } else if vec_eq_str(cur, "variant") {
        if f.k_variant {
            Err(FieldName::Variant)
        } else {
            Ok(ObjectKeys { k_variant: true, ..f })
        }
    } else if vec_eq_str(cur, "build_args") {
        if f.k_build_args {
            Err(FieldName::BuildArgs)
        } else {
            Ok(ObjectKeys { k_build_args: true, ..f })
        }
    } else {
        Ok(f)
    }
}

/// Screens a JSON text for a known key spelling repeated letter-for-letter
/// inside one object — the repeat the JSON reading would otherwise collapse
/// silently.
pub fn scan_duplicate_keys(text: &str) -> (r: Option<FieldName>)
    ensures
        r == spec_scan_keys(text@),
{
    let n = text.unicode_len();
    let mut in_string: bool = false;
    let mut escaped: bool = false;
    let mut next_is_key: bool = false;
    let mut cur: Vec<char> = Vec::new();
    let mut stack: Vec<ObjectKeys> = Vec::new();
    let mut i: usize = 0;
    proof {
        assert(ScanState {
            in_string,
            escaped,
            next_is_key,
            cur: cur@,
            stack: stack@,
        } =~= scan_init());
    }
    while i < n
        invariant
            i <= n,
            n == text@.len(),
            spec_scan_keys(text@) == spec_scan_from(
                text@,
                i as int,
                ScanState { in_string, escaped, next_is_key, cur: cur@, stack: stack@ },
            ),
        decreases n - i,
    {
        let ghost st = ScanState { in_string, escaped, next_is_key, cur: cur@, stack: stack@ };
        let c = text.get_char(i);
        if in_string {
            if escaped {
                escaped = false;
                cur.push(c);
            } else if c == '\\' {
                escaped = true;
            } else if c == '"' {
                let top_is_obj = if stack.len() > 0 {
                    stack[stack.len() - 1].is_obj
                } else {
                    false
                };
                if next_is_key && top_is_obj {
                    let f = stack[stack.len() - 1];
                    proof {
                        assert(f == st.stack.last());
                    }
                    match record_key(f, &cur) {
                        Err(dup) => {
                            return Some(dup);
                        },
                        Ok(fr) => {
                            let _ = stack.pop();
                            stack.push(fr);
                            in_string = false;
                            cur = Vec::new();
                        },
                    }
                } else {
                    in_string = false;
                    cur = Vec::new();
                }
            } else {
                cur.push(c);
            }
        } else if c == '"' {
            in_string = true;
            escaped = false;
            cur = Vec::new();
        } else if c == '{' {
            next_is_key = true;
            stack.push(fresh_frame_exec(true));
        } else if c == '[' {
            next_is_key = false;
            stack.push(fresh_frame_exec(false));
        } else if c == '}' || c == ']' {
            next_is_key = false;
            if stack.len() > 0 {
                let _ = stack.pop();
            }
        } else if c == ',' {
            next_is_key = stack.len() > 0 && stack[stack.len() - 1].is_obj;
        } else if c == ':' {
            next_is_key = false;
        }
        proof {
            let step = spec_scan_step(st, text@[i as int]);
            assert(step.1 is None);
            assert(ScanState {
                in_string,
                escaped,
                next_is_key,
                cur: cur@,
                stack: stack@,
            } =~= step.0);
        }
        i = i + 1;
    }
    None
}

fn fresh_frame_exec(is_obj: bool) -> (r: ObjectKeys)
    ensures
        r == fresh_frame(is_obj),
{
    ObjectKeys {
        is_obj,
        k_source: false,
        k_in: false,
        k_filename: false,
        k_destination: false,
        k_out: false,
        k_output: false,
        k_files: false,
        k_directories: false,
        k_variant: false,
        k_build_args: false,
    }
}

/// Law: a bare-string file entry is equivalent to the object form that
/// spells out the same path as both source and destination — both readings
/// succeed and resolve to the same (source, destination) pair.
pub proof fn lemma_string_entry_equivalent(s: String, v: JsonValue)
    requires
        v matches JsonValue::Obj(fields) && fields@.len() == 2 && fields@[0].0@ == "source"@ && (
        fields@[0].1 matches JsonValue::Text(t1) && t1@ == s@) && fields@[1].0@ == "destination"@
            && (fields@[1].1 matches JsonValue::Text(t2) && t2@ == s@),
    ensures
        spec_entry_of(JsonValue::Text(s)) matches Ok(b) && b.spec_in() == s@ && b.spec_out()
            == s@,
        spec_entry_of(v) matches Ok(o) && o.spec_in() == s@ && o.spec_out() == s@,
{
    reveal_strlit("source");
    reveal_strlit("in");
    reveal_strlit("filename");
    reveal_strlit("destination");
    reveal_strlit("out");
    reveal_strlit("output");
    let fields = v->Obj_0;
    let f = fields@;
    assert(f.drop_first()[0] == f[1]);
    assert(f.drop_first().drop_first().len() == 0);
    assert(("source"@).len() == 6);
    assert(("in"@).len() == 2);
    assert(("filename"@).len() == 8);
    assert(("destination"@).len() == 11);
    assert(("out"@).len() == 3);
    assert(("output"@).len() == 6);
    assert(("source"@)[0] == 's' && ("output"@)[0] == 'o');
    assert(f[0].0@ != "in"@ && f[1].0@ != "in"@);
    assert(f[0].0@ != "filename"@ && f[1].0@ != "filename"@);
    assert(f[0].0@ != "out"@ && f[1].0@ != "out"@);
    assert(f[0].0@ != "output"@ && f[1].0@ != "output"@);
    assert(f[0].0@ != "destination"@);
    assert(spec_lookup(f, "source"@) == Some(f[0].1));
    lemma_lookup_two_misses(f, "in"@);
    lemma_lookup_two_misses(f, "filename"@);
    lemma_lookup_two_misses(f, "out"@);
    lemma_lookup_two_misses(f, "output"@);
    assert(spec_lookup(f.drop_first(), "destination"@) == Some(f[1].1));
    assert(spec_lookup(f, "destination"@) == Some(f[1].1));
    assert(spec_alias_count(f, "source"@, "in"@, "filename"@) == 1);
    assert(spec_alias_count(f, "destination"@, "out"@, "output"@) == 1);
}

/// Law: the manifest reading is a function of the manifest text alone, so a
/// manifest supplied on standard input and the same text supplied through a
/// file path resolve to identical results.
pub proof fn lemma_manifest_source_irrelevant(s1: Seq<char>, s2: Seq<char>)
    requires
        s1 == s2,
    ensures
        spec_parse_manifest(s1) == spec_parse_manifest(s2),
{
}

/// Parses a manifest text into the typed model: the whole reading is a
/// function of the text's characters alone.  A well-formed document is
/// first screened for a known key repeated letter-for-letter in one object,
/// which the JSON reading alone would collapse silently.
pub fn parse_manifest(text: &str) -> (r: Result<Manifest, ParseError>)
    ensures
        spec_parse_manifest(text@) matches Ok(t) ==> r is Ok && r->Ok_0.files@ == t.0
            && r->Ok_0.directories@ == t.1 && r->Ok_0.out == t.2 && r->Ok_0.variant == t.3,
        spec_parse_manifest(text@) matches Err(e) ==> r == Err::<Manifest, ParseError>(e),
{
    match crate::json::parse_json(text) {
        None => Err(ParseError::Json),
        Some(v) => match scan_duplicate_keys(text) {
            Some(f) => Err(ParseError::DuplicateField(f)),
            None => manifest_from_json(&v),
        },
    }
}

} // verus!

use vstd::prelude::*;

use crate::manifest::{FatVariant, Manifest};


verus! {

use vstd::string::*;

/// Pads or truncates a volume label to the fixed 11-byte field that the
/// FAT boot sector reserves for it, filling the tail with ASCII spaces.
pub fn pad_label(label: &Vec<u8>) -> (r: [u8; 11])
    ensures
        forall|i: int| 0 <= i < 11 ==> r@[i] == (if i < label@.len() {
            label@[i]
        } else {
            32u8
        }),
{
    let mut out: [u8; 11] = [32u8; 11];
    let mut i: usize = 0;
    while i < 11 && i < label.len()
        invariant
            i <= 11,
            i <= label@.len(),
            forall|j: int| 0 <= j < i ==> out@[j] == label@[j],
            forall|j: int| i <= j < 11 ==> out@[j] == 32u8,
        decreases 11 - i,
    {
        out[i] = label[i];
        i = i + 1;
    }
    out
}

/// The configuration values supplied on the command line, already reduced to
/// plain data: flag spelling and terminal I/O stay outside the library.
/// `base` must already be an absolute path; making it absolute against the
/// process's working directory happens before the library is entered, so that
/// relative source paths stay well-defined.
pub struct CliOverrides {
    pub output: Option<String>,
    pub size_mb: u64,
    pub label: Vec<u8>,
    pub variant: Option<FatVariant>,
    pub base: String,
}

/// The fully resolved build parameters for one run.
pub struct EffectiveConfig {
    pub output: String,
    pub size_bytes: u64,
    pub label: [u8; 11],
    pub variant: FatVariant,
    pub base: String,
}

/// Why configuration resolution failed.
#[derive(Clone, Copy, PartialEq, Eq, Structural, Debug)]
pub enum ConfigError {
    /// Neither the command line nor the manifest declared an output path.
    NoOutputPath,
}

/// The variant that wins: the command line's if given, else the manifest's,
/// else the FAT32 default.
pub open spec fn spec_effective_variant(
    cli_variant: Option<FatVariant>,
    manifest_variant: Option<FatVariant>,
) -> FatVariant {
    match cli_variant {
        Some(v) => v,
        None => match manifest_variant {
            Some(v) => v,
            None => FatVariant::Fat32,
        },
    }
}

/// Joining a manifest-declared output filename onto the base directory: an
/// absolute filename stands alone; otherwise the two are joined with exactly
/// one separator between them.
pub open spec fn spec_join_path(base: Seq<char>, name: Seq<char>) -> Seq<char> {
    if name.len() > 0 && name[0] == '/' {
        name
    } else if base.len() > 0 && base[base.len() - 1] == '/' {
        base + name
    } else {
        base + seq!['/'] + name
    }
}

/// Joins a relative filename onto the base directory path.
pub fn join_path(base: &String, name: &String) -> (r: String)
    ensures
        r@ == spec_join_path(base@, name@),
{
    if name.unicode_len() > 0 && name.as_str().get_char(0) == '/' {
        return name.clone();
    }
    let mut out = base.clone();
    let blen = base.unicode_len();
    if !(blen > 0 && base.as_str().get_char(blen - 1) == '/') {
        out.append("/");
        proof {
            reveal_strlit("/");
        }
    }
    out.append(name.as_str());
    out
}

/// Merges the command line's overrides with the manifest's declarations into
/// one effective configuration.  Each field resolves independently: an
/// explicit command-line value always wins, a manifest value is used next,
/// and a fixed default last — except the output path, which has no default:
/// resolution fails exactly when neither source declares one.
pub fn resolve(cli: &CliOverrides, m: &Manifest) -> (r: Result<EffectiveConfig, ConfigError>)
    requires
        cli.size_mb * 1024 * 1024 <= u64::MAX,
    ensures
        r is Ok <==> !(cli.output is None && m.out is None),
        r is Err ==> r == Err::<EffectiveConfig, ConfigError>(ConfigError::NoOutputPath),
        r is Ok ==> r->Ok_0.variant == spec_effective_variant(cli.variant, m.variant),
        r is Ok ==> r->Ok_0.size_bytes == cli.size_mb * 1024 * 1024,
        r is Ok ==> forall|i: int|
            0 <= i < 11 ==> r->Ok_0.label@[i] == (if i < cli.label@.len() {
                cli.label@[i]
            } else {
                32u8
            }),
        cli.output matches Some(o) ==> r is Ok && r->Ok_0.output == o,
        cli.output is None ==> (m.out matches Some(n) ==> r is Ok && r->Ok_0.output@
            == spec_join_path(cli.base@, n@)),
        r is Ok ==> r->Ok_0.base == cli.base,
{
    let output = match &cli.output {
        Some(o) => o.clone(),
        None => match &m.out {
            Some(n) => join_path(&cli.base, n),
            None => {
                return Err(ConfigError::NoOutputPath);
            },
        },
    };
    let variant = match cli.variant {
        Some(v) => v,
        None => match m.variant {
            Some(v) => v,
            None => FatVariant::Fat32,
        },
    };
    Ok(
        EffectiveConfig {
            output,
            size_bytes: cli.size_mb * 1024 * 1024,
            label: pad_label(&cli.label),
            variant,
            base: cli.base.clone(),
        },
    )
}

} // verus!

use mkfat::config::{resolve, CliOverrides, ConfigError};
use mkfat::manifest::{parse_manifest, FatVariant, Manifest};
use mkfat::config::pad_label;

fn cli(output: Option<&str>, variant: Option<FatVariant>) -> CliOverrides {
    CliOverrides {
        output: output.map(|s| s.to_string()),
        size_mb: 16,
        label: b"FATFS".to_vec(),
        variant,
        base: "/base".to_string(),
    }
}

fn manifest(out: Option<&str>, variant: Option<FatVariant>) -> Manifest {
    Manifest {
        files: Vec::new(),
        directories: Vec::new(),
        out: out.map(|s| s.to_string()),
        variant,
    }
}

#[test]
fn cli_output_wins_over_manifest() {
    let c = resolve(&cli(Some("cli_out.fat"), None), &manifest(Some("manifest_out.fat"), None))
        .unwrap();
    assert_eq!(c.output, "cli_out.fat");
}

#[test]
fn manifest_output_joined_to_base() {
    let c = resolve(&cli(None, None), &manifest(Some("m.fat"), None)).unwrap();
    assert_eq!(c.output, "/base/m.fat");
}

#[test]
fn no_output_anywhere_is_fatal() {
    let r = resolve(&cli(None, None), &manifest(None, None));
    assert_eq!(r.err().unwrap(), ConfigError::NoOutputPath);
}

#[test]
fn cli_variant_wins_over_manifest() {
    let c = resolve(&cli(Some("o.fat"), Some(FatVariant::Fat32)), &manifest(
        None,
        Some(FatVariant::Fat16),
    ))
    .unwrap();
    assert_eq!(c.variant, FatVariant::Fat32);
}

#[test]
fn manifest_variant_used_when_cli_silent() {
    let c = resolve(&cli(Some("o.fat"), None), &manifest(None, Some(FatVariant::Fat12))).unwrap();
    assert_eq!(c.variant, FatVariant::Fat12);
}

#[test]
fn default_variant_when_both_silent() {
    let c = resolve(&cli(Some("o.fat"), None), &manifest(None, None)).unwrap();
    assert_eq!(c.variant, FatVariant::Fat32);
}

#[test]
fn size_is_megabytes_in_bytes() {
    let mut c = cli(Some("o.fat"), None);
    c.size_mb = 4;
    let cfg = resolve(&c, &manifest(None, None)).unwrap();
    assert_eq!(cfg.size_bytes, 4 * 1024 * 1024);
}

#[test]
fn label_padded_to_eleven_bytes() {
    assert_eq!(&pad_label(&b"BOOT".to_vec()), b"BOOT       ");
    assert_eq!(&pad_label(&b"".to_vec()), b"           ");
    assert_eq!(&pad_label(&b"TWELVECHARS!".to_vec()), b"TWELVECHARS");
}

#[test]
fn resolve_carries_label_and_base() {
    let mut c = cli(Some("o.fat"), None);
    c.label = b"BOOT".to_vec();
    let cfg = resolve(&c, &manifest(None, None)).unwrap();
    assert_eq!(&cfg.label, b"BOOT       ");
    assert_eq!(cfg.base, "/base");
}

#[test]
fn precedence_from_parsed_manifest() {
    let m = parse_manifest(r#"{"build_args": {"files": [], "variant": "FAT16"}, "out": "m.fat"}"#)
        .unwrap();
    let c = resolve(&cli(None, None), &m).unwrap();
    assert_eq!(c.output, "/base/m.fat");
    assert_eq!(c.variant, FatVariant::Fat16);
    let c2 = resolve(&cli(Some("cli.fat"), Some(FatVariant::Fat32)), &m).unwrap();
    assert_eq!(c2.output, "cli.fat");
    assert_eq!(c2.variant, FatVariant::Fat32);
}

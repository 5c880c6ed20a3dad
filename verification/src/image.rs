use vstd::prelude::*;

use crate::manifest::FatVariant;
use crate::paths::valid_component;

verus! {

use vstd::string::*;

/// A failure reported by the FAT formatting library, with its own wording
/// kept so that the final diagnostic can show it.
#[derive(Debug)]
pub struct FsError {
    pub detail: String,
}

#[verifier::external_type_specification]
#[verifier::external_body]
pub struct ExIoError(std::io::Error);

/// Relies on std::io::Error's Display impl: keeps the error's wording.
#[verifier::external_body]
fn io_err(e: std::io::Error) -> FsError {
    FsError { detail: format!("{}", e) }
}

/// An in-memory FAT image: the backing bytes of the volume, owned for the
/// whole run.  Every operation hands the FAT library a fresh handle over
/// these bytes, positioned at the start as the library requires.
pub struct FatImage {
    bytes: Vec<u8>,
}

/// How the FAT library folds a name for lookup: it compares names ignoring
/// character case, so two names with the same fold reach the same entry.
/// The fold depends on the characters alone.
pub uninterp spec fn fat_fold(name: Seq<char>) -> Seq<char>;

/// The directories present in the image, as folded component paths.
pub uninterp spec fn img_dirs(img: FatImage) -> Set<Seq<Seq<char>>>;

/// The files present in the image: folded component paths to their bytes.
pub uninterp spec fn img_files(img: FatImage) -> Map<Seq<Seq<char>>, Seq<u8>>;

/// The 11-byte volume label recorded in the image's boot sector.
pub uninterp spec fn img_label(img: FatImage) -> Seq<u8>;

/// A component path under the library's name fold.
pub open spec fn fold_path(p: Seq<Seq<char>>) -> Seq<Seq<char>>
    decreases p.len(),
{
    if p.len() == 0 {
        Seq::empty()
    } else {
        seq![fat_fold(p[0])] + fold_path(p.drop_first())
    }
}

/// Whether every entry of a component path may be handed to the FAT library
/// as one name.
pub open spec fn wrappable_path(p: Seq<String>) -> bool {
    &&& p.len() >= 1
    &&& forall|i: int| 0 <= i < p.len() ==> valid_component(p[i]@)
}

/// Whether the image already holds path `p` as a directory, with every
/// ancestor of it a directory too — the state in which reopening it cannot
/// fail.
pub open spec fn dir_chain_present(img: FatImage, p: Seq<Seq<char>>) -> bool {
    &&& img_dirs(img).contains(fold_path(p))
    &&& forall|k: int| 1 <= k < p.len() ==> img_dirs(img).contains(fold_path(p).take(k))
}

/// Whether formatting a volume of the given byte size with the given
/// variant hint succeeds: the layout computation depends on these two
/// arguments alone.
pub uninterp spec fn format_ok(size: nat, variant: FatVariant) -> bool;

/// A byte sequence with its trailing ASCII spaces removed, the way the FAT
/// library reports a label read back from the boot sector.
pub open spec fn trim_trailing_spaces(s: Seq<u8>) -> Seq<u8>
    decreases s.len(),
{
    if s.len() == 0 {
        s
    } else if s.last() == 32u8 {
        trim_trailing_spaces(s.drop_last())
    } else {
        s
    }
}

impl FatImage {
    /// The backing store's bytes, which every model function of the image
    /// is a function of.
    pub closed spec fn spec_bytes(self) -> Seq<u8> {
        self.bytes@
    }

    /// The size of the backing store in bytes.
    pub closed spec fn spec_byte_len(self) -> nat {
        self.bytes@.len()
    }

    pub fn byte_len(&self) -> (r: usize)
        ensures
            r == self.spec_byte_len(),
    {
        self.bytes.len()
    }

    /// Surrenders the finished image's backing bytes: exactly the bytes the
    /// model functions describe.
    pub fn into_bytes(self) -> (r: Vec<u8>)
        ensures
            r@ == self.spec_bytes(),
            r@.len() == self.spec_byte_len(),
    {
        self.bytes
    }
}

/// Relies on fatfs::format_volume: writes a boot sector carrying the given
/// label, fresh allocation tables and an empty root directory into the
/// buffer, sizing the layout from the buffer's length; the requested variant
/// is handed on as the format hint.  Whether the layout computation accepts
/// the volume depends on the buffer's length and the hint alone, which
/// `format_ok` names.  The handle it is given starts at position zero, as
/// its documentation requires.
#[verifier::external_body]
pub(crate) fn format_volume_raw(storage: Vec<u8>, label: [u8; 11], variant: FatVariant) -> (r:
    Result<FatImage, FsError>)
    ensures
        r is Ok <==> format_ok(storage@.len(), variant),
        r matches Ok(img) ==> {
            &&& img.spec_byte_len() == storage@.len()
            &&& img_dirs(img) == Set::<Seq<Seq<char>>>::empty()
            &&& img_files(img) == Map::<Seq<Seq<char>>, Seq<u8>>::empty()
            &&& img_label(img) == label@
        },
{
    let mut bytes = storage;
    let fat_type = match variant {
        FatVariant::Fat12 => fatfs::FatType::Fat12,
        FatVariant::Fat16 => fatfs::FatType::Fat16,
        FatVariant::Fat32 => fatfs::FatType::Fat32,
    };
    let opts = fatfs::FormatVolumeOptions::new().volume_label(label).fat_type(fat_type);
    fatfs::format_volume(std::io::Cursor::new(&mut bytes), opts).map_err(io_err)?;
    Ok(FatImage { bytes })
}

/// Relies on fatfs::Dir::create_dir: resolves each `/`-separated component
/// against its parent ignoring character case, creates the final component
/// if it is missing, and returns the directory unchanged if it already
/// exists; a missing or non-directory intermediate is an error, never a
/// panic.  Lookups also match an entry's generated 8.3 alias; an alias that
/// disagrees with the fold of the entry's own name either carries a tilde
/// or is the trailing-dot basename form, and `valid_component` excludes
/// both, so under this precondition each component resolves exactly the
/// folded long names.  A directory whose folded path is already present,
/// reachable through present ancestors, is reopened without any allocation,
/// so that call cannot fail.
#[verifier::external_body]
pub(crate) fn img_create_dir(img: &mut FatImage, comps: &Vec<String>) -> (r: Result<(), FsError>)
    requires
        wrappable_path(comps@),
    ensures
        r is Ok ==> img_dirs(*final(img)) == img_dirs(*old(img)).insert(
            fold_path(comps.deep_view()),
        ),
        r is Ok && comps@.len() == 1 ==> img_dirs(*final(img)).contains(
            seq![fat_fold(comps@[0]@)],
        ),
        r is Ok ==> img_files(*final(img)) == img_files(*old(img)),
        r is Ok ==> img_label(*final(img)) == img_label(*old(img)),
        r is Ok ==> final(img).spec_byte_len() == old(img).spec_byte_len(),
        r is Ok ==> forall|k: int|
            1 <= k < comps@.len() ==> img_dirs(*old(img)).contains(
                fold_path(comps.deep_view()).take(k),
            ),
        r is Ok ==> !img_files(*old(img)).dom().contains(fold_path(comps.deep_view())),
        dir_chain_present(*old(img), comps.deep_view()) ==> r is Ok,
{
    let path = comps.join("/");
    let fs = fatfs::FileSystem::new(std::io::Cursor::new(&mut img.bytes), fatfs::FsOptions::new())
        .map_err(io_err)?;
    let res = fs.root_dir().create_dir(&path).map(|_| ()).map_err(io_err);
    res
}

/// Relies on fatfs::Dir::create_file, fatfs::File::truncate and
/// fatfs::File::write_all: resolves the `/`-separated path ignoring
/// character case, creates the leaf file or opens the existing one, cuts it
/// to length zero, and writes the full content; intermediate components must
/// already be directories, or an error comes back.  As with directory
/// creation, components free of tildes and trailing dots cannot collide
/// with a generated 8.3 alias that disagrees with a folded name, so the
/// leaf opened is exactly the one the folded path names.
#[verifier::external_body]
pub(crate) fn img_create_file(img: &mut FatImage, comps: &Vec<String>, data: &Vec<u8>) -> (r:
    Result<(), FsError>)
    requires
        wrappable_path(comps@),
    ensures
        r is Ok ==> img_files(*final(img)) == img_files(*old(img)).insert(
            fold_path(comps.deep_view()),
            data@,
        ),
        r is Ok ==> img_dirs(*final(img)) == img_dirs(*old(img)),
        r is Ok ==> img_label(*final(img)) == img_label(*old(img)),
        r is Ok ==> final(img).spec_byte_len() == old(img).spec_byte_len(),
        r is Ok ==> forall|k: int|
            1 <= k < comps@.len() ==> img_dirs(*old(img)).contains(
                fold_path(comps.deep_view()).take(k),
            ),
        r is Ok ==> !img_dirs(*old(img)).contains(fold_path(comps.deep_view())),
{
    let path = comps.join("/");
    let fs = fatfs::FileSystem::new(std::io::Cursor::new(&mut img.bytes), fatfs::FsOptions::new())
        .map_err(io_err)?;
    let root = fs.root_dir();
    let mut f = root.create_file(&path).map_err(io_err)?;
    f.truncate().map_err(io_err)?;
    std::io::Write::write_all(&mut f, data.as_slice()).map_err(io_err)?;
    Ok(())
}

/// Relies on fatfs::Dir::open_file and fatfs::File::read_to_end: resolves
/// the `/`-separated path ignoring character case and reads the whole file
/// back; a file the image holds under that folded path is found and its
/// recorded bytes are returned.  Nothing in the image changes.
#[verifier::external_body]
pub(crate) fn img_read_file(img: &mut FatImage, comps: &Vec<String>) -> (r: Result<
    Vec<u8>,
    FsError,
>)
    requires
        wrappable_path(comps@),
    ensures
        *final(img) == *old(img),
        r is Ok ==> img_files(*old(img)).dom().contains(fold_path(comps.deep_view())),
        r matches Ok(d) ==> (img_files(*old(img)).dom().contains(fold_path(comps.deep_view()))
            ==> d@ == img_files(*old(img))[fold_path(comps.deep_view())]),
        img_files(*old(img)).dom().contains(fold_path(comps.deep_view())) && (forall|k: int|
            1 <= k < comps@.len() ==> img_dirs(*old(img)).contains(
                fold_path(comps.deep_view()).take(k),
            )) ==> r is Ok,
{
    let path = comps.join("/");
    let fs = fatfs::FileSystem::new(std::io::Cursor::new(&mut img.bytes), fatfs::FsOptions::new())
        .map_err(io_err)?;
    let root = fs.root_dir();
    let mut f = root.open_file(&path).map_err(io_err)?;
    let mut data: Vec<u8> = Vec::new();
    std::io::Read::read_to_end(&mut f, &mut data).map_err(io_err)?;
    Ok(data)
}

/// Relies on fatfs::Dir::open_dir: resolves the `/`-separated path ignoring
/// character case; a directory the image holds under that folded path is
/// found.  Nothing in the image changes.
#[verifier::external_body]
pub(crate) fn img_open_dir(img: &mut FatImage, comps: &Vec<String>) -> (r: Result<(), FsError>)
    requires
        wrappable_path(comps@),
    ensures
        *final(img) == *old(img),
        img_dirs(*old(img)).contains(fold_path(comps.deep_view())) ==> r is Ok,
{
    let path = comps.join("/");
    let fs = fatfs::FileSystem::new(std::io::Cursor::new(&mut img.bytes), fatfs::FsOptions::new())
        .map_err(io_err)?;
    let res = fs.root_dir().open_dir(&path).map(|_| ()).map_err(io_err);
    res
}

/// Relies on fatfs::FileSystem::volume_label_as_bytes: returns the boot
/// sector's 11-byte label with its trailing spaces removed.  Nothing in the
/// image changes, and the read succeeds: every value of this type came out
/// of the format call, whose boot sector the library validated before
/// writing, so mounting it again cannot fail.
#[verifier::external_body]
fn img_volume_label_raw(img: &mut FatImage) -> (r: Result<Vec<u8>, FsError>)
    ensures
        *final(img) == *old(img),
        r is Ok,
        r matches Ok(l) ==> l@ == trim_trailing_spaces(img_label(*old(img))),
{
    let fs = fatfs::FileSystem::new(std::io::Cursor::new(&mut img.bytes), fatfs::FsOptions::new())
        .map_err(io_err)?;
    let label = fs.volume_label_as_bytes().to_vec();
    Ok(label)
}

/// The image's volume label, as the FAT library reports it: the boot
/// sector's 11-byte field with trailing spaces trimmed away.
pub fn volume_label(img: &mut FatImage) -> (r: Result<Vec<u8>, FsError>)
    ensures
        *final(img) == *old(img),
        r is Ok,
        r matches Ok(l) ==> l@ == trim_trailing_spaces(img_label(*old(img))),
{
    img_volume_label_raw(img)
}

/// Whether reading back `d` at path `p` agrees with the image's file map.
pub open spec fn file_bytes_match(img: FatImage, p: Seq<Seq<char>>, d: Seq<u8>) -> bool {
    img_files(img).dom().contains(fold_path(p)) ==> d == img_files(img)[fold_path(p)]
}

/// Whether the image is guaranteed to serve a read of path `p`: the path is
/// representable, it names a file the image holds, and every ancestor is a
/// directory the image holds.
pub open spec fn spec_path_readable(img: FatImage, p: Seq<Seq<char>>) -> bool {
    &&& crate::paths::all_components_valid(p)
    &&& p.len() >= 1
    &&& img_files(img).dom().contains(fold_path(p))
    &&& forall|k: int| 1 <= k < p.len() ==> img_dirs(img).contains(fold_path(p).take(k))
}

/// Whether the image is guaranteed to open path `p` as a directory.
pub open spec fn spec_dir_openable(img: FatImage, p: Seq<Seq<char>>) -> bool {
    &&& crate::paths::all_components_valid(p)
    &&& p.len() >= 1
    &&& img_dirs(img).contains(fold_path(p))
}

/// Reads back the file at a destination path, resolving the path string by
/// the same normalization the builder applies to destinations.
pub fn read_file(img: &mut FatImage, path: &str) -> (r: Result<Vec<u8>, FsError>)
    ensures
        *final(img) == *old(img),
        r matches Ok(d) ==> file_bytes_match(
            *old(img),
            crate::paths::spec_components(path@),
            d@,
        ),
        spec_path_readable(*old(img), crate::paths::spec_components(path@)) ==> r is Ok,
        !crate::paths::all_components_valid(crate::paths::spec_components(path@)) ==> r is Err,
        crate::paths::spec_components(path@).len() == 0 ==> r is Err,
{
    let comps = match crate::paths::normalize(path) {
        Ok(cs) => cs,
        Err(crate::paths::PathError::InvalidEncoding(c)) => {
            let mut detail = String::from_str("path component not representable in the image: ");
            detail.append(c.as_str());
            return Err(FsError { detail });
        },
    };
    if comps.len() == 0 {
        return Err(
            FsError { detail: String::from_str("path names no file") },
        );
    }
    proof {
        assert forall|t: int| 0 <= t < comps@.len() implies valid_component(comps@[t]@) by {
            assert(comps@[t]@ == comps.deep_view()[t]);
        }
    }
    img_read_file(img, &comps)
}

/// Checks that a directory path is openable in the image, resolving the
/// path string by the builder's normalization.
pub fn check_dir(img: &mut FatImage, path: &str) -> (r: Result<(), FsError>)
    ensures
        *final(img) == *old(img),
        spec_dir_openable(*old(img), crate::paths::spec_components(path@)) ==> r is Ok,
        !crate::paths::all_components_valid(crate::paths::spec_components(path@)) ==> r is Err,
        crate::paths::spec_components(path@).len() == 0 ==> r is Err,
{
    let comps = match crate::paths::normalize(path) {
        Ok(cs) => cs,
        Err(crate::paths::PathError::InvalidEncoding(c)) => {
            let mut detail = String::from_str("path component not representable in the image: ");
            detail.append(c.as_str());
            return Err(FsError { detail });
        },
    };
    if comps.len() == 0 {
        return Err(
            FsError { detail: String::from_str("path names no directory") },
        );
    }
    proof {
        assert forall|t: int| 0 <= t < comps@.len() implies valid_component(comps@[t]@) by {
            assert(comps@[t]@ == comps.deep_view()[t]);
        }
    }
    img_open_dir(img, &comps)
}

} // verus!

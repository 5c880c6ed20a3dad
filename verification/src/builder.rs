use vstd::prelude::*;

use crate::config::EffectiveConfig;
use crate::image::{
    dir_chain_present, fat_fold, fold_path, format_ok, img_create_dir, img_create_file, img_dirs,
    img_files, img_label, spec_path_readable, FatImage, FsError, format_volume_raw,
};
use crate::manifest::Manifest;
use crate::paths::{
    all_components_valid, first_invalid, normalize, spec_components, valid_component, PathError,
};

verus! {

use vstd::string::*;

/// Why a build aborted.  Every variant names the manifest entry or path
/// string responsible, so the single diagnostic a caller sees is actionable.
#[derive(Debug)]
pub enum BuildError {
    /// A declared directory string holds a component the image encoding
    /// cannot represent.
    InvalidDirectory { dir: String, component: String },
    /// A file destination holds a component the image encoding cannot
    /// represent.
    InvalidDestination { dest: String, component: String },
    /// A file destination has no components left after normalization, so
    /// no leaf file name can be extracted from it.
    EmptyDestination { dest: String },
    /// The formatting library rejected the volume.
    Format { detail: String },
    /// A directory of the given path string could not be created.
    CreateDir { dir: String, detail: String },
    /// The file for the given destination could not be created or written.
    CreateFile { dest: String, detail: String },
}

/// The folded images of the first `n` non-empty prefixes of a component
/// path: the directories that placing the path brings into being.
pub open spec fn prefix_upto(p: Seq<Seq<char>>, n: int) -> Set<Seq<Seq<char>>> {
    Set::new(|q: Seq<Seq<char>>| exists|k: int| 1 <= k <= n && q == fold_path(p.take(k)))
}

/// The directories that a list of declared directory paths creates, from
/// front to back, each contributing every prefix of itself.
pub open spec fn dirs_fold(paths: Seq<Seq<Seq<char>>>, acc: Set<Seq<Seq<char>>>) -> Set<
    Seq<Seq<char>>,
>
    decreases paths.len(),
{
    if paths.len() == 0 {
        acc
    } else {
        dirs_fold(paths.drop_first(), acc.union(prefix_upto(paths[0], paths[0].len() as int)))
    }
}

/// The directories that placing a list of file destinations creates: every
/// prefix of each destination short of the leaf itself.
pub open spec fn parent_dirs_fold(paths: Seq<Seq<Seq<char>>>, acc: Set<Seq<Seq<char>>>) -> Set<
    Seq<Seq<char>>,
>
    decreases paths.len(),
{
    if paths.len() == 0 {
        acc
    } else {
        parent_dirs_fold(
            paths.drop_first(),
            acc.union(prefix_upto(paths[0], paths[0].len() - 1)),
        )
    }
}

/// The files that placing a list of destinations with their contents
/// leaves behind, in order: a destination declared twice keeps the later
/// content.
pub open spec fn files_fold(
    paths: Seq<Seq<Seq<char>>>,
    datas: Seq<Seq<u8>>,
    acc: Map<Seq<Seq<char>>, Seq<u8>>,
) -> Map<Seq<Seq<char>>, Seq<u8>>
    decreases paths.len(),
{
    if paths.len() == 0 {
        acc
    } else {
        files_fold(
            paths.drop_first(),
            datas.drop_first(),
            acc.insert(fold_path(paths[0]), datas[0]),
        )
    }
}

/// The component paths of the manifest's declared directories, in order.
pub open spec fn spec_dir_paths(m: Manifest) -> Seq<Seq<Seq<char>>> {
    Seq::new(m.directories@.len(), |i: int| spec_components(m.directories@[i]@))
}

/// The component paths of the manifest's file destinations, in order.
pub open spec fn spec_file_paths(m: Manifest) -> Seq<Seq<Seq<char>>> {
    Seq::new(m.files@.len(), |i: int| spec_components(m.files@[i].spec_out()))
}

/// The contents to place, in entry order.
pub open spec fn spec_source_datas(sources: Seq<Vec<u8>>) -> Seq<Seq<u8>> {
    Seq::new(sources.len(), |i: int| sources[i]@)
}

/// Whether every declared path can be represented in the image, and every
/// destination names at least a leaf.
pub open spec fn spec_all_paths_valid(m: Manifest) -> bool {
    &&& forall|i: int|
        0 <= i < m.directories@.len() ==> all_components_valid(
            spec_components(m.directories@[i]@),
        )
    &&& forall|i: int|
        0 <= i < m.files@.len() ==> all_components_valid(spec_components(m.files@[i].spec_out()))
            && spec_components(m.files@[i].spec_out()).len() >= 1
}

/// The directory set a successful build leaves in the image.
pub open spec fn spec_built_dirs(m: Manifest) -> Set<Seq<Seq<char>>> {
    parent_dirs_fold(spec_file_paths(m), dirs_fold(spec_dir_paths(m), Set::empty()))
}

/// The file map a successful build leaves in the image.
pub open spec fn spec_built_files(m: Manifest, sources: Seq<Vec<u8>>) -> Map<
    Seq<Seq<char>>,
    Seq<u8>,
> {
    files_fold(spec_file_paths(m), spec_source_datas(sources), Map::empty())
}

/// The first declared directory string whose component path the image
/// encoding cannot represent, scanning from index `i`.
pub open spec fn first_bad_dir_from(m: Manifest, i: int) -> Option<int>
    decreases m.directories@.len() - i when 0 <= i <= m.directories@.len()
{
    if i >= m.directories@.len() {
        None
    } else if !all_components_valid(spec_components(m.directories@[i]@)) {
        Some(i)
    } else {
        first_bad_dir_from(m, i + 1)
    }
}

pub open spec fn spec_first_bad_dir(m: Manifest) -> Option<int> {
    first_bad_dir_from(m, 0)
}

/// Whether entry `j`'s destination fails validation: unrepresentable, or
/// empty after normalization.
pub open spec fn dest_is_bad(m: Manifest, j: int) -> bool {
    ||| !all_components_valid(spec_components(m.files@[j].spec_out()))
    ||| spec_components(m.files@[j].spec_out()).len() == 0
}

/// The first file entry whose destination fails validation, scanning from
/// index `i`.
pub open spec fn first_bad_dest_from(m: Manifest, i: int) -> Option<int>
    decreases m.files@.len() - i when 0 <= i <= m.files@.len()
{
    if i >= m.files@.len() {
        None
    } else if dest_is_bad(m, i) {
        Some(i)
    } else {
        first_bad_dest_from(m, i + 1)
    }
}

pub open spec fn spec_first_bad_dest(m: Manifest) -> Option<int> {
    first_bad_dest_from(m, 0)
}

/// Whether `r` is the invalid-directory error naming directory `j` and its
/// first unrepresentable component.
pub open spec fn reports_bad_dir(m: Manifest, j: int, r: Result<FatImage, BuildError>) -> bool {
    r matches Err(BuildError::InvalidDirectory { dir, component }) && dir == m.directories@[j]
        && component@ == first_invalid(spec_components(m.directories@[j]@))
}

/// Whether `r` is the validation error owed for file entry `j`: the
/// invalid-destination error naming its first unrepresentable component, or
/// the empty-destination error when the path is representable but names
/// nothing.
pub open spec fn reports_bad_dest(m: Manifest, j: int, r: Result<FatImage, BuildError>) -> bool {
    if !all_components_valid(spec_components(m.files@[j].spec_out())) {
        r matches Err(BuildError::InvalidDestination { dest, component }) && dest@
            == m.files@[j].spec_out() && component@ == first_invalid(
            spec_components(m.files@[j].spec_out()),
        )
    } else {
        r matches Err(BuildError::EmptyDestination { dest }) && dest@ == m.files@[j].spec_out()
    }
}

/// Whether `r` reports a failure of the formatting library rather than of
/// the library's own validation.
pub open spec fn is_collaborator_error(r: Result<FatImage, BuildError>) -> bool {
    match r {
        Err(BuildError::Format { .. }) => true,
        Err(BuildError::CreateDir { .. }) => true,
        Err(BuildError::CreateFile { .. }) => true,
        _ => false,
    }
}

/// Whether `r` is the invalid-directory validation error.
pub open spec fn names_bad_directory(r: Result<FatImage, BuildError>) -> bool {
    match r {
        Err(BuildError::InvalidDirectory { .. }) => true,
        _ => false,
    }
}

/// Whether `r` is one of the two destination validation errors.
pub open spec fn names_bad_destination(r: Result<FatImage, BuildError>) -> bool {
    match r {
        Err(BuildError::InvalidDestination { .. }) => true,
        Err(BuildError::EmptyDestination { .. }) => true,
        _ => false,
    }
}

/// Whether `r` is the volume-format failure.
pub open spec fn names_format_failure(r: Result<FatImage, BuildError>) -> bool {
    match r {
        Err(BuildError::Format { .. }) => true,
        _ => false,
    }
}

proof fn lemma_prefix_upto_step(p: Seq<Seq<char>>, k: int)
    requires
        0 <= k,
    ensures
        prefix_upto(p, k + 1) =~= prefix_upto(p, k).insert(fold_path(p.take(k + 1))),
{
    assert forall|q: Seq<Seq<char>>| #[trigger]
        prefix_upto(p, k + 1).contains(q) implies prefix_upto(p, k).insert(
        fold_path(p.take(k + 1)),
    ).contains(q) by {
        let j = choose|j: int| 1 <= j <= k + 1 && q == fold_path(p.take(j));
        if j <= k {
            assert(prefix_upto(p, k).contains(q));
        }
    }
    assert forall|q: Seq<Seq<char>>| #[trigger]
        prefix_upto(p, k).insert(fold_path(p.take(k + 1))).contains(q) implies prefix_upto(
        p,
        k + 1,
    ).contains(q) by {
        if prefix_upto(p, k).contains(q) {
            let j = choose|j: int| 1 <= j <= k && q == fold_path(p.take(j));
            assert(1 <= j <= k + 1 && q == fold_path(p.take(j)));
        } else {
            assert(q == fold_path(p.take(k + 1)));
        }
    }
}

proof fn lemma_files_fold_frame(
    paths: Seq<Seq<Seq<char>>>,
    datas: Seq<Seq<u8>>,
    acc: Map<Seq<Seq<char>>, Seq<u8>>,
    key: Seq<Seq<char>>,
)
    requires
        datas.len() == paths.len(),
        forall|i: int| 0 <= i < paths.len() ==> fold_path(paths[i]) != key,
    ensures
        files_fold(paths, datas, acc).dom().contains(key) == acc.dom().contains(key),
        acc.dom().contains(key) ==> files_fold(paths, datas, acc)[key] == acc[key],
    decreases paths.len(),
{
    if paths.len() > 0 {
        let acc2 = acc.insert(fold_path(paths[0]), datas[0]);
        assert(forall|i: int|
            0 <= i < paths.drop_first().len() ==> paths.drop_first()[i] == paths[i + 1]);
        lemma_files_fold_frame(paths.drop_first(), datas.drop_first(), acc2, key);
    }
}

proof fn lemma_files_fold_last(
    paths: Seq<Seq<Seq<char>>>,
    datas: Seq<Seq<u8>>,
    acc: Map<Seq<Seq<char>>, Seq<u8>>,
    e: int,
)
    requires
        datas.len() == paths.len(),
        0 <= e < paths.len(),
        forall|j: int| e < j < paths.len() ==> fold_path(paths[j]) != fold_path(paths[e]),
    ensures
        files_fold(paths, datas, acc).dom().contains(fold_path(paths[e])),
        files_fold(paths, datas, acc)[fold_path(paths[e])] == datas[e],
    decreases paths.len(),
{
    let acc2 = acc.insert(fold_path(paths[0]), datas[0]);
    assert(forall|i: int|
        0 <= i < paths.drop_first().len() ==> paths.drop_first()[i] == paths[i + 1]);
    if e == 0 {
        lemma_files_fold_frame(paths.drop_first(), datas.drop_first(), acc2, fold_path(paths[0]));
    } else {
        lemma_files_fold_last(paths.drop_first(), datas.drop_first(), acc2, e - 1);
    }
}

/// Law: for every manifest entry that is the last one to claim its folded
/// destination path, a successful build leaves exactly that entry's source
/// bytes in the image under that path — so reading the destination back
/// yields content byte-identical to the source.  Entries that a later entry
/// overwrote at the same folded path yield the later content, in keeping
/// with last-write-wins placement order.
pub proof fn lemma_placed_content(m: Manifest, sources: Seq<Vec<u8>>, e: int)
    requires
        sources.len() == m.files@.len(),
        0 <= e < m.files@.len(),
        forall|j: int|
            e < j < m.files@.len() ==> fold_path(spec_file_paths(m)[j]) != fold_path(
                spec_file_paths(m)[e],
            ),
    ensures
        spec_built_files(m, sources).dom().contains(fold_path(spec_file_paths(m)[e])),
        spec_built_files(m, sources)[fold_path(spec_file_paths(m)[e])] == sources[e]@,
{
    lemma_files_fold_last(
        spec_file_paths(m),
        spec_source_datas(sources),
        Map::<Seq<Seq<char>>, Seq<u8>>::empty(),
        e,
    );
}

/// Law: directory creation is idempotent.  Ensuring the same path's
/// directory chain a second time adds nothing: the image's directory set —
/// which holds one entry per folded component path, never a duplicate — is
/// unchanged.
pub proof fn lemma_dir_creation_idempotent(
    dirs: Set<Seq<Seq<char>>>,
    p: Seq<Seq<char>>,
    n: int,
)
    ensures
        dirs.union(prefix_upto(p, n)).union(prefix_upto(p, n)) == dirs.union(prefix_upto(p, n)),
{
    assert(dirs.union(prefix_upto(p, n)).union(prefix_upto(p, n)) =~= dirs.union(
        prefix_upto(p, n),
    ));
}

/// Law: a directory that is also an ancestor of a file destination adds
/// nothing either — the destination's parent chain is contained in the
/// declared path's own prefix set, so the union absorbs it.
pub proof fn lemma_ancestor_absorbed(
    dirs: Set<Seq<Seq<char>>>,
    p: Seq<Seq<char>>,
    k: int,
    n: int,
)
    requires
        0 <= k <= n,
    ensures
        dirs.union(prefix_upto(p, n)).union(prefix_upto(p, k)) == dirs.union(prefix_upto(p, n)),
{
    assert forall|q: Seq<Seq<char>>| #[trigger]
        prefix_upto(p, k).contains(q) implies prefix_upto(p, n).contains(q) by {
        let j = choose|j: int| 1 <= j <= k && q == fold_path(p.take(j));
        assert(1 <= j <= n && q == fold_path(p.take(j)));
    }
    assert(dirs.union(prefix_upto(p, n)).union(prefix_upto(p, k)) =~= dirs.union(
        prefix_upto(p, n),
    ));
}

proof fn lemma_fold_path_len(p: Seq<Seq<char>>)
    ensures
        fold_path(p).len() == p.len(),
    decreases p.len(),
{
    if p.len() > 0 {
        lemma_fold_path_len(p.drop_first());
    }
}

proof fn lemma_fold_path_take(p: Seq<Seq<char>>, k: int)
    requires
        0 <= k <= p.len(),
    ensures
        fold_path(p.take(k)) == fold_path(p).take(k),
    decreases k,
{
    lemma_fold_path_len(p);
    if k == 0 {
        assert(p.take(0) =~= Seq::<Seq<char>>::empty());
        assert(fold_path(p).take(0) =~= Seq::<Seq<char>>::empty());
    } else {
        assert(p.take(k)[0] == p[0]);
        assert(p.take(k).drop_first() =~= p.drop_first().take(k - 1));
        lemma_fold_path_take(p.drop_first(), k - 1);
        lemma_fold_path_len(p.drop_first());
        assert((seq![fat_fold(p[0])] + fold_path(p.drop_first())).take(k) =~= seq![
            fat_fold(p[0]),
        ] + fold_path(p.drop_first()).take(k - 1));
    }
}

proof fn lemma_parent_fold_mono(
    paths: Seq<Seq<Seq<char>>>,
    acc: Set<Seq<Seq<char>>>,
    q: Seq<Seq<char>>,
)
    requires
        acc.contains(q),
    ensures
        parent_dirs_fold(paths, acc).contains(q),
    decreases paths.len(),
{
    if paths.len() > 0 {
        lemma_parent_fold_mono(
            paths.drop_first(),
            acc.union(prefix_upto(paths[0], paths[0].len() - 1)),
            q,
        );
    }
}

proof fn lemma_parent_fold_contains(
    paths: Seq<Seq<Seq<char>>>,
    acc: Set<Seq<Seq<char>>>,
    j: int,
    q: Seq<Seq<char>>,
)
    requires
        0 <= j < paths.len(),
        prefix_upto(paths[j], paths[j].len() - 1).contains(q),
    ensures
        parent_dirs_fold(paths, acc).contains(q),
    decreases paths.len(),
{
    let acc2 = acc.union(prefix_upto(paths[0], paths[0].len() - 1));
    if j == 0 {
        lemma_parent_fold_mono(paths.drop_first(), acc2, q);
    } else {
        assert(paths.drop_first()[j - 1] == paths[j]);
        lemma_parent_fold_contains(paths.drop_first(), acc2, j - 1, q);
    }
}

proof fn lemma_files_fold_dom_mono(
    paths: Seq<Seq<Seq<char>>>,
    datas: Seq<Seq<u8>>,
    acc: Map<Seq<Seq<char>>, Seq<u8>>,
    key: Seq<Seq<char>>,
)
    requires
        datas.len() == paths.len(),
        acc.dom().contains(key),
    ensures
        files_fold(paths, datas, acc).dom().contains(key),
    decreases paths.len(),
{
    if paths.len() > 0 {
        lemma_files_fold_dom_mono(
            paths.drop_first(),
            datas.drop_first(),
            acc.insert(fold_path(paths[0]), datas[0]),
            key,
        );
    }
}

proof fn lemma_files_fold_dom(
    paths: Seq<Seq<Seq<char>>>,
    datas: Seq<Seq<u8>>,
    acc: Map<Seq<Seq<char>>, Seq<u8>>,
    j: int,
)
    requires
        datas.len() == paths.len(),
        0 <= j < paths.len(),
    ensures
        files_fold(paths, datas, acc).dom().contains(fold_path(paths[j])),
    decreases paths.len(),
{
    let acc2 = acc.insert(fold_path(paths[0]), datas[0]);
    if j == 0 {
        lemma_files_fold_dom_mono(paths.drop_first(), datas.drop_first(), acc2, fold_path(paths[0]));
    } else {
        assert(paths.drop_first()[j - 1] == paths[j]);
        lemma_files_fold_dom(paths.drop_first(), datas.drop_first(), acc2, j - 1);
    }
}

/// Law: a successful build leaves every declared destination readable —
/// its folded path is a file the image holds, and every ancestor of it is a
/// directory the image holds — so `read_file` on the destination string is
/// guaranteed to succeed, and by `lemma_placed_content` it returns the last
/// claimant's source bytes, closing the read-back round trip.
pub proof fn lemma_built_destination_readable(
    m: Manifest,
    sources: Seq<Vec<u8>>,
    img: FatImage,
    e: int,
)
    requires
        sources.len() == m.files@.len(),
        0 <= e < m.files@.len(),
        spec_all_paths_valid(m),
        img_dirs(img) == spec_built_dirs(m),
        img_files(img) == spec_built_files(m, sources),
    ensures
        spec_path_readable(img, spec_components(m.files@[e].spec_out())),
{
    let p = spec_components(m.files@[e].spec_out());
    assert(spec_file_paths(m)[e] == p);
    lemma_files_fold_dom(
        spec_file_paths(m),
        spec_source_datas(sources),
        Map::<Seq<Seq<char>>, Seq<u8>>::empty(),
        e,
    );
    assert forall|k: int| 1 <= k < p.len() implies img_dirs(img).contains(
        fold_path(p).take(k),
    ) by {
        lemma_fold_path_take(p, k);
        assert(prefix_upto(p, p.len() - 1).contains(fold_path(p.take(k))));
        lemma_parent_fold_contains(
            spec_file_paths(m),
            dirs_fold(spec_dir_paths(m), Set::empty()),
            e,
            fold_path(p.take(k)),
        );
    }
}

/// Creates the first `upto` prefixes of a component path as directories,
/// from the shallowest down, each by the idempotent create-or-open rule: an
/// existing directory is reused, a missing one is created, and anything
/// else aborts.  Declaring a chain whose directories all exist already —
/// the same path a second time, or an ancestor of a placed destination —
/// cannot fail: every step reopens an existing directory.
pub fn ensure_dirs(img: &mut FatImage, comps: &Vec<String>, upto: usize) -> (r: Result<
    (),
    FsError,
>)
    requires
        upto <= comps@.len(),
        forall|i: int| 0 <= i < comps@.len() ==> valid_component(comps@[i]@),
    ensures
        r is Ok ==> img_dirs(*final(img)) == img_dirs(*old(img)).union(
            prefix_upto(comps.deep_view(), upto as int),
        ),
        r is Ok ==> img_files(*final(img)) == img_files(*old(img)),
        r is Ok ==> img_label(*final(img)) == img_label(*old(img)),
        r is Ok ==> final(img).spec_byte_len() == old(img).spec_byte_len(),
        prefix_upto(comps.deep_view(), upto as int).subset_of(img_dirs(*old(img))) ==> r is Ok,
{
    let mut pref: Vec<String> = Vec::new();
    let mut k: usize = 0;
    proof {
        assert(pref.deep_view() =~= comps.deep_view().take(0));
        assert(prefix_upto(comps.deep_view(), 0) =~= Set::<Seq<Seq<char>>>::empty());
        assert(img_dirs(*img).union(Set::empty()) =~= img_dirs(*img));
    }
    while k < upto
        invariant
            k <= upto <= comps@.len(),
            pref.deep_view() == comps.deep_view().take(k as int),
            forall|i: int| 0 <= i < comps@.len() ==> valid_component(comps@[i]@),
            img_dirs(*img) == img_dirs(*old(img)).union(prefix_upto(comps.deep_view(), k as int)),
            img_files(*img) == img_files(*old(img)),
            img_label(*img) == img_label(*old(img)),
            img.spec_byte_len() == old(img).spec_byte_len(),
        decreases upto - k,
    {
        let ghost pre_dv = pref.deep_view();
        let ghost pre_seq = pref@;
        proof {
            assert(pre_dv.len() == pre_seq.len());
            assert(pre_dv.len() == k);
        }
        let c = comps[k].clone();
        pref.push(c);
        proof {
            assert(pref@ == pre_seq.push(c));
            assert(pref@.len() == k + 1);
            assert forall|i: int|
                0 <= i <= k implies pref.deep_view()[i] == comps.deep_view().take(
                k as int + 1,
            )[i] by {
                assert(pref.deep_view()[i] == pref@[i]@);
                if i < k {
                    assert(pref@[i] == pre_seq[i]);
                    assert(pre_dv[i] == pre_seq[i]@);
                    assert(pre_dv[i] == comps.deep_view()[i]);
                } else {
                    assert(pref@[i] == comps@[k as int]);
                }
            }
            assert(pref.deep_view() =~= comps.deep_view().take(k as int + 1));
            assert forall|i: int| 0 <= i < pref@.len() implies valid_component(pref@[i]@) by {
                assert(pref@[i]@ == pref.deep_view()[i]);
                assert(pref.deep_view()[i] == comps.deep_view()[i]);
            }
        }
        let ghost dirs_before = img_dirs(*img);
        let ghost img_before = *img;
        let r_step = img_create_dir(img, &pref);
        proof {
            if prefix_upto(comps.deep_view(), upto as int).subset_of(img_dirs(*old(img))) {
                let dv = comps.deep_view();
                assert(1 <= k + 1 <= upto && fold_path(dv.take(k as int + 1)) == fold_path(
                    dv.take(k as int + 1),
                ));
                assert(prefix_upto(dv, upto as int).contains(fold_path(dv.take(k as int + 1))));
                assert(img_dirs(img_before).contains(fold_path(dv.take(k as int + 1))));
                assert forall|j: int|
                    1 <= j < pref.deep_view().len() implies img_dirs(img_before).contains(
                    fold_path(pref.deep_view()).take(j),
                ) by {
                    lemma_fold_path_take(pref.deep_view(), j);
                    assert(pref.deep_view().take(j) =~= dv.take(j));
                    assert(1 <= j <= upto && fold_path(dv.take(j)) == fold_path(dv.take(j)));
                    assert(prefix_upto(dv, upto as int).contains(fold_path(dv.take(j))));
                }
                assert(dir_chain_present(img_before, pref.deep_view()));
                assert(r_step is Ok);
            }
        }
        match r_step {
            Err(e) => {
                return Err(e);
            },
            Ok(()) => {},
        }
        proof {
            lemma_prefix_upto_step(comps.deep_view(), k as int);
            assert(img_dirs(*img) == dirs_before.insert(fold_path(comps.deep_view().take(k as int + 1))));
            assert(img_dirs(*old(img)).union(prefix_upto(comps.deep_view(), k as int)).insert(
                fold_path(comps.deep_view().take(k as int + 1)),
            ) =~= img_dirs(*old(img)).union(prefix_upto(comps.deep_view(), k as int + 1)));
        }
        k = k + 1;
    }
    Ok(())
}

/// Builds the whole image in memory: preallocates a zeroed store of exactly
/// the configured size, formats it with the resolved label and variant,
/// creates the declared directories in manifest order, and places each file
/// at its resolved destination in manifest order, later entries overwriting
/// earlier ones at the same folded path.  `sources` holds the content of
/// each file entry's source, in entry order, read by the caller beforehand.
/// The first failure aborts the build; the partly written store is
/// discarded, never returned.
pub fn build_image(cfg: &EffectiveConfig, m: &Manifest, sources: &Vec<Vec<u8>>) -> (r: Result<
    FatImage,
    BuildError,
>)
    requires
        sources@.len() == m.files@.len(),
        cfg.size_bytes <= usize::MAX as u64,
    ensures
        r is Ok ==> spec_all_paths_valid(*m),
        r matches Ok(img) ==> {
            &&& img.spec_byte_len() == cfg.size_bytes
            &&& img_label(img) == cfg.label@
            &&& img_dirs(img) == spec_built_dirs(*m)
            &&& img_files(img) == spec_built_files(*m, sources@)
        },
        spec_first_bad_dir(*m) matches Some(j) ==> reports_bad_dir(*m, j, r),
        spec_first_bad_dir(*m) is None ==> (spec_first_bad_dest(*m) matches Some(j)
            ==> reports_bad_dest(*m, j, r)),
        names_bad_directory(r) ==> spec_first_bad_dir(*m) is Some,
        names_bad_destination(r) ==> spec_first_bad_dir(*m) is None && spec_first_bad_dest(*m)
            is Some,
        is_collaborator_error(r) ==> spec_all_paths_valid(*m),
        names_format_failure(r) ==> !format_ok(cfg.size_bytes as nat, cfg.variant),
        spec_all_paths_valid(*m) && !format_ok(cfg.size_bytes as nat, cfg.variant)
            ==> names_format_failure(r),
{
    let mut dir_paths: Vec<Vec<String>> = Vec::new();
    let mut i: usize = 0;
    while i < m.directories.len()
        invariant
            i <= m.directories@.len(),
            dir_paths@.len() == i,
            spec_first_bad_dir(*m) == first_bad_dir_from(*m, i as int),
            forall|j: int|
                0 <= j < i ==> #[trigger] dir_paths@[j].deep_view() == spec_components(
                    m.directories@[j]@,
                ) && all_components_valid(spec_components(m.directories@[j]@)),
        decreases m.directories@.len() - i,
    {
        match normalize(m.directories[i].as_str()) {
            Ok(cs) => {
                proof {
                    assert(all_components_valid(spec_components(m.directories@[i as int]@)));
                    assert(first_bad_dir_from(*m, i as int) == first_bad_dir_from(
                        *m,
                        i as int + 1,
                    ));
                }
                dir_paths.push(cs);
            },
            Err(PathError::InvalidEncoding(c)) => {
                proof {
                    assert(!all_components_valid(spec_components(m.directories@[i as int]@)));
                    assert(spec_first_bad_dir(*m) == Some(i as int));
                    assert(!spec_all_paths_valid(*m));
                }
                return Err(
                    BuildError::InvalidDirectory { dir: m.directories[i].clone(), component: c },
                );
            },
        }
        i = i + 1;
    }
    proof {
        assert(first_bad_dir_from(*m, m.directories@.len() as int) is None);
        assert(spec_first_bad_dir(*m) is None);
    }
    let mut file_paths: Vec<Vec<String>> = Vec::new();
    i = 0;
    while i < m.files.len()
        invariant
            i <= m.files@.len(),
            file_paths@.len() == i,
            spec_first_bad_dir(*m) is None,
            spec_first_bad_dest(*m) == first_bad_dest_from(*m, i as int),
            forall|j: int|
                0 <= j < i ==> #[trigger] file_paths@[j].deep_view() == spec_components(
                    m.files@[j].spec_out(),
                ) && all_components_valid(spec_components(m.files@[j].spec_out()))
                    && spec_components(m.files@[j].spec_out()).len() >= 1,
        decreases m.files@.len() - i,
    {
        let dest = m.files[i].get_out();
        match normalize(dest) {
            Ok(cs) => {
                proof {
                    assert(all_components_valid(spec_components(m.files@[i as int].spec_out())));
                }
                if cs.len() == 0 {
                    proof {
                        assert(cs.deep_view().len() == 0);
                        assert(dest_is_bad(*m, i as int));
                        assert(spec_first_bad_dest(*m) == Some(i as int));
                        assert(!spec_all_paths_valid(*m));
                    }
                    return Err(BuildError::EmptyDestination { dest: String::from_str(dest) });
                }
                proof {
                    assert(cs.deep_view().len() >= 1);
                    assert(!dest_is_bad(*m, i as int));
                    assert(first_bad_dest_from(*m, i as int) == first_bad_dest_from(
                        *m,
                        i as int + 1,
                    ));
                }
                file_paths.push(cs);
            },
            Err(PathError::InvalidEncoding(c)) => {
                proof {
                    assert(!all_components_valid(spec_components(m.files@[i as int].spec_out())));
                    assert(dest_is_bad(*m, i as int));
                    assert(spec_first_bad_dest(*m) == Some(i as int));
                    assert(!spec_all_paths_valid(*m));
                }
                return Err(
                    BuildError::InvalidDestination { dest: String::from_str(dest), component: c },
                );
            },
        }
        i = i + 1;
    }
    proof {
        assert(first_bad_dest_from(*m, m.files@.len() as int) is None);
        assert(spec_first_bad_dest(*m) is None);
        assert forall|j: int| 0 <= j < m.directories@.len() implies all_components_valid(
            spec_components(m.directories@[j]@),
        ) by {
            assert(dir_paths@[j].deep_view() == spec_components(m.directories@[j]@));
        }
        assert forall|j: int| 0 <= j < m.files@.len() implies all_components_valid(
            spec_components(m.files@[j].spec_out()),
        ) && spec_components(m.files@[j].spec_out()).len() >= 1 by {
            assert(file_paths@[j].deep_view() == spec_components(m.files@[j].spec_out()));
        }
        assert(spec_all_paths_valid(*m));
    }
    let size: usize = cfg.size_bytes as usize;
    let storage: Vec<u8> = vec![0u8; size];
    proof {
        assert(storage@.len() == cfg.size_bytes as nat);
    }
    let mut img = match format_volume_raw(storage, cfg.label, cfg.variant) {
        Ok(im) => im,
        Err(e) => {
            proof {
                assert(!format_ok(cfg.size_bytes as nat, cfg.variant));
            }
            return Err(BuildError::Format { detail: e.detail });
        },
    };
    proof {
        assert(format_ok(cfg.size_bytes as nat, cfg.variant));
    }
    let ghost dp = spec_dir_paths(*m);
    let ghost fp = spec_file_paths(*m);
    let ghost fd = spec_source_datas(sources@);
    proof {
        assert(dp.skip(0) =~= dp);
    }
    i = 0;
    while i < dir_paths.len()
        invariant
            i <= dir_paths@.len(),
            dir_paths@.len() == m.directories@.len(),
            dp == spec_dir_paths(*m),
            forall|j: int|
                0 <= j < dir_paths@.len() ==> #[trigger] dir_paths@[j].deep_view()
                    == spec_components(m.directories@[j]@) && all_components_valid(
                    spec_components(m.directories@[j]@),
                ),
            dirs_fold(dp, Set::<Seq<Seq<char>>>::empty()) == dirs_fold(
                dp.skip(i as int),
                img_dirs(img),
            ),
            img_files(img) == Map::<Seq<Seq<char>>, Seq<u8>>::empty(),
            img_label(img) == cfg.label@,
            img.spec_byte_len() == cfg.size_bytes,
            spec_first_bad_dir(*m) is None,
            spec_first_bad_dest(*m) is None,
            spec_all_paths_valid(*m),
            format_ok(cfg.size_bytes as nat, cfg.variant),
        decreases dir_paths@.len() - i,
    {
        let comps = &dir_paths[i];
        proof {
            assert(comps.deep_view() == spec_components(m.directories@[i as int]@));
            assert(dp[i as int] == spec_components(m.directories@[i as int]@));
            assert forall|t: int| 0 <= t < comps@.len() implies valid_component(comps@[t]@) by {
                assert(comps@[t]@ == comps.deep_view()[t]);
            }
        }
        let upto = comps.len();
        match ensure_dirs(&mut img, comps, upto) {
            Err(e) => {
                return Err(
                    BuildError::CreateDir { dir: m.directories[i].clone(), detail: e.detail },
                );
            },
            Ok(()) => {},
        }
        proof {
            assert(comps.deep_view().len() == comps@.len());
            assert(dp.skip(i as int)[0] == dp[i as int]);
            assert(dp.skip(i as int).drop_first() =~= dp.skip(i as int + 1));
        }
        i = i + 1;
    }
    proof {
        assert(dp.skip(dir_paths@.len() as int).len() == 0);
        assert(img_dirs(img) == dirs_fold(dp, Set::<Seq<Seq<char>>>::empty()));
        assert(fp.skip(0) =~= fp);
        assert(fd.skip(0) =~= fd);
    }
    let ghost base_dirs = img_dirs(img);
    i = 0;
    while i < file_paths.len()
        invariant
            i <= file_paths@.len(),
            file_paths@.len() == m.files@.len(),
            sources@.len() == m.files@.len(),
            fp == spec_file_paths(*m),
            fd == spec_source_datas(sources@),
            base_dirs == dirs_fold(spec_dir_paths(*m), Set::<Seq<Seq<char>>>::empty()),
            forall|j: int|
                0 <= j < file_paths@.len() ==> #[trigger] file_paths@[j].deep_view()
                    == spec_components(m.files@[j].spec_out()) && all_components_valid(
                    spec_components(m.files@[j].spec_out()),
                ) && spec_components(m.files@[j].spec_out()).len() >= 1,
            parent_dirs_fold(fp, base_dirs) == parent_dirs_fold(fp.skip(i as int), img_dirs(img)),
            files_fold(fp, fd, Map::<Seq<Seq<char>>, Seq<u8>>::empty()) == files_fold(
                fp.skip(i as int),
                fd.skip(i as int),
                img_files(img),
            ),
            img_label(img) == cfg.label@,
            img.spec_byte_len() == cfg.size_bytes,
            spec_first_bad_dir(*m) is None,
            spec_first_bad_dest(*m) is None,
            spec_all_paths_valid(*m),
            format_ok(cfg.size_bytes as nat, cfg.variant),
        decreases file_paths@.len() - i,
    {
        let comps = &file_paths[i];
        proof {
            assert(comps.deep_view() == spec_components(m.files@[i as int].spec_out()));
            assert(fp[i as int] == spec_components(m.files@[i as int].spec_out()));
            assert forall|t: int| 0 <= t < comps@.len() implies valid_component(comps@[t]@) by {
                assert(comps@[t]@ == comps.deep_view()[t]);
            }
            assert(comps@.len() == comps.deep_view().len());
        }
        let upto = comps.len() - 1;
        match ensure_dirs(&mut img, comps, upto) {
            Err(e) => {
                return Err(
                    BuildError::CreateDir {
                        dir: String::from_str(m.files[i].get_out()),
                        detail: e.detail,
                    },
                );
            },
            Ok(()) => {},
        }
        match img_create_file(&mut img, comps, &sources[i]) {
            Err(e) => {
                return Err(
                    BuildError::CreateFile {
                        dest: String::from_str(m.files[i].get_out()),
                        detail: e.detail,
                    },
                );
            },
            Ok(()) => {},
        }
        proof {
            assert(fp.skip(i as int)[0] == fp[i as int]);
            assert(fp.skip(i as int).drop_first() =~= fp.skip(i as int + 1));
            assert(fd.skip(i as int)[0] == fd[i as int]);
            assert(fd.skip(i as int).drop_first() =~= fd.skip(i as int + 1));
            assert(fd[i as int] == sources@[i as int]@);
        }
        i = i + 1;
    }
    proof {
        assert(fp.skip(file_paths@.len() as int).len() == 0);
        assert(img_dirs(img) == parent_dirs_fold(fp, base_dirs));
        assert(img_files(img) == files_fold(fp, fd, Map::<Seq<Seq<char>>, Seq<u8>>::empty()));
    }
    Ok(img)
}

} // verus!

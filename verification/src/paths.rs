use vstd::prelude::*;

verus! {

use vstd::string::*;

/// Why a path string was rejected.
#[derive(Debug)]
pub enum PathError {
    /// The named component cannot be used as a FAT long name here: it is
    /// empty after splitting, a dot-dot segment (a FAT image has no place
    /// for host-style parent references), longer than the 255-byte bound,
    /// holds a character outside the encoding's repertoire, holds a tilde,
    /// or ends in a dot — the last two are reserved by the encoding's
    /// generated 8.3 alias names (see `valid_component`).
    InvalidEncoding(String),
}

/// Whether a character may appear in a FAT long name: ASCII letters and
/// digits, a fixed set of punctuation, and the basic-multilingual-plane
/// range from U+0080 upward.
pub open spec fn fat_name_char(c: char) -> bool {
    let u = c as u32;
    (0x61 <= u && u <= 0x7A)  // 'a'..='z'
     || (0x41 <= u && u <= 0x5A)  // 'A'..='Z'
     || (0x30 <= u && u <= 0x39)  // '0'..='9'
     || (0x80 <= u && u <= 0xFFFF) || c == '$' || c == '%' || c == '\'' || c == '-' || c == '_'
        || c == '@' || c == '~' || c == '`' || c == '!' || c == '(' || c == ')' || c == '{' || c
        == '}' || c == '.' || c == ' ' || c == '+' || c == ',' || c == ';' || c == '=' || c == '['
        || c == ']' || c == '^' || c == '#' || c == '&'
}

/// How many bytes a character occupies in UTF-8, for characters inside the
/// basic multilingual plane (the only ones a FAT long name can hold).
pub open spec fn utf8_char_len(c: char) -> int {
    if (c as u32) < 0x80 {
        1
    } else if (c as u32) < 0x800 {
        2
    } else {
        3
    }
}

/// The UTF-8 byte length of a character sequence.
pub open spec fn utf8_len_of(s: Seq<char>) -> int
    decreases s.len(),
{
    if s.len() == 0 {
        0
    } else {
        utf8_char_len(s[0]) + utf8_len_of(s.drop_first())
    }
}

/// Whether one path component can be handed to the FAT library as a name:
/// non-empty, not the parent reference `..`, within the 255-byte long-name
/// bound, made of representable characters only, free of tildes, and not
/// ending in a dot.  The last two rules keep the library's name resolution
/// unambiguous: it generates an 8.3 alias for every entry and resolves
/// lookups against the alias too.  An alias that differs from the entry's
/// own name (folded for case) carries a tilde in every case but one — a
/// name whose single trailing dot leaves a clean 8.3 basename, whose alias
/// is that basename with the dot gone.  With tildes and trailing dots
/// rejected, every alias a lookup can match agrees with the fold of the
/// entry's declared name, so lookups stay on the declared long names alone.
pub open spec fn valid_component(s: Seq<char>) -> bool {
    &&& s.len() > 0
    &&& !(s.len() == 2 && s[0] == '.' && s[1] == '.')
    &&& s[s.len() - 1] != '.'
    &&& utf8_len_of(s) <= 255
    &&& forall|i: int| 0 <= i < s.len() ==> fat_name_char(s[i]) && s[i] != '~'
}

/// The index where the path segment starting at `i` ends: the next slash,
/// or the end of the string.
pub open spec fn seg_end(s: Seq<char>, i: int) -> int
    decreases s.len() - i when 0 <= i <= s.len()
{
    if i >= s.len() || s[i] == '/' {
        i
    } else {
        seg_end(s, i + 1)
    }
}

pub proof fn lemma_seg_end(s: Seq<char>, i: int)
    requires
        0 <= i <= s.len(),
    ensures
        i <= seg_end(s, i) <= s.len(),
        i < s.len() && s[i] != '/' ==> seg_end(s, i) >= i + 1,
    decreases s.len() - i,
{
    if i < s.len() && s[i] != '/' {
        lemma_seg_end(s, i + 1);
    }
}

/// The non-empty segments of the path from index `i` on, split on slashes.
/// Splitting this way collapses repeated separators and strips a leading
/// root slash: the image tree has no absolute host semantics.
pub open spec fn split_from(s: Seq<char>, i: int) -> Seq<Seq<char>>
    decreases s.len() - i when 0 <= i <= s.len() via split_from_decreases
{
    if i >= s.len() {
        Seq::empty()
    } else if s[i] == '/' {
        split_from(s, i + 1)
    } else {
        seq![s.subrange(i, seg_end(s, i))] + split_from(s, seg_end(s, i))
    }
}

#[via_fn]
proof fn split_from_decreases(s: Seq<char>, i: int) {
    if 0 <= i <= s.len() {
        lemma_seg_end(s, i);
    }
}

/// Drops the current-directory segments: a lone dot names the directory
/// already at hand and places nothing.
pub open spec fn drop_dots(segs: Seq<Seq<char>>) -> Seq<Seq<char>>
    decreases segs.len(),
{
    if segs.len() == 0 {
        Seq::empty()
    } else if segs[0] == seq!['.'] {
        drop_dots(segs.drop_first())
    } else {
        seq![segs[0]] + drop_dots(segs.drop_first())
    }
}

/// The canonical component sequence of a path string: split on slashes,
/// empty segments collapsed, the leading root stripped, dot segments
/// dropped.
pub open spec fn spec_components(s: Seq<char>) -> Seq<Seq<char>> {
    drop_dots(split_from(s, 0))
}

/// Whether every component is representable.
pub open spec fn all_components_valid(cs: Seq<Seq<char>>) -> bool {
    forall|i: int| 0 <= i < cs.len() ==> valid_component(cs[i])
}

/// The first unrepresentable component, if any.
pub open spec fn first_invalid(cs: Seq<Seq<char>>) -> Seq<char>
    decreases cs.len(),
{
    if cs.len() == 0 {
        Seq::empty()
    } else if !valid_component(cs[0]) {
        cs[0]
    } else {
        first_invalid(cs.drop_first())
    }
}

proof fn lemma_first_invalid_concat(a: Seq<Seq<char>>, b: Seq<Seq<char>>)
    requires
        all_components_valid(a),
    ensures
        first_invalid(a + b) == first_invalid(b),
        all_components_valid(a + b) <==> all_components_valid(b),
    decreases a.len(),
{
    if a.len() == 0 {
        assert(a + b =~= b);
    } else {
        assert((a + b).drop_first() =~= a.drop_first() + b);
        assert(all_components_valid(a.drop_first())) by {
            assert(forall|i: int|
                0 <= i < a.drop_first().len() ==> a.drop_first()[i] == a[i + 1]);
        }
        lemma_first_invalid_concat(a.drop_first(), b);
        assert(valid_component((a + b)[0]));
        if all_components_valid(b) {
            assert forall|i: int| 0 <= i < (a + b).len() implies valid_component((a + b)[i]) by {
                if i >= 1 {
                    assert((a + b)[i] == (a.drop_first() + b)[i - 1]);
                }
            }
        }
    }
}

proof fn lemma_utf8_len_lower(s: Seq<char>)
    ensures
        utf8_len_of(s) >= s.len(),
    decreases s.len(),
{
    if s.len() > 0 {
        lemma_utf8_len_lower(s.drop_first());
    }
}

proof fn lemma_utf8_snoc(s: Seq<char>, c: char)
    ensures
        utf8_len_of(s.push(c)) == utf8_len_of(s) + utf8_char_len(c),
    decreases s.len(),
{
    if s.len() == 0 {
        assert(s.push(c)[0] == c);
        assert(s.push(c).drop_first() =~= Seq::<char>::empty());
        assert(utf8_len_of(Seq::<char>::empty()) == 0);
        assert(utf8_len_of(s) == 0);
    } else {
        assert(s.push(c)[0] == s[0]);
        assert(s.push(c).drop_first() =~= s.drop_first().push(c));
        lemma_utf8_snoc(s.drop_first(), c);
    }
}

fn is_fat_char(c: char) -> (r: bool)
    ensures
        r == fat_name_char(c),
{
    let u: u32 = c as u32;
    (0x61 <= u && u <= 0x7A) || (0x41 <= u && u <= 0x5A) || (0x30 <= u && u <= 0x39) || (0x80 <= u
        && u <= 0xFFFF) || c == '$' || c == '%' || c == '\'' || c == '-' || c == '_' || c == '@'
        || c == '~' || c == '`' || c == '!' || c == '(' || c == ')' || c == '{' || c == '}' || c
        == '.' || c == ' ' || c == '+' || c == ',' || c == ';' || c == '=' || c == '[' || c == ']'
        || c == '^' || c == '#' || c == '&'
}

fn check_component(comp: &str) -> (r: bool)
    ensures
        r == valid_component(comp@),
{
    let n = comp.unicode_len();
    if n == 0 {
        return false;
    }
    if n == 2 && comp.get_char(0) == '.' && comp.get_char(1) == '.' {
        return false;
    }
    if comp.get_char(n - 1) == '.' {
        return false;
    }
    if n > 255 {
        proof {
            lemma_utf8_len_lower(comp@);
        }
        return false;
    }
    let mut bytes: u32 = 0;
    let mut k: usize = 0;
    assert(comp@.subrange(0, 0) =~= Seq::<char>::empty());
    while k < n
        invariant
            k <= n,
            n == comp@.len(),
            n <= 255,
            bytes == utf8_len_of(comp@.subrange(0, k as int)),
            bytes <= 3 * k,
            forall|t: int| 0 <= t < k ==> fat_name_char(comp@[t]) && comp@[t] != '~',
        decreases n - k,
    {
        let c = comp.get_char(k);
        if !is_fat_char(c) || c == '~' {
            return false;
        }
        let u: u32 = c as u32;
        let cl: u32 = if u < 0x80 {
            1
        } else if u < 0x800 {
            2
        } else {
            3
        };
        proof {
            lemma_utf8_snoc(comp@.subrange(0, k as int), comp@[k as int]);
            assert(comp@.subrange(0, k as int + 1) =~= comp@.subrange(0, k as int).push(
                comp@[k as int],
            ));
        }
        bytes = bytes + cl;
        k = k + 1;
    }
    assert(comp@.subrange(0, n as int) =~= comp@);
    if bytes > 255 {
        return false;
    }
    true
}

/// Splits a path string into its canonical component sequence: separators
/// collapse, a leading root strips away, lone-dot segments vanish, and the
/// first component the FAT encoding cannot represent is reported instead.
pub fn normalize(path: &str) -> (r: Result<Vec<String>, PathError>)
    ensures
        all_components_valid(spec_components(path@)) ==> r is Ok && r->Ok_0.deep_view()
            == spec_components(path@),
        !all_components_valid(spec_components(path@)) ==> (r matches Err(
            PathError::InvalidEncoding(c),
        ) && c@ == first_invalid(spec_components(path@))),
{
    let n = path.unicode_len();
    let mut out: Vec<String> = Vec::new();
    let mut i: usize = 0;
    assert(out.deep_view() =~= Seq::<Seq<char>>::empty());
    assert(Seq::<Seq<char>>::empty() + drop_dots(split_from(path@, 0)) =~= drop_dots(
        split_from(path@, 0),
    ));
    while i < n
        invariant
            i <= n,
            n == path@.len(),
            all_components_valid(out.deep_view()),
            spec_components(path@) == out.deep_view() + drop_dots(
                split_from(path@, i as int),
            ),
        decreases n - i,
    {
        let c = path.get_char(i);
        if c == '/' {
            i = i + 1;
        } else {
            let ghost gi = i as int;
            let mut j: usize = i;
            while j < n && path.get_char(j) != '/'
                invariant
                    gi <= j <= n,
                    gi == i,
                    n == path@.len(),
                    seg_end(path@, gi) == seg_end(path@, j as int),
                decreases n - j,
            {
                j = j + 1;
            }
            assert(seg_end(path@, j as int) == j as int);
            let comp = path.substring_char(i, j);
            let ghost seg = path@.subrange(gi, j as int);
            let ghost rest = split_from(path@, j as int);
            assert(split_from(path@, gi) == seq![seg] + rest);
            assert((seq![seg] + rest)[0] == seg);
            assert((seq![seg] + rest).drop_first() =~= rest);
            if j - i == 1 && comp.get_char(0) == '.' {
                proof {
                    assert(comp@ =~= seq!['.']);
                    assert(drop_dots(seq![seg] + rest) == drop_dots(rest));
                }
            } else {
                proof {
                    if seg.len() == 1 {
                        assert(comp@[0] != '.');
                        assert(seg != seq!['.']);
                    } else {
                        assert(seg.len() != 1);
                        assert(seg != seq!['.']);
                    }
                    assert(drop_dots(seq![seg] + rest) == seq![seg] + drop_dots(rest));
                }
                let valid = check_component(comp);
                if !valid {
                    proof {
                        lemma_first_invalid_concat(
                            out.deep_view(),
                            seq![seg] + drop_dots(rest),
                        );
                        assert(!valid_component((seq![seg] + drop_dots(rest))[0]));
                        assert(!all_components_valid(seq![seg] + drop_dots(rest)));
                        assert(first_invalid(seq![seg] + drop_dots(rest)) == seg);
                    }
                    return Err(PathError::InvalidEncoding(String::from_str(comp)));
                }
                let ghost old_dv = out.deep_view();
                out.push(String::from_str(comp));
                proof {
                    assert(out.deep_view() =~= old_dv.push(seg));
                    assert(old_dv + (seq![seg] + drop_dots(rest)) =~= out.deep_view()
                        + drop_dots(rest));
                    assert forall|t: int|
                        0 <= t < out.deep_view().len() implies valid_component(
                        out.deep_view()[t],
                    ) by {
                        if t < old_dv.len() {
                            assert(out.deep_view()[t] == old_dv[t]);
                        }
                    }
                }
            }
            i = j;
        }
    }
    proof {
        assert(split_from(path@, n as int) =~= Seq::<Seq<char>>::empty());
        assert(out.deep_view() + Seq::<Seq<char>>::empty() =~= out.deep_view());
    }
    Ok(out)
}

} // verus!

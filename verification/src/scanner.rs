//! The scanner: which file names count as descriptor files, how the two
//! search roots combine, and where a record is saved by default.
//!
//! The scanner itself performs no directory reading; the caller hands it
//! each root's listing (or nothing, for a root that does not exist or
//! cannot be opened), which keeps the component testable with injected
//! paths.

use vstd::prelude::*;

use crate::text::{
    last_pos, lemma_last_pos_absent, lemma_last_pos_of_witness, range_matches, str_chars,
    str_matches,
};

verus! {

/// The name after the last `/` of a path, or the whole path when it has no
/// `/`.
pub open spec fn base_name_of(p: Seq<char>) -> Seq<char> {
    match last_pos(p, '/') {
        None => p,
        Some(i) => p.subrange(i + 1, p.len() as int),
    }
}

/// The extension of a path: what follows the last `.` of its base name,
/// provided that dot is not the base name's first character.
pub open spec fn extension_of(p: Seq<char>) -> Option<Seq<char>> {
    let b = base_name_of(p);
    match last_pos(b, '.') {
        None => None,
        Some(i) => if i > 0 {
            Some(b.subrange(i + 1, b.len() as int))
        } else {
            None
        },
    }
}

/// Whether the path names a descriptor file: its extension is `desktop`.
pub open spec fn has_desktop_extension(p: Seq<char>) -> bool {
    extension_of(p) == Some("desktop"@)
}

/// What one search root contributes: nothing when the root is missing,
/// else its listing narrowed to descriptor files, in listing order.
pub open spec fn root_paths(listing: Option<Seq<Seq<char>>>) -> Seq<Seq<char>> {
    match listing {
        None => Seq::empty(),
        Some(l) => l.filter(|p: Seq<char>| has_desktop_extension(p)),
    }
}

/// The name after the last `/` of `p`, or all of `p` when it has no `/`.
pub fn base_name(p: &str) -> (r: String)
    ensures
        r@ == base_name_of(p@),
{
    let chars = str_chars(p);
    let n = chars.len();
    let mut i = n;
    while i > 0 && chars[i - 1] != '/'
        invariant
            i <= n,
            n == chars@.len(),
            chars@ == p@,
            forall|j: int| i <= j < n ==> chars@[j] != '/',
        decreases i,
    {
        i = i - 1;
    }
    proof {
        if i > 0 {
            lemma_last_pos_of_witness(p@, '/', i - 1);
        } else {
            lemma_last_pos_absent(p@, '/');
        }
    }
    let r = p.substring_char(i, n).to_owned();
    proof {
        if i == 0 {
            assert(p@.subrange(0, n as int) =~= p@);
        }
    }
    r
}

/// Whether `p` names a descriptor file, as [`has_desktop_extension`] says.
pub fn is_desktop_path(p: &str) -> (r: bool)
    ensures
        r == has_desktop_extension(p@),
{
    let chars = str_chars(p);
    let n = chars.len();
    let mut i = n;
    while i > 0 && chars[i - 1] != '/'
        invariant
            i <= n,
            n == chars@.len(),
            chars@ == p@,
            forall|j: int| i <= j < n ==> chars@[j] != '/',
        decreases i,
    {
        i = i - 1;
    }
    let lo = i;
    proof {
        if lo > 0 {
            lemma_last_pos_of_witness(p@, '/', lo - 1);
        } else {
            lemma_last_pos_absent(p@, '/');
        }
        if lo == 0 {
            assert(p@.subrange(0, n as int) =~= p@);
        }
    }
    let ghost b = base_name_of(p@);
    proof {
        assert(b == p@.subrange(lo as int, n as int));
    }
    let mut k = n;
    while k > lo && chars[k - 1] != '.'
        invariant
            lo <= k <= n,
            n == chars@.len(),
            chars@ == p@,
            forall|j: int| k <= j < n ==> chars@[j] != '.',
        decreases k,
    {
        k = k - 1;
    }
    proof {
        assert(forall|j: int| 0 <= j < b.len() ==> b[j] == p@[lo + j]);
        if k > lo {
            lemma_last_pos_of_witness(b, '.', k - 1 - lo);
        } else {
            lemma_last_pos_absent(b, '.');
        }
    }
    if k <= lo {
        return false;
    }
    if k - 1 == lo {
        return false;
    }
    let r = range_matches(&chars, k, n, "desktop");
    proof {
        assert(b.subrange(k - lo, b.len() as int) =~= p@.subrange(k as int, n as int));
    }
    r
}

/// Push every descriptor file of `listing` onto `out`, in listing order.
fn append_desktop_paths(out: &mut Vec<String>, listing: Vec<String>)
    ensures
        final(out).deep_view() == old(out).deep_view() + listing.deep_view().filter(
            |p: Seq<char>| has_desktop_extension(p),
        ),
{
    let ghost pred = |p: Seq<char>| has_desktop_extension(p);
    let ghost base = out.deep_view();
    let ghost l = listing.deep_view();
    let mut i: usize = 0;
    proof {
        assert(l.take(0) =~= Seq::<Seq<char>>::empty());
        reveal_with_fuel(Seq::<Seq<char>>::filter, 1);
        assert(base + l.take(0).filter(pred) =~= base);
    }
    while i < listing.len()
        invariant
            i <= listing.len(),
            l == listing.deep_view(),
            out.deep_view() == base + l.take(i as int).filter(
                |p: Seq<char>| has_desktop_extension(p),
            ),
        decreases listing.len() - i,
    {
        let ghost prefix = l.take(i as int);
        let keep = is_desktop_path(listing[i].as_str());
        proof {
            reveal_with_fuel(Seq::<Seq<char>>::filter, 2);
            assert(listing[i as int]@ == l[i as int]);
            assert(l.take(i + 1).drop_last() =~= prefix);
            assert(l.take(i + 1).last() == l[i as int]);
        }
        if keep {
            out.push(listing[i].clone());
            proof {
                let pf = prefix.filter(|p: Seq<char>| has_desktop_extension(p));
                assert(l.take(i + 1).filter(|p: Seq<char>| has_desktop_extension(p)) == pf.push(
                    l[i as int],
                ));
                assert(out.deep_view() =~= (base + pf).push(l[i as int]));
                assert((base + pf).push(l[i as int]) =~= base + pf.push(l[i as int]));
            }
        } else {
            proof {
                assert(out.deep_view() =~= base + l.take(i + 1).filter(
                    |p: Seq<char>| has_desktop_extension(p),
                ));
            }
        }
        i = i + 1;
    }
    proof {
        assert(l.take(listing.len() as int) =~= l);
    }
}

/// Combine the two precedence-ordered search roots: the system root's
/// descriptor files first, then the user root's, each in listing order, with
/// no deduplication between the roots.  A missing root contributes nothing,
/// and two missing roots give an empty result, not an error.
pub fn discover(system_listing: Option<Vec<String>>, user_listing: Option<Vec<String>>) -> (r: Vec<
    String,
>)
    ensures
        r.deep_view() == root_paths(system_listing.deep_view()) + root_paths(
            user_listing.deep_view(),
        ),
{
    let mut out: Vec<String> = Vec::new();
    if let Some(listing) = system_listing {
        append_desktop_paths(&mut out, listing);
    }
    proof {
        assert(out.deep_view() =~= root_paths(system_listing.deep_view()));
    }
    let ghost first = out.deep_view();
    if let Some(listing) = user_listing {
        append_desktop_paths(&mut out, listing);
    }
    proof {
        assert(out.deep_view() =~= first + root_paths(user_listing.deep_view()));
    }
    out
}

/// The position of the first path whose base name is `file_name`.
pub fn find_by_base_name(paths: &Vec<String>, file_name: &str) -> (r: Option<usize>)
    ensures
        match r {
            Some(i) => i < paths@.len() && base_name_of(paths.deep_view()[i as int]) == file_name@
                && (forall|j: int| 0 <= j < i ==> base_name_of(#[trigger] paths.deep_view()[j])
                != file_name@),
            None => forall|j: int| 0 <= j < paths@.len() ==> base_name_of(
                #[trigger] paths.deep_view()[j],
            ) != file_name@,
        },
{
    let mut i: usize = 0;
    while i < paths.len()
        invariant
            i <= paths@.len(),
            forall|j: int| 0 <= j < i ==> base_name_of(#[trigger] paths.deep_view()[j])
                != file_name@,
        decreases paths@.len() - i,
    {
        let b = base_name(paths[i].as_str());
        if str_matches(b.as_str(), file_name) {
            proof {
                assert(paths.deep_view()[i as int] == paths@[i as int]@);
            }
            return Some(i);
        }
        proof {
            assert(paths.deep_view()[i as int] == paths@[i as int]@);
        }
        i = i + 1;
    }
    None
}

/// Law: when neither search root exists, discovery owes an empty sequence.
pub proof fn lemma_empty_roots()
    ensures
        (root_paths(None) + root_paths(None)).len() == 0,
{
    assert(root_paths(None) + root_paths(None) =~= Seq::<Seq<char>>::empty());
}

/// The user search root under the given home directory.
pub fn user_applications_dir(home: &str) -> (r: String)
    ensures
        r@ == home@ + "/.local/share/applications"@,
{
    let mut s = home.to_owned();
    s.append("/.local/share/applications");
    s
}

/// What `str::to_lowercase` returns for the given characters.
pub uninterp spec fn lower_of(s: Seq<char>) -> Seq<char>;

/// Relies on str::to_lowercase: the result depends on the characters alone,
/// and an empty string stays empty.
#[verifier::external_body]
fn to_lowercase_str(s: &str) -> (r: String)
    ensures
        r@ == lower_of(s@),
        s@.len() == 0 ==> r@.len() == 0,
{
    s.to_lowercase()
}

/// Relies on Iterator::collect building a String from chars: the string
/// holds exactly the given characters, in order.
#[verifier::external_body]
fn chars_to_string(v: &Vec<char>) -> (r: String)
    ensures
        r@ == v@,
{
    v.iter().collect()
}

/// `s` with every space replaced by a hyphen.
pub open spec fn dashed(s: Seq<char>) -> Seq<char> {
    s.map_values(
        |c: char|
            if c == ' ' {
                '-'
            } else {
                c
            },
    )
}

/// The file name a record named `name` is saved under: the name with spaces
/// replaced by hyphens, lower-cased, with the `.desktop` extension.
pub fn slug_file_name(name: &str) -> (r: String)
    ensures
        r@ == lower_of(dashed(name@)) + ".desktop"@,
{
    let chars = str_chars(name);
    let n = chars.len();
    let mut replaced: Vec<char> = Vec::new();
    proof {
        assert(replaced@ =~= dashed(name@.take(0)));
    }
    let mut i: usize = 0;
    while i < n
        invariant
            i <= n,
            n == chars@.len(),
            chars@ == name@,
            replaced@ == dashed(name@.take(i as int)),
        decreases n - i,
    {
        let c = chars[i];
        replaced.push(
            if c == ' ' {
                '-'
            } else {
                c
            },
        );
        proof {
            assert(replaced@ =~= dashed(name@.take(i + 1)));
        }
        i = i + 1;
    }
    proof {
        assert(name@.take(n as int) =~= name@);
    }
    let d = chars_to_string(&replaced);
    let mut r = to_lowercase_str(d.as_str());
    r.append(".desktop");
    r
}

/// The full path a record named `name` is saved under by default: the user
/// search root under `home`, then the slug file name.
pub fn default_save_path(home: &str, name: &str) -> (r: String)
    ensures
        r@ == home@ + "/.local/share/applications/"@ + lower_of(dashed(name@)) + ".desktop"@,
{
    let mut s = home.to_owned();
    s.append("/.local/share/applications/");
    let slug = slug_file_name(name);
    s.append(slug.as_str());
    proof {
        assert(s@ =~= home@ + "/.local/share/applications/"@ + lower_of(dashed(name@))
            + ".desktop"@);
    }
    s
}

} // verus!

//! The indexer: fan records out into category buckets.  Each discovered
//! file is parsed; the record's semicolon-separated category list names the
//! buckets it joins, one appearance per listed category; a file with no
//! usable category, and a file that cannot be read or parsed, lands in the
//! implicit `Uncategorized` bucket.  Buckets are sorted by category name;
//! entries within a bucket keep scan order.

use vstd::prelude::*;

use crate::codec::{parse_desc, DesktopFile};
use crate::scanner::{base_name, base_name_of};
use crate::text::{
    first_pos, str_chars, lemma_first_pos_absent, lemma_first_pos_of_witness, lemma_first_pos_properties,
    lemma_seq_char_lt_asymmetric, lemma_seq_char_lt_connected, lemma_seq_char_lt_transitive,
    seq_char_lt, str_lt, str_matches, trim_range, trimmed,
};

verus! {

/// The category name every fallback lands in.
pub open spec fn uncategorized() -> Seq<char> {
    "Uncategorized"@
}

/// The raw segments of `s` between semicolons.
pub open spec fn split_semis(s: Seq<char>) -> Seq<Seq<char>>
    decreases s.len(),
    via split_semis_decreases
{
    match first_pos(s, ';') {
        None => seq![s],
        Some(i) => seq![s.subrange(0, i)] + split_semis(s.subrange(i + 1, s.len() as int)),
    }
}

#[via_fn]
proof fn split_semis_decreases(s: Seq<char>) {
    lemma_first_pos_properties(s, ';');
}

/// The usable categories in a raw `Categories` value: each semicolon
/// segment trimmed, empty segments discarded.
pub open spec fn split_categories_spec(s: Seq<char>) -> Seq<Seq<char>> {
    split_semis(s).map_values(|t: Seq<char>| trimmed(t)).filter(|t: Seq<char>| t.len() > 0)
}

/// The categories an entry with the given file content belongs to:
/// unreadable content, unparsable content, an absent `Categories` field and
/// a `Categories` field with no usable segment all fall back to the single
/// implicit `Uncategorized` category.
pub open spec fn cats_of(content: Option<Seq<char>>) -> Seq<Seq<char>> {
    match content {
        None => seq![uncategorized()],
        Some(text) => match parse_desc(text) {
            None => seq![uncategorized()],
            Some(e) => match e.categories {
                None => seq![uncategorized()],
                Some(c) => {
                    let l = split_categories_spec(c);
                    if l.len() == 0 {
                        seq![uncategorized()]
                    } else {
                        l
                    }
                },
            },
        },
    }
}

/// One bucket's contents: (display name, absolute path) pairs in scan order.
pub type BucketContents = Seq<(Seq<char>, Seq<char>)>;

/// The contents of category `c` in the map, empty when absent.
pub open spec fn bucket_of(m: Map<Seq<char>, BucketContents>, c: Seq<char>) -> BucketContents {
    if m.dom().contains(c) {
        m[c]
    } else {
        Seq::empty()
    }
}

/// Append entry `e` to category `c`'s bucket, creating the bucket if absent.
pub open spec fn bucket_add(
    m: Map<Seq<char>, BucketContents>,
    c: Seq<char>,
    e: (Seq<char>, Seq<char>),
) -> Map<Seq<char>, BucketContents> {
    m.insert(c, bucket_of(m, c).push(e))
}

/// Append entry `e` once for each category in `cs`, in order.
pub open spec fn add_cats(
    m: Map<Seq<char>, BucketContents>,
    cs: Seq<Seq<char>>,
    e: (Seq<char>, Seq<char>),
) -> Map<Seq<char>, BucketContents>
    decreases cs.len(),
{
    if cs.len() == 0 {
        m
    } else {
        add_cats(bucket_add(m, cs[0], e), cs.drop_first(), e)
    }
}

/// The category index built from the scanned files, as a map: each file,
/// in scan order, contributes the pair (its base name, its path) to the
/// bucket of every category it belongs to.
pub open spec fn index_map(files: Seq<(Seq<char>, Option<Seq<char>>)>) -> Map<
    Seq<char>,
    BucketContents,
>
    decreases files.len(),
{
    if files.len() == 0 {
        Map::empty()
    } else {
        add_cats(
            index_map(files.drop_last()),
            cats_of(files.last().1),
            (base_name_of(files.last().0), files.last().0),
        )
    }
}

/// Split a raw `Categories` value into its usable categories: semicolon
/// segments, trimmed, empty segments discarded, order kept.
pub fn split_categories(s: &str) -> (r: Vec<String>)
    ensures
        r.deep_view() == split_categories_spec(s@),
{
    let chars = str_chars(s);
    let n = chars.len();
    let mut out: Vec<String> = Vec::new();
    let mut pos: usize = 0;
    proof {
        assert(s@.subrange(0, n as int) =~= s@);
        assert(out.deep_view() + split_categories_spec(s@) =~= split_categories_spec(s@));
    }
    let mut done = false;
    while !done
        invariant
            pos <= n,
            n == chars@.len(),
            chars@ == s@,
            done ==> pos == n,
            out.deep_view() + split_categories_spec(s@.subrange(pos as int, n as int))
                =~= split_categories_spec(s@),
        decreases (if done {
            0int
        } else {
            1int
        }), n - pos,
    {
        let ghost rest = s@.subrange(pos as int, n as int);
        let mut j = pos;
        while j < n && chars[j] != ';'
            invariant
                pos <= j <= n,
                n == chars@.len(),
                chars@ == s@,
                forall|k: int| pos <= k < j ==> chars@[k] != ';',
            decreases n - j,
        {
            j = j + 1;
        }
        proof {
            if j < n {
                assert(rest[j - pos] == ';');
                lemma_first_pos_of_witness(rest, ';', j - pos);
            } else {
                lemma_first_pos_absent(rest, ';');
            }
            assert(rest.subrange(0, j - pos) =~= s@.subrange(pos as int, j as int));
        }
        let (lo, hi) = trim_range(&chars, pos, j);
        let ghost seg = s@.subrange(pos as int, j as int);
        let ghost old_dv = out.deep_view();
        if lo < hi {
            out.push(s.substring_char(lo, hi).to_owned());
            proof {
                assert(out.deep_view() =~= old_dv.push(trimmed(seg)));
            }
        }
        proof {
            reveal_with_fuel(Seq::<Seq<char>>::filter, 2);
            let piece = seq![seg].map_values(|t: Seq<char>| trimmed(t)).filter(
                |t: Seq<char>| t.len() > 0,
            );
            assert(seq![seg].map_values(|t: Seq<char>| trimmed(t)) =~= seq![trimmed(seg)]);
            assert(seq![trimmed(seg)].drop_last() =~= Seq::<Seq<char>>::empty());
            if lo < hi {
                assert(piece =~= seq![trimmed(seg)]);
                assert(out.deep_view() =~= old_dv + piece);
            } else {
                assert(trimmed(seg).len() == 0);
                assert(piece =~= Seq::<Seq<char>>::empty());
                assert(out.deep_view() =~= old_dv + piece);
            }
            if j < n {
                let tail = s@.subrange(j + 1, n as int);
                assert(rest.subrange(j - pos + 1, rest.len() as int) =~= tail);
                assert(split_semis(rest) == seq![seg] + split_semis(tail));
                lemma_split_categories_add(seg, tail);
            } else {
                assert(split_semis(rest) == seq![rest]);
                assert(rest == seg);
                assert(split_categories_spec(rest) == piece) by {
                    assert(split_semis(seg).map_values(|t: Seq<char>| trimmed(t))
                        =~= seq![trimmed(seg)]);
                }
            }
        }
        if j < n {
            pos = j + 1;
        } else {
            pos = n;
            done = true;
        }
        proof {
            if done {
                assert(s@.subrange(n as int, n as int).len() == 0);
                lemma_split_categories_empty();
                assert(out.deep_view() + split_categories_spec(
                    s@.subrange(pos as int, n as int),
                ) =~= split_categories_spec(s@));
            } else {
                assert(out.deep_view() + split_categories_spec(
                    s@.subrange(pos as int, n as int),
                ) =~= split_categories_spec(s@));
            }
        }
    }
    proof {
        assert(s@.subrange(pos as int, n as int) =~= Seq::<char>::empty());
        lemma_split_categories_empty();
        assert(out.deep_view() + split_categories_spec(s@.subrange(pos as int, n as int))
            =~= out.deep_view());
        assert(out.deep_view() =~= split_categories_spec(s@));
    }
    out
}

/// One scanned file as the indexer receives it: its path, and its content
/// where it could be read.
pub struct ScannedFile {
    pub path: String,
    pub content: Option<String>,
}

impl View for ScannedFile {
    type V = (Seq<char>, Option<Seq<char>>);

    open spec fn view(&self) -> (Seq<char>, Option<Seq<char>>) {
        (self.path@, self.content.deep_view())
    }
}

impl DeepView for ScannedFile {
    type V = (Seq<char>, Option<Seq<char>>);

    open spec fn deep_view(&self) -> (Seq<char>, Option<Seq<char>>) {
        self@
    }
}

/// One entry of a bucket: the name shown for the file, and its path.
pub struct IndexEntry {
    pub display_name: String,
    pub path: String,
}

impl View for IndexEntry {
    type V = (Seq<char>, Seq<char>);

    open spec fn view(&self) -> (Seq<char>, Seq<char>) {
        (self.display_name@, self.path@)
    }
}

impl DeepView for IndexEntry {
    type V = (Seq<char>, Seq<char>);

    open spec fn deep_view(&self) -> (Seq<char>, Seq<char>) {
        self@
    }
}

/// The abstract value of a [`CategoryBucket`].
#[verifier::ext_equal]
pub struct BucketView {
    pub category: Seq<char>,
    pub entries: BucketContents,
}

/// One category and the entries that fell into it, in scan order.
pub struct CategoryBucket {
    pub category: String,
    pub entries: Vec<IndexEntry>,
}

impl View for CategoryBucket {
    type V = BucketView;

    open spec fn view(&self) -> BucketView {
        BucketView { category: self.category@, entries: self.entries.deep_view() }
    }
}

impl DeepView for CategoryBucket {
    type V = BucketView;

    open spec fn deep_view(&self) -> BucketView {
        self@
    }
}

/// The category index: buckets sorted by category name, rebuilt wholesale
/// on every scan.
pub struct CategoryIndex {
    pub buckets: Vec<CategoryBucket>,
}

/// Bucket categories strictly ascending: sorted for presentation, and no
/// category twice.
pub open spec fn sorted_buckets(bs: Seq<BucketView>) -> bool {
    forall|i: int, j: int| 0 <= i < j < bs.len() ==> seq_char_lt(
        #[trigger] bs[i].category,
        #[trigger] bs[j].category,
    )
}

/// The contents of category `c`'s bucket, looked up front to back.
pub open spec fn find_bucket(bs: Seq<BucketView>, c: Seq<char>) -> Option<BucketContents>
    decreases bs.len(),
{
    if bs.len() == 0 {
        None
    } else if bs[0].category == c {
        Some(bs[0].entries)
    } else {
        find_bucket(bs.drop_first(), c)
    }
}

/// The contents of category `c`'s bucket, empty when the bucket is absent.
pub open spec fn found_contents(bs: Seq<BucketView>, c: Seq<char>) -> BucketContents {
    match find_bucket(bs, c) {
        Some(b) => b,
        None => Seq::empty(),
    }
}

/// The buckets as a map from category to contents.
pub open spec fn map_of_buckets(bs: Seq<BucketView>) -> Map<Seq<char>, BucketContents> {
    Map::new(|c: Seq<char>| find_bucket(bs, c) is Some, |c: Seq<char>| found_contents(bs, c))
}

/// The contents of category `c` in map `m`, or nothing when absent.
pub open spec fn spec_bucket(m: Map<Seq<char>, BucketContents>, c: Seq<char>) -> Option<
    BucketContents,
> {
    if m.dom().contains(c) {
        Some(m[c])
    } else {
        None
    }
}

impl CategoryIndex {
    /// The index's categories are strictly sorted.
    pub open spec fn wf(self) -> bool {
        sorted_buckets(self.buckets.deep_view())
    }
}

proof fn lemma_find_bucket_at(bs: Seq<BucketView>, k: int, c: Seq<char>)
    requires
        0 <= k < bs.len(),
        bs[k].category == c,
        forall|j: int| 0 <= j < k ==> (#[trigger] bs[j]).category != c,
    ensures
        find_bucket(bs, c) == Some(bs[k].entries),
    decreases bs.len(),
{
    if k > 0 {
        assert(forall|j: int| 0 <= j < bs.len() - 1 ==> bs.drop_first()[j] == bs[j + 1]);
        lemma_find_bucket_at(bs.drop_first(), k - 1, c);
    }
}

proof fn lemma_find_bucket_absent(bs: Seq<BucketView>, c: Seq<char>)
    requires
        forall|j: int| 0 <= j < bs.len() ==> (#[trigger] bs[j]).category != c,
    ensures
        find_bucket(bs, c) is None,
    decreases bs.len(),
{
    if bs.len() > 0 {
        assert(forall|j: int| 0 <= j < bs.len() - 1 ==> bs.drop_first()[j] == bs[j + 1]);
        lemma_find_bucket_absent(bs.drop_first(), c);
    }
}

proof fn lemma_find_bucket_insert_other(bs: Seq<BucketView>, k: int, x: BucketView, c: Seq<char>)
    requires
        0 <= k <= bs.len(),
        x.category != c,
    ensures
        find_bucket(bs.insert(k, x), c) == find_bucket(bs, c),
    decreases bs.len(),
{
    let w = bs.insert(k, x);
    if k == 0 {
        assert(w[0] == x);
        assert(w.drop_first() =~= bs);
    } else {
        assert(w[0] == bs[0]);
        if bs[0].category != c {
            assert(w.drop_first() =~= bs.drop_first().insert(k - 1, x));
            lemma_find_bucket_insert_other(bs.drop_first(), k - 1, x, c);
        }
    }
}

proof fn lemma_find_bucket_update_other(bs: Seq<BucketView>, k: int, x: BucketView, c: Seq<char>)
    requires
        0 <= k < bs.len(),
        x.category == bs[k].category,
        x.category != c,
    ensures
        find_bucket(bs.update(k, x), c) == find_bucket(bs, c),
    decreases bs.len(),
{
    let w = bs.update(k, x);
    if k == 0 {
        assert(w[0] == x);
        assert(w.drop_first() =~= bs.drop_first());
    } else {
        assert(w[0] == bs[0]);
        if bs[0].category != c {
            assert(w.drop_first() =~= bs.drop_first().update(k - 1, x));
            lemma_find_bucket_update_other(bs.drop_first(), k - 1, x, c);
        }
    }
}

/// Append one entry to `category`'s bucket, creating the bucket in its
/// sorted position when it is absent; no other bucket changes.
fn add_to_bucket(buckets: &mut Vec<CategoryBucket>, category: String, display_name: String, path: String)
    requires
        sorted_buckets(old(buckets).deep_view()),
    ensures
        sorted_buckets(final(buckets).deep_view()),
        find_bucket(final(buckets).deep_view(), category@) == Some(
            found_contents(old(buckets).deep_view(), category@).push((display_name@, path@)),
        ),
        forall|c: Seq<char>| c != category@ ==> find_bucket(final(buckets).deep_view(), c)
            == find_bucket(old(buckets).deep_view(), c),
{
    let ghost old_dv = buckets.deep_view();
    let ghost e = (display_name@, path@);
    let n = buckets.len();
    let mut i: usize = 0;
    while i < n && str_lt(buckets[i].category.as_str(), category.as_str())
        invariant
            i <= n,
            n == buckets@.len(),
            *buckets == *old(buckets),
            old_dv == buckets.deep_view(),
            forall|j: int| 0 <= j < i ==> seq_char_lt((#[trigger] old_dv[j]).category, category@),
        decreases n - i,
    {
        i = i + 1;
    }
    proof {
        assert forall|j: int| 0 <= j < i implies (#[trigger] old_dv[j]).category != category@ by {
            lemma_seq_char_lt_asymmetric(old_dv[j].category, category@);
        }
    }
    let found = i < n && str_matches(buckets[i].category.as_str(), category.as_str());
    if found {
        let mut b = buckets.remove(i);
        b.entries.push(IndexEntry { display_name, path });
        buckets.insert(i, b);
        proof {
            let new_dv = buckets.deep_view();
            let upd = BucketView { category: old_dv[i as int].category, entries: old_dv[i as int].entries.push(e) };
            assert(new_dv =~~= old_dv.update(i as int, upd));
            assert(sorted_buckets(new_dv)) by {
                assert(forall|k: int| 0 <= k < new_dv.len() ==> (#[trigger] new_dv[k]).category
                    == old_dv[k].category);
            }
            lemma_find_bucket_at(new_dv, i as int, category@);
            lemma_find_bucket_at(old_dv, i as int, category@);
            assert forall|c: Seq<char>| c != category@ implies find_bucket(new_dv, c)
                == find_bucket(old_dv, c) by {
                lemma_find_bucket_update_other(old_dv, i as int, upd, c);
            }
        }
    } else {
        let mut entries: Vec<IndexEntry> = Vec::new();
        entries.push(IndexEntry { display_name, path });
        buckets.insert(i, CategoryBucket { category, entries });
        proof {
            let new_dv = buckets.deep_view();
            let fresh = new_dv[i as int];
            assert(new_dv =~~= old_dv.insert(i as int, fresh));
            assert(fresh.category == category@);
            assert(fresh.entries =~= Seq::<(Seq<char>, Seq<char>)>::empty().push(e));
            if i < n {
                assert(!seq_char_lt(old_dv[i as int].category, category@));
                assert(old_dv[i as int].category != category@);
                lemma_seq_char_lt_connected(old_dv[i as int].category, category@);
                assert(seq_char_lt(category@, old_dv[i as int].category));
            }
            assert forall|a: int, b: int| 0 <= a < b < new_dv.len() implies seq_char_lt(
                (#[trigger] new_dv[a]).category,
                (#[trigger] new_dv[b]).category,
            ) by {
                if a == i && b > i + 1 {
                    lemma_seq_char_lt_transitive(
                        category@,
                        old_dv[i as int].category,
                        old_dv[b - 1].category,
                    );
                }
            }
            assert forall|j: int| 0 <= j < old_dv.len() implies (#[trigger] old_dv[j]).category
                != category@ by {
                if j >= i {
                    if j > i {
                        lemma_seq_char_lt_transitive(
                            category@,
                            old_dv[i as int].category,
                            old_dv[j].category,
                        );
                    }
                    lemma_seq_char_lt_asymmetric(category@, old_dv[j].category);
                }
            }
            lemma_find_bucket_absent(old_dv, category@);
            assert forall|j: int| 0 <= j < i implies (#[trigger] new_dv[j]).category != category@
                by {}
            lemma_find_bucket_at(new_dv, i as int, category@);
            assert forall|c: Seq<char>| c != category@ implies find_bucket(new_dv, c)
                == find_bucket(old_dv, c) by {
                lemma_find_bucket_insert_other(old_dv, i as int, fresh, c);
            }
        }
    }
}

/// The single-element fallback category list.
fn uncategorized_list() -> (r: Vec<String>)
    ensures
        r.deep_view() == seq![uncategorized()],
{
    let mut r: Vec<String> = Vec::new();
    r.push("Uncategorized".to_owned());
    proof {
        assert(r.deep_view() =~= seq![uncategorized()]);
    }
    r
}

/// The categories the given file content belongs to, as [`cats_of`] says.
pub fn categories_of_content(content: &Option<String>) -> (r: Vec<String>)
    ensures
        r.deep_view() == cats_of(content.deep_view()),
{
    match content {
        None => uncategorized_list(),
        Some(text) => match DesktopFile::from_string(text.as_str()) {
            Err(_) => uncategorized_list(),
            Ok(f) => match f.desktop_entry.categories {
                None => uncategorized_list(),
                Some(c) => {
                    let l = split_categories(c.as_str());
                    if l.len() == 0 {
                        uncategorized_list()
                    } else {
                        l
                    }
                },
            },
        },
    }
}

/// Build the category index from the scanned files: each file joins the
/// bucket of every category it belongs to, buckets sorted by category name,
/// entries within a bucket in scan order.  The result holds a bucket for
/// exactly the categories of [`index_map`], with exactly its contents.
pub fn build_index(files: &Vec<ScannedFile>) -> (r: CategoryIndex)
    ensures
        r.wf(),
        forall|c: Seq<char>|
            find_bucket(r.buckets.deep_view(), c) == #[trigger] spec_bucket(
                index_map(files.deep_view()),
                c,
            ),
{
    let ghost all = files.deep_view();
    let mut buckets: Vec<CategoryBucket> = Vec::new();
    proof {
        assert(all.take(0) =~= Seq::<(Seq<char>, Option<Seq<char>>)>::empty());
        assert forall|c: Seq<char>|
            find_bucket(buckets.deep_view(), c) == #[trigger] spec_bucket(
                index_map(all.take(0)),
                c,
            ) by {
            assert(buckets.deep_view() =~= Seq::<BucketView>::empty());
            assert(!index_map(all.take(0)).dom().contains(c));
        }
    }
    let mut fi: usize = 0;
    while fi < files.len()
        invariant
            fi <= files.len(),
            all == files.deep_view(),
            sorted_buckets(buckets.deep_view()),
            forall|c: Seq<char>|
                find_bucket(buckets.deep_view(), c) == #[trigger] spec_bucket(
                    index_map(all.take(fi as int)),
                    c,
                ),
        decreases files.len() - fi,
    {
        let file = &files[fi];
        let display = base_name(file.path.as_str());
        let cats = categories_of_content(&file.content);
        let ghost e = (base_name_of(all[fi as int].0), all[fi as int].0);
        let ghost m0 = index_map(all.take(fi as int));
        let ghost cs = cats.deep_view();
        let ghost target = add_cats(m0, cs, e);
        proof {
            assert(all[fi as int] == files[fi as int]@);
            assert(cs == cats_of(all[fi as int].1));
        }
        proof {
            assert(map_of_buckets(buckets.deep_view()) =~= m0) by {
                assert forall|c: Seq<char>| #[trigger]
                    map_of_buckets(buckets.deep_view()).dom().contains(c) == m0.dom().contains(
                        c,
                    ) by {
                    assert(find_bucket(buckets.deep_view(), c) == spec_bucket(m0, c));
                }
                assert forall|c: Seq<char>| m0.dom().contains(c) implies #[trigger] map_of_buckets(
                    buckets.deep_view(),
                )[c] == m0[c] by {
                    assert(find_bucket(buckets.deep_view(), c) == spec_bucket(m0, c));
                }
            }
            assert(cs.skip(0) =~= cs);
        }
        let mut ci: usize = 0;
        while ci < cats.len()
            invariant
                ci <= cats.len(),
                cs == cats.deep_view(),
                e.0 == display@,
                e.1 == files[fi as int].path@,
                fi < files.len(),
                sorted_buckets(buckets.deep_view()),
                add_cats(map_of_buckets(buckets.deep_view()), cs.skip(ci as int), e) == target,
            decreases cats.len() - ci,
        {
            let ghost old_dv = buckets.deep_view();
            let file = &files[fi];
            add_to_bucket(&mut buckets, cats[ci].clone(), display.clone(), file.path.clone());
            proof {
                let new_dv = buckets.deep_view();
                let cat = cs[ci as int];
                let mob_old = map_of_buckets(old_dv);
                let mob_new = map_of_buckets(new_dv);
                let mb = bucket_add(mob_old, cat, e);
                assert(cats[ci as int]@ == cat);
                assert(find_bucket(new_dv, cat) == Some(found_contents(old_dv, cat).push(e)));
                assert(mob_new =~= mb) by {
                    assert forall|c: Seq<char>| #[trigger] mob_new.dom().contains(c)
                        == mb.dom().contains(c) by {
                        if c != cat {
                            assert(find_bucket(new_dv, c) == find_bucket(old_dv, c));
                        }
                    }
                    assert forall|c: Seq<char>| mb.dom().contains(c) implies #[trigger] mob_new[c]
                        == mb[c] by {
                        if c == cat {
                            assert(mob_new[c] == found_contents(new_dv, c));
                            assert(mb[c] == bucket_of(mob_old, c).push(e));
                            if mob_old.dom().contains(c) {
                                assert(bucket_of(mob_old, c) == found_contents(old_dv, c));
                            } else {
                                assert(find_bucket(old_dv, c) is None);
                                assert(bucket_of(mob_old, c) =~= found_contents(old_dv, c));
                            }
                        } else {
                            assert(find_bucket(new_dv, c) == find_bucket(old_dv, c));
                        }
                    }
                }
                assert(cs.skip(ci as int)[0] == cat);
                assert(cs.skip(ci as int).drop_first() =~= cs.skip(ci + 1));
                assert(add_cats(mob_old, cs.skip(ci as int), e) == add_cats(
                    bucket_add(mob_old, cat, e),
                    cs.skip(ci + 1),
                    e,
                ));
            }
            ci = ci + 1;
        }
        proof {
            let dv = buckets.deep_view();
            let mob = map_of_buckets(dv);
            assert(cs.skip(cats.len() as int).len() == 0);
            assert(mob == target);
            assert(all.take(fi + 1).drop_last() =~= all.take(fi as int));
            assert(all.take(fi + 1).last() == all[fi as int]);
            assert(index_map(all.take(fi + 1)) == target);
            assert forall|c: Seq<char>|
                find_bucket(dv, c) == #[trigger] spec_bucket(index_map(all.take(fi + 1)), c) by {
                assert(target.dom().contains(c) == (find_bucket(dv, c) is Some));
                if target.dom().contains(c) {
                    assert(target[c] == found_contents(dv, c));
                }
            }
        }
        fi = fi + 1;
    }
    proof {
        assert(all.take(files.len() as int) =~= all);
    }
    CategoryIndex { buckets }
}

/// How many times category `c` occurs in the list `cs`.
pub open spec fn occ(cs: Seq<Seq<char>>, c: Seq<char>) -> nat
    decreases cs.len(),
{
    if cs.len() == 0 {
        0
    } else {
        (if cs[0] == c {
            1nat
        } else {
            0nat
        }) + occ(cs.drop_first(), c)
    }
}

/// Adding one entry under a category list extends `c`'s bucket by one copy
/// of the entry per occurrence of `c`, and touches no other bucket.
pub proof fn lemma_add_cats_bucket(
    m: Map<Seq<char>, BucketContents>,
    cs: Seq<Seq<char>>,
    e: (Seq<char>, Seq<char>),
    c: Seq<char>,
)
    ensures
        bucket_of(add_cats(m, cs, e), c) == bucket_of(m, c) + Seq::new(occ(cs, c), |k: int| e),
    decreases cs.len(),
{
    if cs.len() == 0 {
        assert(bucket_of(m, c) + Seq::new(0, |k: int| e) =~= bucket_of(m, c));
    } else {
        let m1 = bucket_add(m, cs[0], e);
        lemma_add_cats_bucket(m1, cs.drop_first(), e, c);
        if cs[0] == c {
            assert(bucket_of(m1, c) == bucket_of(m, c).push(e));
            assert(bucket_of(m, c).push(e) + Seq::new(occ(cs.drop_first(), c), |k: int| e)
                =~= bucket_of(m, c) + Seq::new(occ(cs, c), |k: int| e));
        } else {
            assert(bucket_of(m1, c) == bucket_of(m, c));
        }
    }
}

/// Law: appending one scanned file to the index extends the bucket of a
/// category it lists once by exactly that file's entry, and leaves the
/// bucket of a category it does not list unchanged.
pub proof fn lemma_category_fan_out(
    files: Seq<(Seq<char>, Option<Seq<char>>)>,
    f: (Seq<char>, Option<Seq<char>>),
    c: Seq<char>,
)
    ensures
        ({
            let before = bucket_of(index_map(files), c);
            let after = bucket_of(index_map(files.push(f)), c);
            let entry = (base_name_of(f.0), f.0);
            &&& occ(cats_of(f.1), c) == 1 ==> after == before.push(entry) && after.len()
                == before.len() + 1
            &&& occ(cats_of(f.1), c) == 0 ==> after == before
        }),
{
    let w = files.push(f);
    assert(w.drop_last() =~= files);
    assert(w.last() == f);
    let entry = (base_name_of(f.0), f.0);
    lemma_add_cats_bucket(index_map(files), cats_of(f.1), entry, c);
    let before = bucket_of(index_map(files), c);
    if occ(cats_of(f.1), c) == 1 {
        assert(before + Seq::new(1, |k: int| entry) =~= before.push(entry));
    }
    if occ(cats_of(f.1), c) == 0 {
        assert(before + Seq::new(0, |k: int| entry) =~= before);
    }
}

/// Law: a file whose content cannot be read, a file whose content fails to
/// parse, and a record without a `Categories` key all belong to the single
/// implicit `Uncategorized` category.
pub proof fn lemma_uncategorized_fallback(text: Seq<char>)
    ensures
        cats_of(None) == seq![uncategorized()],
        parse_desc(text) is None ==> cats_of(Some(text)) == seq![uncategorized()],
        (parse_desc(text) matches Some(e) && e.categories is None) ==> cats_of(Some(text))
            == seq![uncategorized()],
{
}

/// Splitting an empty value yields no usable category.
proof fn lemma_split_categories_empty()
    ensures
        split_categories_spec(Seq::<char>::empty()).len() == 0,
{
    reveal_with_fuel(Seq::<Seq<char>>::filter, 2);
    let s = Seq::<char>::empty();
    lemma_first_pos_absent(s, ';');
    assert(split_semis(s) == seq![s]);
    assert(split_semis(s).map_values(|t: Seq<char>| trimmed(t)) =~= seq![trimmed(s)]);
    assert(trimmed(s).len() == 0);
    assert(seq![trimmed(s)].drop_last() =~= Seq::<Seq<char>>::empty());
}

/// The usable categories of `seg` followed by further segments are those of
/// `seg` and then those of the rest.
proof fn lemma_split_categories_add(seg: Seq<char>, tail: Seq<char>)
    ensures
        (seq![seg] + split_semis(tail)).map_values(|t: Seq<char>| trimmed(t)).filter(
            |t: Seq<char>| t.len() > 0,
        ) == (seq![seg].map_values(|t: Seq<char>| trimmed(t)).filter(|t: Seq<char>| t.len() > 0)
            + split_categories_spec(tail)),
{
    let f = |t: Seq<char>| t.len() > 0;
    let m = |t: Seq<char>| trimmed(t);
    assert((seq![seg] + split_semis(tail)).map_values(m) =~= seq![seg].map_values(m)
        + split_semis(tail).map_values(m));
    Seq::<Seq<char>>::filter_distributes_over_add(
        seq![seg].map_values(m),
        split_semis(tail).map_values(m),
        f,
    );
}

} // verus!

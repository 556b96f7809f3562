use crate::distribute::CategoryEntry;
use crate::text::{decimal, decimal_string, digit, seqs_sorted, sort_strings, views};
use vstd::prelude::*;

verus! {

broadcast use vstd::seq_lib::group_to_multiset_ensures;

/// Name prefix of the buckets that hold the pages without a category.
pub const UNCATEGORIZED_KEY: &'static str = "Uncategorized";

/// Largest number of pages in one bucket of uncategorized pages.
pub const BUCKET_SIZE: usize = 500;

/// A page title and the names of its categories.
pub type PageEntry = (String, Vec<String>);

/// Number of times `c` occurs among `cats`.
pub open spec fn occurrences(cats: Seq<String>, c: Seq<char>) -> nat
    decreases cats.len(),
{
    if cats.len() == 0 {
        0
    } else {
        occurrences(cats.drop_last(), c) + if cats.last()@ == c {
            1nat
        } else {
            0nat
        }
    }
}

/// The titles filed under category `c`: the pages in input order, each once
/// for every time it names `c`.
pub open spec fn pages_in(pages: Seq<PageEntry>, c: Seq<char>) -> Seq<Seq<char>>
    decreases pages.len(),
{
    if pages.len() == 0 {
        Seq::empty()
    } else {
        let e = pages.last();
        pages_in(pages.drop_last(), c) + Seq::new(occurrences(e.1@, c), |i: int| e.0@)
    }
}

/// The titles of the pages that name no category, in input order.
pub open spec fn uncategorized(pages: Seq<PageEntry>) -> Seq<Seq<char>>
    decreases pages.len(),
{
    if pages.len() == 0 {
        Seq::empty()
    } else {
        let e = pages.last();
        if e.1@.len() == 0 {
            uncategorized(pages.drop_last()).push(e.0@)
        } else {
            uncategorized(pages.drop_last())
        }
    }
}

/// Name of the `n`-th bucket of uncategorized pages, counted from 1.
pub open spec fn bucket_name(n: nat) -> Seq<char> {
    UNCATEGORIZED_KEY@ + " #"@ + decimal(n)
}

/// `c` names one of the first `count` buckets.
pub open spec fn is_bucket(c: Seq<char>, count: nat) -> bool {
    exists|n: nat| 1 <= n <= count && c == #[trigger] bucket_name(n)
}

/// Number of buckets for `k` uncategorized pages.
pub open spec fn bucket_count(k: nat) -> nat {
    ((k + 499) / 500) as nat
}

/// The `n`-th bucket (from 1) of the sorted titles `sorted`: the next 500 of them.
pub open spec fn bucket(sorted: Seq<Seq<char>>, n: nat) -> Seq<Seq<char>> {
    let start: int = 500 * (n - 1);
    let end: int = if 500 * n < sorted.len() {
        500 * n as int
    } else {
        sorted.len() as int
    };
    sorted.subrange(start, end)
}

/// No two entries share a name.
pub open spec fn keys_unique(t: Seq<CategoryEntry>) -> bool {
    forall|i: int, j: int| 0 <= i < j < t.len() ==> #[trigger] t[i].0@ != #[trigger] t[j].0@
}

/// Every entry holds at least one page.
pub open spec fn no_empty_entry(t: Seq<CategoryEntry>) -> bool {
    forall|i: int| 0 <= i < t.len() ==> (#[trigger] t[i]).1@.len() > 0
}

/// Some entry is named `c`.
pub open spec fn has_key(t: Seq<CategoryEntry>, c: Seq<char>) -> bool {
    exists|i: int| 0 <= i < t.len() && #[trigger] t[i].0@ == c
}

/// The pages of the entry named `c`, or none when there is no such entry.
pub open spec fn pages_of(t: Seq<CategoryEntry>, c: Seq<char>) -> Seq<Seq<char>> {
    if has_key(t, c) {
        views(t[choose|i: int| 0 <= i < t.len() && #[trigger] t[i].0@ == c].1@)
    } else {
        Seq::empty()
    }
}

/// A well-formed category tree: names unique, no entry empty.
pub open spec fn tree_wf(t: Seq<CategoryEntry>) -> bool {
    keys_unique(t) && no_empty_entry(t)
}

proof fn lemma_pages_of_at(t: Seq<CategoryEntry>, idx: int)
    requires
        keys_unique(t),
        0 <= idx < t.len(),
    ensures
        has_key(t, t[idx].0@),
        pages_of(t, t[idx].0@) == views(t[idx].1@),
{
    let c = t[idx].0@;
    assert(has_key(t, c));
    let i = choose|i: int| 0 <= i < t.len() && #[trigger] t[i].0@ == c;
    if i != idx {
        if i < idx {
            assert(t[i].0@ != t[idx].0@);
        } else {
            assert(t[idx].0@ != t[i].0@);
        }
    }
}

proof fn lemma_has_key_iff(t: Seq<CategoryEntry>, c: Seq<char>)
    requires
        tree_wf(t),
    ensures
        has_key(t, c) <==> pages_of(t, c).len() > 0,
{
    if has_key(t, c) {
        let i = choose|i: int| 0 <= i < t.len() && #[trigger] t[i].0@ == c;
        lemma_pages_of_at(t, i);
    }
}

fn find_key(tree: &Vec<CategoryEntry>, key: &String) -> (r: Option<usize>)
    ensures
        match r {
            Some(i) => i < tree@.len() && tree@[i as int].0@ == key@,
            None => !has_key(tree@, key@),
        },
{
    let mut i: usize = 0;
    while i < tree.len()
        invariant
            i <= tree@.len(),
            forall|j: int| 0 <= j < i ==> #[trigger] tree@[j].0@ != key@,
        decreases tree@.len() - i,
    {
        if tree[i].0 == *key {
            return Some(i);
        }
        i = i + 1;
    }
    None
}

/// Files `page` under `cat`, creating the entry when there is none yet.
fn add_page(tree: &mut Vec<CategoryEntry>, cat: &String, page: &String)
    requires
        tree_wf(old(tree)@),
    ensures
        tree_wf(final(tree)@),
        forall|c: Seq<char>|
            #[trigger] pages_of(final(tree)@, c) == if c == cat@ {
                pages_of(old(tree)@, c).push(page@)
            } else {
                pages_of(old(tree)@, c)
            },
{
    let ghost old_t = tree@;
    match find_key(tree, cat) {
        Some(idx) => {
            let mut entry = tree.remove(idx);
            entry.1.push(page.clone());
            tree.insert(idx, entry);
            proof {
                let t = tree@;
                assert forall|i: int| 0 <= i < t.len() && i != idx implies #[trigger] t[i] == old_t[i] by {}
                assert(keys_unique(t)) by {
                    assert forall|i: int, j: int| 0 <= i < j < t.len() implies #[trigger] t[i].0@
                        != #[trigger] t[j].0@ by {
                        assert(old_t[i].0@ != old_t[j].0@);
                    }
                }
                lemma_pages_of_at(old_t, idx as int);
                lemma_pages_of_at(t, idx as int);
                assert(views(t[idx as int].1@) =~= views(old_t[idx as int].1@).push(page@));
                assert forall|c: Seq<char>| c != cat@ implies #[trigger] pages_of(t, c) == pages_of(
                    old_t,
                    c,
                ) by {
                    if has_key(old_t, c) {
                        let i = choose|i: int| 0 <= i < old_t.len() && #[trigger] old_t[i].0@ == c;
                        lemma_pages_of_at(old_t, i);
                        lemma_pages_of_at(t, i);
                    } else if has_key(t, c) {
                        let i = choose|i: int| 0 <= i < t.len() && #[trigger] t[i].0@ == c;
                        assert(old_t[i].0@ == c);
                    }
                }
            }
        },
        None => {
            let mut pages: Vec<String> = Vec::new();
            pages.push(page.clone());
            tree.push((cat.clone(), pages));
            proof {
                let t = tree@;
                let idx = old_t.len() as int;
                assert forall|i: int| 0 <= i < old_t.len() implies #[trigger] t[i] == old_t[i] by {}
                assert(keys_unique(t)) by {
                    assert forall|i: int, j: int| 0 <= i < j < t.len() implies #[trigger] t[i].0@
                        != #[trigger] t[j].0@ by {
                        if j == idx {
                            assert(old_t[i].0@ != cat@);
                        } else {
                            assert(old_t[i].0@ != old_t[j].0@);
                        }
                    }
                }
                lemma_pages_of_at(t, idx);
                assert(views(t[idx].1@) =~= Seq::<Seq<char>>::empty().push(page@));
                assert forall|c: Seq<char>| c != cat@ implies #[trigger] pages_of(t, c) == pages_of(
                    old_t,
                    c,
                ) by {
                    if has_key(old_t, c) {
                        let i = choose|i: int| 0 <= i < old_t.len() && #[trigger] old_t[i].0@ == c;
                        lemma_pages_of_at(old_t, i);
                        lemma_pages_of_at(t, i);
                    } else if has_key(t, c) {
                        let i = choose|i: int| 0 <= i < t.len() && #[trigger] t[i].0@ == c;
                        assert(old_t[i].0@ == c);
                    }
                }
            }
        },
    }
}

/// Gives the entry named `key` exactly the pages `pages`.
fn set_entry(tree: &mut Vec<CategoryEntry>, key: String, pages: Vec<String>)
    requires
        tree_wf(old(tree)@),
        pages@.len() > 0,
    ensures
        tree_wf(final(tree)@),
        forall|c: Seq<char>|
            #[trigger] pages_of(final(tree)@, c) == if c == key@ {
                views(pages@)
            } else {
                pages_of(old(tree)@, c)
            },
{
    let ghost old_t = tree@;
    let ghost k = key@;
    let ghost pv = views(pages@);
    let idx = match find_key(tree, &key) {
        Some(idx) => {
            tree.set(idx, (key, pages));
            idx
        },
        None => {
            tree.push((key, pages));
            tree.len() - 1
        },
    };
    proof {
        let t = tree@;
        assert(t.len() >= old_t.len());
        assert forall|i: int| 0 <= i < old_t.len() && i != idx implies #[trigger] t[i] == old_t[i] by {}
        assert(keys_unique(t)) by {
            assert forall|i: int, j: int| 0 <= i < j < t.len() implies #[trigger] t[i].0@
                != #[trigger] t[j].0@ by {
                if j == idx {
                    assert(old_t[i].0@ != k || idx < old_t.len());
                    if idx < old_t.len() {
                        assert(old_t[i].0@ != old_t[j].0@);
                    }
                } else if i == idx {
                    assert(old_t[i].0@ != old_t[j].0@);
                } else {
                    assert(old_t[i].0@ != old_t[j].0@);
                }
            }
        }
        lemma_pages_of_at(t, idx as int);
        assert forall|c: Seq<char>| c != k implies #[trigger] pages_of(t, c) == pages_of(old_t, c) by {
            if has_key(old_t, c) {
                let i = choose|i: int| 0 <= i < old_t.len() && #[trigger] old_t[i].0@ == c;
                lemma_pages_of_at(old_t, i);
                lemma_pages_of_at(t, i);
            } else if has_key(t, c) {
                let i = choose|i: int| 0 <= i < t.len() && #[trigger] t[i].0@ == c;
                assert(old_t[i].0@ == c);
            }
        }
    }
}

proof fn lemma_decimal_len(n: nat)
    ensures
        decimal(n).len() >= 1,
        n < 10 ==> decimal(n).len() == 1,
        n >= 10 ==> decimal(n).len() >= 2,
    decreases n,
{
    reveal_digits();
    if n >= 10 {
        lemma_decimal_len(n / 10);
    }
}

proof fn reveal_digits()
    ensures
        forall|d: nat| d < 10 ==> (#[trigger] digit(d)).len() == 1,
        forall|a: nat, b: nat| a < 10 && b < 10 && #[trigger] digit(a)[0] == #[trigger] digit(b)[0] ==> a == b,
{
    reveal_strlit("0");
    reveal_strlit("1");
    reveal_strlit("2");
    reveal_strlit("3");
    reveal_strlit("4");
    reveal_strlit("5");
    reveal_strlit("6");
    reveal_strlit("7");
    reveal_strlit("8");
    reveal_strlit("9");
}

/// Different numbers have different decimal notations.
proof fn lemma_decimal_injective(a: nat, b: nat)
    requires
        decimal(a) == decimal(b),
    ensures
        a == b,
    decreases a,
{
    reveal_digits();
    lemma_decimal_len(a);
    lemma_decimal_len(b);
    if a < 10 {
        assert(digit(a)[0] == digit(b)[0]);
    } else {
        let (pa, pb) = (decimal(a / 10), decimal(b / 10));
        lemma_decimal_len(a / 10);
        lemma_decimal_len(b / 10);
        assert(decimal(a).len() == pa.len() + 1);
        assert(pa =~= decimal(a).subrange(0, pa.len() as int));
        assert(pb =~= decimal(b).subrange(0, pb.len() as int));
        assert(digit(a % 10)[0] == decimal(a).last());
        assert(digit(b % 10)[0] == decimal(b).last());
        lemma_decimal_injective(a / 10, b / 10);
    }
}

proof fn lemma_bucket_names_differ(a: nat, b: nat)
    requires
        a != b,
    ensures
        bucket_name(a) != bucket_name(b),
{
    let p = UNCATEGORIZED_KEY@ + " #"@;
    if bucket_name(a) == bucket_name(b) {
        assert(decimal(a) =~= bucket_name(a).subrange(p.len() as int, bucket_name(a).len() as int));
        assert(decimal(b) =~= bucket_name(b).subrange(p.len() as int, bucket_name(b).len() as int));
        lemma_decimal_injective(a, b);
    }
}

fn make_bucket_name(n: usize) -> (r: String)
    ensures
        r@ == bucket_name(n as nat),
{
    let mut r = String::from_str(UNCATEGORIZED_KEY);
    r.append(" #");
    let digits = decimal_string(n);
    r.append(digits.as_str());
    r
}

proof fn lemma_pages_in_step(pages: Seq<PageEntry>, i: int, c: Seq<char>)
    requires
        0 <= i < pages.len(),
    ensures
        pages_in(pages.take(i + 1), c) == pages_in(pages.take(i), c) + Seq::new(
            occurrences(pages[i].1@, c),
            |k: int| pages[i].0@,
        ),
        uncategorized(pages.take(i + 1)) == if pages[i].1@.len() == 0 {
            uncategorized(pages.take(i)).push(pages[i].0@)
        } else {
            uncategorized(pages.take(i))
        },
{
    assert(pages.take(i + 1).drop_last() =~= pages.take(i));
}

proof fn lemma_occurrences_step(cats: Seq<String>, j: int, c: Seq<char>)
    requires
        0 <= j < cats.len(),
    ensures
        occurrences(cats.take(j + 1), c) == occurrences(cats.take(j), c) + if cats[j]@ == c {
            1nat
        } else {
            0nat
        },
{
    assert(cats.take(j + 1).drop_last() =~= cats.take(j));
}

/// The buckets of `sorted` hold every title exactly once: bucket `m` is the
/// slice that starts at title `500 * (m - 1)`, title `i` is at place
/// `i % 500` of bucket `i / 500 + 1`, every bucket but the last holds 500
/// titles and the last the rest.
pub proof fn lemma_buckets_partition(sorted: Seq<Seq<char>>)
    ensures
        forall|i: int|
            0 <= i < sorted.len() ==> 1 <= i / 500 + 1 <= bucket_count(sorted.len()) && i % 500
                < bucket(sorted, (i / 500 + 1) as nat).len() && bucket(
                sorted,
                (i / 500 + 1) as nat,
            )[i % 500] == #[trigger] sorted[i],
        forall|m: nat, j: int|
            1 <= m <= bucket_count(sorted.len()) && 0 <= j < bucket(sorted, m).len() ==> #[trigger] bucket(
                sorted,
                m,
            )[j] == sorted[500 * (m - 1) + j],
        forall|m: nat|
            1 <= m < bucket_count(sorted.len()) ==> #[trigger] bucket(sorted, m).len() == 500,
        bucket_count(sorted.len()) >= 1 ==> bucket(sorted, bucket_count(sorted.len())).len()
            == sorted.len() - 500 * (bucket_count(sorted.len()) - 1),
{
    let k = sorted.len();
    let c = bucket_count(k);
    assert forall|i: int| 0 <= i < k implies 1 <= i / 500 + 1 <= bucket_count(sorted.len()) && i
        % 500 < bucket(sorted, (i / 500 + 1) as nat).len() && bucket(
        sorted,
        (i / 500 + 1) as nat,
    )[i % 500] == #[trigger] sorted[i] by {
        let n = (i / 500 + 1) as nat;
        assert(500 * (n - 1) <= i < 500 * n) by (nonlinear_arith)
            requires
                n == i / 500 + 1,
                0 <= i,
        {
        }
        assert(n <= c) by (nonlinear_arith)
            requires
                n == i / 500 + 1,
                0 <= i < k,
                c == (k + 499) / 500,
        {
        }
        assert(i % 500 == i - 500 * (n - 1)) by (nonlinear_arith)
            requires
                n == i / 500 + 1,
                0 <= i,
        {
        }
    }
    assert forall|m: nat| 1 <= m < c implies #[trigger] bucket(sorted, m).len() == 500 by {
        assert(500 * m < k) by (nonlinear_arith)
            requires
                1 <= m < c,
                c == (k + 499) / 500,
        {
        }
    }
    if c >= 1 {
        assert(500 * (c - 1) < k && k <= 500 * c) by (nonlinear_arith)
            requires
                c >= 1,
                c == (k + 499) / 500,
        {
        }
    }
}

/// Every uncategorized page lands in exactly one bucket: when the titles of
/// the pages without a category are distinct and `sorted` is their sorted
/// order (as `flip_page_tree` states of its buckets), each of them is in
/// exactly one of the buckets, and the buckets hold no other title.
pub proof fn lemma_uncategorized_in_one_bucket(pages: Seq<PageEntry>, sorted: Seq<Seq<char>>)
    requires
        uncategorized(pages).no_duplicates(),
        sorted.to_multiset() == uncategorized(pages).to_multiset(),
    ensures
        forall|t: Seq<char>|
            #[trigger] uncategorized(pages).contains(t) ==> exists|n: nat|
                1 <= n <= bucket_count(sorted.len()) && #[trigger] bucket(sorted, n).contains(t)
                    && forall|m: nat|
                    1 <= m <= bucket_count(sorted.len()) && m != n ==> !#[trigger] bucket(
                        sorted,
                        m,
                    ).contains(t),
        forall|n: nat, t: Seq<char>|
            1 <= n <= bucket_count(sorted.len()) && #[trigger] bucket(sorted, n).contains(t)
                ==> uncategorized(pages).contains(t),
{
    let u = uncategorized(pages);
    let c = bucket_count(sorted.len());
    u.lemma_multiset_has_no_duplicates();
    sorted.lemma_multiset_has_no_duplicates_conv();
    lemma_buckets_partition(sorted);
    assert forall|t: Seq<char>| #[trigger] u.contains(t) implies exists|n: nat|
        1 <= n <= c && #[trigger] bucket(sorted, n).contains(t) && forall|m: nat|
            1 <= m <= c && m != n ==> !#[trigger] bucket(sorted, m).contains(t) by {
        assert(u.to_multiset().count(t) > 0);
        assert(sorted.contains(t));
        let i = choose|i: int| 0 <= i < sorted.len() && sorted[i] == t;
        let n = (i / 500 + 1) as nat;
        assert(bucket(sorted, n)[i % 500] == sorted[i]);
        assert(bucket(sorted, n).contains(t));
        assert forall|m: nat| 1 <= m <= c && m != n implies !#[trigger] bucket(sorted, m).contains(t) by {
            if bucket(sorted, m).contains(t) {
                let j = choose|j: int| 0 <= j < bucket(sorted, m).len() && bucket(sorted, m)[j] == t;
                assert(bucket(sorted, m)[j] == sorted[500 * (m - 1) + j]);
                assert(bucket(sorted, m).len() <= 500);
                assert(500 * (m - 1) + j == i);
                assert(i / 500 + 1 == m) by (nonlinear_arith)
                    requires
                        500 * (m - 1) + j == i,
                        0 <= j < 500,
                        m >= 1,
                {
                }
            }
        }
    }
    assert forall|n: nat, t: Seq<char>|
        1 <= n <= c && #[trigger] bucket(sorted, n).contains(t) implies u.contains(t) by {
        let j = choose|j: int| 0 <= j < bucket(sorted, n).len() && bucket(sorted, n)[j] == t;
        assert(bucket(sorted, n)[j] == sorted[500 * (n - 1) + j]);
        assert(sorted.contains(t));
        assert(sorted.to_multiset().count(t) > 0);
    }
}

/// Turns the categories of each page into the pages of each category.
///
/// A page is filed under every category it names, in the order of the input.
/// The pages that name no category are sorted and put, 500 at a time, in
/// buckets named `Uncategorized #1`, `Uncategorized #2`, ...; a bucket takes
/// the place of a category of the same name.
pub fn flip_page_tree(page_to_category_map: Vec<PageEntry>) -> (tree: Vec<CategoryEntry>)
    ensures
        tree_wf(tree@),
        exists|sorted: Seq<Seq<char>>|
            #![trigger seqs_sorted(sorted)]
            sorted.to_multiset() == uncategorized(page_to_category_map@).to_multiset()
                && seqs_sorted(sorted) && forall|n: nat|
                1 <= n <= bucket_count(sorted.len()) ==> pages_of(tree@, #[trigger] bucket_name(n))
                    == bucket(sorted, n),
        forall|c: Seq<char>|
            !is_bucket(c, bucket_count(uncategorized(page_to_category_map@).len()))
                ==> #[trigger] pages_of(tree@, c) == pages_in(page_to_category_map@, c),
        forall|c: Seq<char>|
            #[trigger] has_key(tree@, c) <==> (pages_in(page_to_category_map@, c).len() > 0
                || is_bucket(c, bucket_count(uncategorized(page_to_category_map@).len()))),
{
    let ghost input = page_to_category_map@;
    let mut tree: Vec<CategoryEntry> = Vec::new();
    let mut uncategorized_pages: Vec<String> = Vec::new();
    let mut i: usize = 0;
    while i < page_to_category_map.len()
        invariant
            i <= input.len(),
            input == page_to_category_map@,
            tree_wf(tree@),
            forall|c: Seq<char>| #[trigger] pages_of(tree@, c) == pages_in(input.take(i as int), c),
            views(uncategorized_pages@) == uncategorized(input.take(i as int)),
        decreases input.len() - i,
    {
        let page = &page_to_category_map[i].0;
        let cats = &page_to_category_map[i].1;
        proof {
            lemma_pages_in_step(input, i as int, Seq::empty());
        }
        if cats.len() == 0 {
            uncategorized_pages.push(page.clone());
            proof {
                assert(views(uncategorized_pages@) =~= uncategorized(input.take(i as int)).push(page@));
                assert forall|c: Seq<char>| #[trigger] pages_of(tree@, c) == pages_in(input.take(i + 1), c) by {
                    lemma_pages_in_step(input, i as int, c);
                    assert(occurrences(cats@, c) == 0);
                    assert(pages_in(input.take(i as int), c) + Seq::new(0, |k: int| page@) =~= pages_in(input.take(i as int), c));
                }
            }
        } else {
            let mut j: usize = 0;
            while j < cats.len()
                invariant
                    j <= cats@.len(),
                    i < input.len(),
                    *cats == input[i as int].1,
                    *page == input[i as int].0,
                    tree_wf(tree@),
                    forall|c: Seq<char>|
                        #[trigger] pages_of(tree@, c) == pages_in(input.take(i as int), c) + Seq::new(
                            occurrences(cats@.take(j as int), c),
                            |k: int| page@,
                        ),
                decreases cats@.len() - j,
            {
                let ghost before = tree@;
                add_page(&mut tree, &cats[j], page);
                proof {
                    assert forall|c: Seq<char>| #[trigger] pages_of(tree@, c) == pages_in(input.take(i as int), c) + Seq::new(
                            occurrences(cats@.take(j + 1), c),
                            |k: int| page@,
                        ) by {
                        lemma_occurrences_step(cats@, j as int, c);
                        let base = pages_in(input.take(i as int), c);
                        let m = occurrences(cats@.take(j as int), c);
                        if cats@[j as int]@ == c {
                            assert(base + Seq::new(m + 1, |k: int| page@) =~= (base + Seq::new(m, |k: int| page@)).push(page@));
                        }
                    }
                }
                j = j + 1;
            }
            proof {
                assert(cats@.take(cats@.len() as int) =~= cats@);
                assert(views(uncategorized_pages@) == uncategorized(input.take(i + 1)));
                assert forall|c: Seq<char>| #[trigger] pages_of(tree@, c) == pages_in(input.take(i + 1), c) by {
                    lemma_pages_in_step(input, i as int, c);
                }
            }
        }
        i = i + 1;
    }
    proof {
        assert(input.take(input.len() as int) =~= input);
    }
    let ghost unc = uncategorized(input);
    let ghost flipped = tree@;
    assert(views(uncategorized_pages@) == unc);

    let sorted = sort_strings(uncategorized_pages);
    let ghost sv = views(sorted@);
    let total = sorted.len();
    let mut start: usize = 0;
    let mut n: usize = 1;
    while start < total
        invariant
            total == sorted@.len(),
            sv == views(sorted@),
            n >= 1,
            start == if 500 * (n - 1) < total { 500 * (n - 1) } else { total as int },
            500 * (n - 1) < total + 500,
            tree_wf(tree@),
            forall|c: Seq<char>|
                !is_bucket(c, (n - 1) as nat) ==> #[trigger] pages_of(tree@, c) == pages_of(flipped, c),
            forall|m: nat| 1 <= m < n ==> pages_of(tree@, #[trigger] bucket_name(m)) == bucket(sv, m),
        decreases total - start,
    {
        let end = if total - start > BUCKET_SIZE {
            start + BUCKET_SIZE
        } else {
            total
        };
        let mut pages: Vec<String> = Vec::new();
        let mut k: usize = start;
        while k < end
            invariant
                start <= k <= end <= total,
                total == sorted@.len(),
                sv == views(sorted@),
                views(pages@) == sv.subrange(start as int, k as int),
            decreases end - k,
        {
            let ghost before = pages@;
            pages.push(sorted[k].clone());
            assert(views(pages@) =~= views(before).push(sv[k as int]));
            assert(views(pages@) =~= sv.subrange(start as int, k + 1));
            k = k + 1;
        }
        let key = make_bucket_name(n);
        let ghost before = tree@;
        set_entry(&mut tree, key, pages);
        proof {
            assert(500 * (n - 1) < total);
            assert(bucket(sv, n as nat) =~= sv.subrange(start as int, end as int));
            assert forall|c: Seq<char>| !is_bucket(c, n as nat) implies #[trigger] pages_of(tree@, c) == pages_of(flipped, c) by {
                if is_bucket(c, (n - 1) as nat) {
                    let m = choose|m: nat| 1 <= m <= (n - 1) as nat && c == #[trigger] bucket_name(m);
                    assert(is_bucket(c, n as nat));
                }
            }
            assert forall|m: nat| 1 <= m < n + 1 implies pages_of(tree@, #[trigger] bucket_name(m)) == bucket(sv, m) by {
                if m < n {
                    lemma_bucket_names_differ(m, n as nat);
                }
            }
        }
        start = end;
        n = n + 1;
    }
    proof {
        let count = (n - 1) as nat;
        assert(total <= 500 * count);
        assert(count == bucket_count(total as nat)) by (nonlinear_arith)
            requires
                total <= 500 * count,
                500 * count < total + 500,
        {
        }
        assert(sv.to_multiset() == unc.to_multiset());
        assert(sv.to_multiset().len() == unc.to_multiset().len());
        assert(sv.len() == unc.len());
        assert(seqs_sorted(sv));
        assert forall|c: Seq<char>| #[trigger] has_key(tree@, c) <==> (pages_in(input, c).len() > 0
                || is_bucket(c, count)) by {
            lemma_has_key_iff(tree@, c);
            lemma_has_key_iff(flipped, c);
            if is_bucket(c, count) {
                let m = choose|m: nat| 1 <= m <= count && c == #[trigger] bucket_name(m);
                assert(500 * (m - 1) < total) by (nonlinear_arith)
                    requires
                        1 <= m <= count,
                        500 * count < total + 500,
                {
                }
                assert(bucket(sv, m).len() > 0);
            }
        }
    }
    tree
}

} // verus!

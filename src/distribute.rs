use crate::text::str_le;
use itertools::Itertools;
use vstd::multiset::Multiset;
use vstd::prelude::*;

verus! {

broadcast use vstd::seq_lib::group_to_multiset_ensures;

/// A category and the titles of its pages.
pub type CategoryEntry = (String, Vec<String>);

/// Number of pages in one category.
pub open spec fn page_count(e: CategoryEntry) -> int {
    e.1@.len() as int
}

/// Number of pages over a sequence of categories.
pub open spec fn total_pages(s: Seq<CategoryEntry>) -> int
    decreases s.len(),
{
    if s.len() == 0 {
        0
    } else {
        total_pages(s.drop_last()) + page_count(s.last())
    }
}

/// Size of the largest category of `s` (0 when there is none).
pub open spec fn largest_category(s: Seq<CategoryEntry>) -> int
    decreases s.len(),
{
    if s.len() == 0 {
        0
    } else {
        let m = largest_category(s.drop_last());
        if page_count(s.last()) > m {
            page_count(s.last())
        } else {
            m
        }
    }
}

/// Categories ordered by name.
pub open spec fn sorted_by_name(s: Seq<CategoryEntry>) -> bool {
    forall|i: int, j: int| 0 <= i < j < s.len() ==> str_le(#[trigger] s[i].0@, #[trigger] s[j].0@)
}

/// The chunks as sequences.
pub open spec fn chunks_view(c: Seq<Vec<CategoryEntry>>) -> Seq<Seq<CategoryEntry>> {
    c.map_values(|v: Vec<CategoryEntry>| v@)
}

/// Page total of each chunk.
pub open spec fn chunk_totals(c: Seq<Seq<CategoryEntry>>) -> Seq<int> {
    c.map_values(|s: Seq<CategoryEntry>| total_pages(s))
}

/// Every category held by some chunk, counted once per occurrence.
pub open spec fn all_entries(c: Seq<Seq<CategoryEntry>>) -> Multiset<CategoryEntry>
    decreases c.len(),
{
    if c.len() == 0 {
        Multiset::empty()
    } else {
        all_entries(c.drop_last()).add(c.last().to_multiset())
    }
}

/// Sum of the chunks' page totals.
pub open spec fn sum_of_totals(c: Seq<Seq<CategoryEntry>>) -> int
    decreases c.len(),
{
    if c.len() == 0 {
        0
    } else {
        sum_of_totals(c.drop_last()) + total_pages(c.last())
    }
}

/// `k` is the lowest index among the smallest values of `t`.
pub open spec fn is_first_min(t: Seq<int>, k: int) -> bool {
    &&& 0 <= k < t.len()
    &&& forall|j: int| 0 <= j < t.len() ==> t[k] <= #[trigger] t[j]
    &&& forall|j: int| 0 <= j < k ==> t[k] < #[trigger] t[j]
}

/// The chunk that receives the next category: the one with the smallest page
/// total, the lowest index among equals.
pub open spec fn lightest(c: Seq<Seq<CategoryEntry>>) -> int {
    choose|k: int| is_first_min(chunk_totals(c), k)
}

/// Greedy distribution of `s`, in order, over `n` chunks: each category goes
/// to the lightest chunk at the time it is placed.
pub open spec fn greedy(s: Seq<CategoryEntry>, n: nat) -> Seq<Seq<CategoryEntry>>
    decreases s.len(),
{
    if s.len() == 0 {
        Seq::new(n, |i: int| Seq::<CategoryEntry>::empty())
    } else {
        let g = greedy(s.drop_last(), n);
        let k = lightest(g);
        g.update(k, g[k].push(s.last()))
    }
}

/// Relies on itertools' `sorted_by`: the same categories, ordered by name.
#[verifier::external_body]
fn sort_by_name(v: Vec<CategoryEntry>) -> (r: Vec<CategoryEntry>)
    ensures
        r@.to_multiset() == v@.to_multiset(),
        sorted_by_name(r@),
{
    v.into_iter().sorted_by(|a, b| a.0.cmp(&b.0)).collect()
}

pub proof fn lemma_total_nonneg(s: Seq<CategoryEntry>)
    ensures
        total_pages(s) >= 0,
    decreases s.len(),
{
    if s.len() > 0 {
        lemma_total_nonneg(s.drop_last());
    }
}

proof fn lemma_total_remove(t: Seq<CategoryEntry>, idx: int)
    requires
        0 <= idx < t.len(),
    ensures
        total_pages(t) == total_pages(t.remove(idx)) + page_count(t[idx]),
    decreases t.len(),
{
    if idx == t.len() - 1 {
        assert(t.remove(idx) =~= t.drop_last());
    } else {
        lemma_total_remove(t.drop_last(), idx);
        assert(t.remove(idx).drop_last() =~= t.drop_last().remove(idx));
        assert(t.remove(idx).last() == t.last());
    }
}

/// Reordering categories keeps their page total.
proof fn lemma_total_permutation(s: Seq<CategoryEntry>, t: Seq<CategoryEntry>)
    requires
        s.to_multiset() == t.to_multiset(),
    ensures
        total_pages(s) == total_pages(t),
    decreases s.len(),
{
    if s.len() == 0 {
        assert(t.to_multiset().len() == 0);
    } else {
        let e = s.last();
        assert(s =~= s.drop_last().push(e));
        assert(s.to_multiset().count(e) > 0);
        assert(t.contains(e));
        let idx = choose|i: int| 0 <= i < t.len() && t[i] == e;
        let t2 = t.remove(idx);
        lemma_total_remove(t, idx);
        assert(s.drop_last().to_multiset() =~= s.to_multiset().remove(e));
        assert(t2.to_multiset() =~= t.to_multiset().remove(e));
        lemma_total_permutation(s.drop_last(), t2);
    }
}

proof fn lemma_largest_bounds(s: Seq<CategoryEntry>, i: int)
    requires
        0 <= i < s.len(),
    ensures
        page_count(s[i]) <= largest_category(s),
    decreases s.len(),
{
    if i < s.len() - 1 {
        lemma_largest_bounds(s.drop_last(), i);
    }
}

proof fn lemma_chunks_update(c: Seq<Seq<CategoryEntry>>, k: int, e: CategoryEntry)
    requires
        0 <= k < c.len(),
    ensures
        all_entries(c.update(k, c[k].push(e))) == all_entries(c).insert(e),
        sum_of_totals(c.update(k, c[k].push(e))) == sum_of_totals(c) + page_count(e),
    decreases c.len(),
{
    let c2 = c.update(k, c[k].push(e));
    assert(c[k].push(e).drop_last() =~= c[k]);
    if k == c.len() - 1 {
        assert(c2.drop_last() =~= c.drop_last());
        assert(all_entries(c2) =~= all_entries(c).insert(e));
    } else {
        lemma_chunks_update(c.drop_last(), k, e);
        assert(c2.drop_last() =~= c.drop_last().update(k, c[k].push(e)));
        assert(all_entries(c2) =~= all_entries(c).insert(e));
    }
}

proof fn lemma_empty_chunks(n: nat)
    ensures
        all_entries(Seq::new(n, |i: int| Seq::<CategoryEntry>::empty())) =~= Multiset::empty(),
        sum_of_totals(Seq::new(n, |i: int| Seq::<CategoryEntry>::empty())) == 0,
    decreases n,
{
    let c = Seq::new(n, |i: int| Seq::<CategoryEntry>::empty());
    if n > 0 {
        lemma_empty_chunks((n - 1) as nat);
        assert(c.drop_last() =~= Seq::new((n - 1) as nat, |i: int| Seq::<CategoryEntry>::empty()));
        assert(c.last().to_multiset() =~= Multiset::empty());
    }
}

/// Splits the categories into `chunk_count` chunks with close page totals.
///
/// The categories are taken in name order and each goes to the chunk with the
/// smallest page total so far, the lowest index among equals.
pub fn chunk_wiki_with_even_page_distribution(
    wiki_tree: Vec<CategoryEntry>,
    chunk_count: usize,
) -> (chunks: Vec<Vec<CategoryEntry>>)
    requires
        chunk_count >= 1,
    ensures
        chunks@.len() == chunk_count,
        exists|s: Seq<CategoryEntry>|
            s.to_multiset() == wiki_tree@.to_multiset() && sorted_by_name(s)
                && chunks_view(chunks@) == greedy(s, chunk_count as nat),
        all_entries(chunks_view(chunks@)) == wiki_tree@.to_multiset(),
        sum_of_totals(chunks_view(chunks@)) == total_pages(wiki_tree@),
        forall|i: int, j: int|
            0 <= i < chunk_count && 0 <= j < chunk_count ==> total_pages(#[trigger] chunks@[i]@)
                <= total_pages(#[trigger] chunks@[j]@) + largest_category(wiki_tree@),
{
    let mut rest = sort_by_name(wiki_tree);
    let ghost s = rest@;
    let category_count = rest.len();
    let ghost n = chunk_count as nat;
    let ghost big = largest_category(wiki_tree@);
    proof {
        lemma_total_permutation(s, wiki_tree@);
        assert forall|x: int| 0 <= x < s.len() implies page_count(s[x]) <= big by {
            assert(s.to_multiset().count(s[x]) > 0);
            assert(wiki_tree@.contains(s[x]));
            let y = choose|y: int| 0 <= y < wiki_tree@.len() && wiki_tree@[y] == s[x];
            lemma_largest_bounds(wiki_tree@, y);
        }
    }

    let mut chunks: Vec<Vec<CategoryEntry>> = Vec::new();
    let mut totals: Vec<u128> = Vec::new();
    let mut c: usize = 0;
    while c < chunk_count
        invariant
            c <= chunk_count,
            chunks@.len() == c,
            totals@.len() == c,
            forall|j: int| 0 <= j < c ==> (#[trigger] chunks@[j])@ == Seq::<CategoryEntry>::empty(),
            forall|j: int| 0 <= j < c ==> #[trigger] totals@[j] == 0,
        decreases chunk_count - c,
    {
        chunks.push(Vec::new());
        totals.push(0);
        c = c + 1;
    }
    proof {
        assert(chunks_view(chunks@) =~= greedy(s.take(0), n));
        lemma_empty_chunks(n);
    }

    let mut placed: usize = 0;
    while rest.len() > 0
        invariant
            placed <= s.len(),
            n == chunk_count,
            chunk_count >= 1,
            s.len() == category_count,
            rest@ == s.skip(placed as int),
            chunks@.len() == n,
            totals@.len() == n,
            chunks_view(chunks@) == greedy(s.take(placed as int), n),
            forall|j: int| 0 <= j < n ==> #[trigger] totals@[j] == total_pages(chunks@[j]@),
            all_entries(chunks_view(chunks@)) == s.take(placed as int).to_multiset(),
            sum_of_totals(chunks_view(chunks@)) == total_pages(s.take(placed as int)),
            total_pages(s.take(placed as int)) <= placed * (usize::MAX as int),
            forall|x: int| 0 <= x < s.len() ==> page_count(#[trigger] s[x]) <= big,
            forall|i: int, j: int|
                0 <= i < n && 0 <= j < n ==> #[trigger] totals@[i] <= #[trigger] totals@[j] + big,
        decreases rest.len(),
    {
        let ghost before = chunks_view(chunks@);
        // find the lightest chunk
        let mut k: usize = 0;
        let mut j: usize = 1;
        while j < chunk_count
            invariant
                totals@.len() == n,
                n == chunk_count,
                1 <= j <= chunk_count,
                k < j,
                forall|x: int| 0 <= x < j ==> totals@[k as int] <= #[trigger] totals@[x],
                forall|x: int| 0 <= x < k ==> totals@[k as int] < #[trigger] totals@[x],
            decreases chunk_count - j,
        {
            if totals[j] < totals[k] {
                k = j;
            }
            j = j + 1;
        }
        proof {
            let t = chunk_totals(before);
            assert forall|x: int| 0 <= x < n implies t[x] == totals@[x] by {}
            assert(is_first_min(t, k as int));
            assert forall|k2: int| is_first_min(t, k2) implies k2 == k by {
                if k2 < k {
                    assert(t[k as int] < t[k2]);
                    assert(t[k2] <= t[k as int]);
                } else if k2 > k {
                    assert(t[k2] < t[k as int]);
                    assert(t[k as int] <= t[k2]);
                }
            }
            assert(lightest(before) == k);
        }

        let entry = rest.remove(0);
        let size = entry.1.len();
        proof {
            assert(entry == s[placed as int]);
            assert(s.take(placed as int + 1).drop_last() =~= s.take(placed as int));
            assert(s.take(placed as int + 1) =~= s.take(placed as int).push(entry));
            lemma_total_nonneg(s.take(placed as int));
            lemma_total_nonneg(chunks@[k as int]@);
            assert(totals@[k as int] <= total_pages(s.take(placed as int))) by {
                lemma_chunk_total_le_sum(before, k as int);
            }
            let m = usize::MAX as int;
            let p = placed as int;
            assert(m <= u64::MAX);
            assert(p + 1 <= m);
            assert((p + 1) * m <= m * m) by (nonlinear_arith)
                requires
                    0 <= p + 1 <= m,
            {
            }
            assert(m * m <= u128::MAX) by (nonlinear_arith)
                requires
                    0 <= m <= u64::MAX,
            {
            }
            assert(p * m + m == (p + 1) * m) by (nonlinear_arith);
            assert(totals@[k as int] + size <= (p + 1) * m);
        }
        let mut chunk = chunks.remove(k);
        chunk.push(entry);
        chunks.insert(k, chunk);
        let new_total = totals[k] + size as u128;
        totals.set(k, new_total);
        proof {
            lemma_chunks_update(before, k as int, entry);
            assert(chunks_view(chunks@) =~= before.update(k as int, before[k as int].push(entry)));
            assert(rest@ =~= s.skip(placed as int + 1));
            assert(chunks@[k as int]@.drop_last() =~= before[k as int]);
        }
        placed = placed + 1;
    }
    proof {
        assert(s.take(s.len() as int) =~= s);
        assert(placed == s.len());
        assert forall|i: int, j: int| 0 <= i < chunk_count && 0 <= j < chunk_count implies
            total_pages(#[trigger] chunks@[i]@) <= total_pages(#[trigger] chunks@[j]@) + big by {
            assert(totals@[i] == total_pages(chunks@[i]@));
            assert(totals@[j] == total_pages(chunks@[j]@));
            assert(totals@[i] <= totals@[j] + big);
        }
    }
    chunks
}

pub proof fn lemma_total_split(a: Seq<CategoryEntry>, b: Seq<CategoryEntry>)
    ensures
        total_pages(a + b) == total_pages(a) + total_pages(b),
    decreases b.len(),
{
    if b.len() == 0 {
        assert(a + b =~= a);
    } else {
        lemma_total_split(a, b.drop_last());
        assert((a + b).drop_last() =~= a + b.drop_last());
    }
}

proof fn lemma_chunk_total_le_sum(c: Seq<Seq<CategoryEntry>>, k: int)
    requires
        0 <= k < c.len(),
    ensures
        total_pages(c[k]) <= sum_of_totals(c),
    decreases c.len(),
{
    if k < c.len() - 1 {
        lemma_chunk_total_le_sum(c.drop_last(), k);
    }
    lemma_sum_nonneg(c.drop_last());
    lemma_total_nonneg(c.last());
}

proof fn lemma_sum_nonneg(c: Seq<Seq<CategoryEntry>>)
    ensures
        sum_of_totals(c) >= 0,
    decreases c.len(),
{
    if c.len() > 0 {
        lemma_sum_nonneg(c.drop_last());
        lemma_total_nonneg(c.last());
    }
}

} // verus!

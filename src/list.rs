use crate::args::ListPagesPlainArgs;
use crate::distribute::{sorted_by_name, CategoryEntry};
use crate::text::{join_strings, joined, seqs_sorted, sorted_unique, views};
use crate::tree::UNCATEGORIZED_KEY;
use itertools::Itertools;
use vstd::prelude::*;

verus! {

broadcast use vstd::seq_lib::group_to_multiset_ensures;

/// The category is kept by the filter: any category when there is none,
/// else one the filter names.
pub open spec fn included(name: Seq<char>, filter: Option<Seq<String>>) -> bool {
    match filter {
        None => true,
        Some(f) => views(f).contains(name),
    }
}

/// The pages of the kept categories, one category after the other.
pub open spec fn flat_pages(s: Seq<CategoryEntry>, filter: Option<Seq<String>>) -> Seq<Seq<char>>
    decreases s.len(),
{
    if s.len() == 0 {
        Seq::empty()
    } else {
        flat_pages(s.drop_last(), filter) + if included(s.last().0@, filter) {
            views(s.last().1@)
        } else {
            Seq::empty()
        }
    }
}

/// The kept categories.
pub open spec fn kept(s: Seq<CategoryEntry>, filter: Option<Seq<String>>) -> Seq<CategoryEntry> {
    s.filter(|e: CategoryEntry| included(e.0@, filter))
}

/// A category as a block: its name and a colon, then one line per page.
pub open spec fn category_block(e: CategoryEntry) -> Seq<char> {
    e.0@ + ":\n"@ + joined(e.1@.map_values(|p: String| "───┤"@ + p@), "\n"@)
}

/// `r` lists the categories or pages of `tree` that the filter keeps:
/// flattened, each distinct title once in ascending order, one per line;
/// otherwise the category blocks in name order, separated by blank lines.
pub open spec fn listed(
    tree: Seq<CategoryEntry>,
    filter: Option<Seq<String>>,
    flatten: bool,
    r: Seq<char>,
) -> bool {
    if flatten {
        exists|u: Seq<Seq<char>>|
            #![trigger seqs_sorted(u)]
            seqs_sorted(u) && u.no_duplicates() && u.to_set() == flat_pages(tree, filter).to_set()
                && r == joined(u, "\n"@)
    } else {
        exists|s: Seq<CategoryEntry>|
            #![trigger sorted_by_name(s)]
            s.to_multiset() == kept(tree, filter).to_multiset() && sorted_by_name(s) && r
                == joined(s.map_values(|e: CategoryEntry| category_block(e)), "\n\n"@)
    }
}

fn filter_keeps(filter: Option<&Vec<String>>, name: &String) -> (r: bool)
    ensures
        r == included(name@, match filter {
            Some(f) => Some(f@),
            None => None,
        }),
{
    match filter {
        None => true,
        Some(f) => {
            let mut j: usize = 0;
            while j < f.len()
                invariant
                    filter == Some(f),
                    j <= f@.len(),
                    forall|k: int| 0 <= k < j ==> #[trigger] views(f@)[k] != name@,
                decreases f@.len() - j,
            {
                if f[j] == *name {
                    assert(views(f@)[j as int] == name@);
                    return true;
                }
                j = j + 1;
            }
            false
        },
    }
}

fn category_block_string(e: &CategoryEntry) -> (r: String)
    ensures
        r@ == category_block(*e),
{
    let mut lines: Vec<String> = Vec::new();
    let mut i: usize = 0;
    while i < e.1.len()
        invariant
            i <= e.1@.len(),
            views(lines@) == e.1@.take(i as int).map_values(|p: String| "───┤"@ + p@),
        decreases e.1@.len() - i,
    {
        let mut line = String::from_str("───┤");
        line.append(e.1[i].as_str());
        let ghost before = lines@;
        lines.push(line);
        assert(views(lines@) =~= views(before).push("───┤"@ + e.1@[i as int]@));
        assert(e.1@.take(i + 1) =~= e.1@.take(i as int).push(e.1@[i as int]));
        i = i + 1;
    }
    assert(e.1@.take(e.1@.len() as int) =~= e.1@);
    let mut r = e.0.clone();
    r.append(":\n");
    r.append(join_strings(&lines, "\n").as_str());
    r
}

/// Lists the pages of a category tree, as a flat list or by category.
///
/// Flattened, each distinct title of the kept categories appears once, in
/// ascending order, one per line. Otherwise each kept category is a block
/// with its name and one `───┤`-prefixed line per page, the blocks in name
/// order and separated by blank lines.
pub fn list_pages(
    wiki_tree: &Vec<CategoryEntry>,
    categories_filter: Option<&Vec<String>>,
    flatten: bool,
) -> (r: String)
    ensures
        listed(
            wiki_tree@,
            match categories_filter {
                Some(f) => Some(f@),
                None => None,
            },
            flatten,
            r@,
        ),
{
    let ghost filter = match categories_filter {
        Some(f) => Some(f@),
        None => None,
    };
    let ghost t = wiki_tree@;
    if flatten {
        let mut all: Vec<String> = Vec::new();
        let mut i: usize = 0;
        while i < wiki_tree.len()
            invariant
                i <= t.len(),
                t == wiki_tree@,
                filter == match categories_filter {
                    Some(f) => Some(f@),
                    None => None,
                },
                views(all@) == flat_pages(t.take(i as int), filter),
            decreases t.len() - i,
        {
            let e = &wiki_tree[i];
            proof {
                assert(t.take(i + 1).drop_last() =~= t.take(i as int));
            }
            if filter_keeps(categories_filter, &e.0) {
                let mut k: usize = 0;
                while k < e.1.len()
                    invariant
                        k <= e.1@.len(),
                        views(all@) == flat_pages(t.take(i as int), filter) + views(e.1@.take(k as int)),
                    decreases e.1@.len() - k,
                {
                    let ghost before = all@;
                    all.push(e.1[k].clone());
                    assert(views(all@) =~= views(before).push(e.1@[k as int]@));
                    assert(e.1@.take(k + 1) =~= e.1@.take(k as int).push(e.1@[k as int]));
                    assert(views(e.1@.take(k + 1)) =~= views(e.1@.take(k as int)).push(e.1@[k as int]@));
                    k = k + 1;
                }
                assert(e.1@.take(e.1@.len() as int) =~= e.1@);
                assert(included(t[i as int].0@, filter));
            } else {
                assert(!included(t[i as int].0@, filter));
                assert(views(all@) =~= flat_pages(t.take(i + 1), filter));
            }
            i = i + 1;
        }
        assert(t.take(t.len() as int) =~= t);
        let u = sorted_unique(all);
        let r = join_strings(&u, "\n");
        assert(seqs_sorted(views(u@)));
        r
    } else {
        let mut chosen: Vec<&CategoryEntry> = Vec::new();
        let mut i: usize = 0;
        while i < wiki_tree.len()
            invariant
                i <= t.len(),
                t == wiki_tree@,
                filter == match categories_filter {
                    Some(f) => Some(f@),
                    None => None,
                },
                chosen@.map_values(|e: &CategoryEntry| *e) == kept(t.take(i as int), filter),
            decreases t.len() - i,
        {
            let e = &wiki_tree[i];
            proof {
                reveal(Seq::filter);
                assert(t.take(i + 1).drop_last() =~= t.take(i as int));
            }
            let ghost before = chosen@;
            if filter_keeps(categories_filter, &e.0) {
                chosen.push(e);
                assert(included(t[i as int].0@, filter));
                assert(chosen@.map_values(|e: &CategoryEntry| *e) =~= before.map_values(|e: &CategoryEntry| *e).push(*e));
            } else {
                assert(!included(t[i as int].0@, filter));
            }
            i = i + 1;
        }
        assert(t.take(t.len() as int) =~= t);
        let refs = sort_refs_by_name(chosen);
        let ghost sorted_view = refs@.map_values(|e: &CategoryEntry| *e);
        let sorted = &refs;
        let mut blocks: Vec<String> = Vec::new();
        let mut k: usize = 0;
        while k < sorted.len()
            invariant
                k <= sorted@.len(),
                sorted_view == sorted@.map_values(|e: &CategoryEntry| *e),
                views(blocks@) == sorted_view.take(k as int).map_values(
                    |e: CategoryEntry| category_block(e),
                ),
            decreases sorted@.len() - k,
        {
            let ghost before = blocks@;
            blocks.push(category_block_string(sorted[k]));
            assert(views(blocks@) =~= views(before).push(category_block(sorted_view[k as int])));
            assert(sorted_view.take(k + 1) =~= sorted_view.take(k as int).push(sorted_view[k as int]));
            k = k + 1;
        }
        assert(sorted_view.take(sorted_view.len() as int) =~= sorted_view);
        let r = join_strings(&blocks, "\n\n");
        assert(sorted_by_name(sorted_view));
        r
    }
}

/// Relies on itertools' `sorted_by`: the same categories, ordered by name.
#[verifier::external_body]
fn sort_refs_by_name<'a>(v: Vec<&'a CategoryEntry>) -> (r: Vec<&'a CategoryEntry>)
    ensures
        r@.map_values(|e: &CategoryEntry| *e).to_multiset() == v@.map_values(
            |e: &CategoryEntry| *e,
        ).to_multiset(),
        sorted_by_name(r@.map_values(|e: &CategoryEntry| *e)),
{
    v.into_iter().sorted_by(|a, b| a.0.cmp(&b.0)).collect()
}

/// Lists the pages as `list_pages` does; an empty category list keeps
/// every category.
pub fn fmt_page_tree(wiki_tree: &Vec<CategoryEntry>, args: &ListPagesPlainArgs) -> (r: String)
    ensures
        listed(
            wiki_tree@,
            if args.categories@.len() == 0 {
                None
            } else {
                Some(args.categories@)
            },
            args.flatten,
            r@,
        ),
{
    if args.categories.len() == 0 {
        list_pages(wiki_tree, None, args.flatten)
    } else {
        list_pages(wiki_tree, Some(&args.categories), args.flatten)
    }
}

/// The category names, but the one named exactly like the bucket prefix.
pub open spec fn category_names(s: Seq<CategoryEntry>) -> Seq<Seq<char>>
    decreases s.len(),
{
    if s.len() == 0 {
        Seq::empty()
    } else if s.last().0@ == UNCATEGORIZED_KEY@ {
        category_names(s.drop_last())
    } else {
        category_names(s.drop_last()).push(s.last().0@)
    }
}

/// The category names, each once, in ascending order, one per line; the
/// name that is exactly the bucket prefix is left out.
pub fn fmt_categories_plain(wiki_tree: &Vec<CategoryEntry>) -> (r: String)
    ensures
        exists|u: Seq<Seq<char>>|
            #![trigger seqs_sorted(u)]
            seqs_sorted(u) && u.no_duplicates() && u.to_set() == category_names(wiki_tree@).to_set()
                && r@ == joined(u, "\n"@),
{
    let ghost t = wiki_tree@;
    let mut names: Vec<String> = Vec::new();
    let mut i: usize = 0;
    let skipped = String::from_str(UNCATEGORIZED_KEY);
    while i < wiki_tree.len()
        invariant
            i <= t.len(),
            t == wiki_tree@,
            skipped@ == UNCATEGORIZED_KEY@,
            views(names@) == category_names(t.take(i as int)),
        decreases t.len() - i,
    {
        proof {
            assert(t.take(i + 1).drop_last() =~= t.take(i as int));
        }
        if wiki_tree[i].0 != skipped {
            let ghost before = names@;
            names.push(wiki_tree[i].0.clone());
            assert(views(names@) =~= views(before).push(t[i as int].0@));
        }
        i = i + 1;
    }
    assert(t.take(t.len() as int) =~= t);
    let u = sorted_unique(names);
    let r = join_strings(&u, "\n");
    assert(seqs_sorted(views(u@)));
    r
}

} // verus!

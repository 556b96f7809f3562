use crate::search::{format_table, table, table_line};
use crate::text::{str_le, views};
use itertools::Itertools;
use vstd::prelude::*;

verus! {

broadcast use vstd::seq_lib::group_to_multiset_ensures;

/// A language the wiki is written in.
#[derive(Debug, Clone)]
pub struct Language {
    pub code: String,
    pub name: String,
}

/// Languages ordered by code.
pub open spec fn sorted_by_code(s: Seq<Language>) -> bool {
    forall|i: int, j: int| 0 <= i < j < s.len() ==> str_le(#[trigger] s[i].code@, #[trigger] s[j].code@)
}

/// Relies on itertools' `sorted_by`: the same languages, ordered by code.
#[verifier::external_body]
fn sort_by_code(v: &Vec<Language>) -> (r: Vec<&Language>)
    ensures
        r@.map_values(|l: &Language| *l).to_multiset() == v@.to_multiset(),
        sorted_by_code(r@.map_values(|l: &Language| *l)),
{
    v.iter().sorted_by(|a, b| a.code.cmp(&b.code)).collect()
}

/// The table line of a language.
pub open spec fn language_line(l: Language) -> Seq<char> {
    table_line(l.code@, l.name@)
}

/// The languages as a table of codes and names, ordered by code.
pub fn format_lang_table(langs: &Vec<Language>) -> (r: String)
    ensures
        exists|s: Seq<Language>|
            s.to_multiset() == langs@.to_multiset() && sorted_by_code(s) && r@ == table(
                "CODE"@,
                "NAME"@,
                s.map_values(|l: Language| language_line(l)),
            ),
{
    let sorted = sort_by_code(langs);
    let ghost s = sorted@.map_values(|l: &Language| *l);
    let mut rows: Vec<String> = Vec::new();
    let mut i: usize = 0;
    while i < sorted.len()
        invariant
            i <= sorted@.len(),
            s == sorted@.map_values(|l: &Language| *l),
            views(rows@) == s.take(i as int).map_values(|l: Language| language_line(l)),
        decreases sorted@.len() - i,
    {
        let l = sorted[i];
        let ghost before = rows@;
        rows.push(crate::search::format_table_line(l.code.as_str(), l.name.as_str()));
        assert(views(rows@) =~= views(before).push(language_line(*l)));
        assert(s.take(i + 1) =~= s.take(i as int).push(*l));
        i = i + 1;
    }
    assert(s.take(s.len() as int) =~= s);
    format_table("CODE", "NAME", &rows)
}

} // verus!

use crate::args::SearchSnippetFmtArgs;
use crate::error::{InvalidApiResponse, WikiError};
use crate::text::{joined, join_strings, pad_right, padded, replace_all, replaced, views};
use colored::Colorize;
use vstd::prelude::*;

verus! {

/// One element of an open-search answer: a string or a list of strings.
#[derive(Debug, PartialEq, Eq)]
pub enum OpenSearchItem {
    Single(String),
    Array(Vec<String>),
}

/// A page title and its address, out of an open-search answer.
#[derive(Debug, PartialEq, Eq)]
pub struct OpenSearchItemParsed {
    pub title: String,
    pub url: String,
}

/// The `search` part of a text-search answer.
#[derive(Debug)]
pub struct TextSearchApiResponse {
    pub search: Vec<TextSearchItem>,
}

/// A page title and the snippet of text that matched.
#[derive(Debug, PartialEq, Eq)]
pub struct TextSearchItem {
    pub title: String,
    pub snippet: String,
}

/// The error for a malformed open-search answer.
pub open spec fn invalid(r: InvalidApiResponse) -> WikiError {
    WikiError::InvalidApiResponse(r)
}

/// The second element of an answer, if it is a list.
pub open spec fn names_of(s: Seq<OpenSearchItem>) -> Result<Seq<String>, WikiError> {
    if s.len() < 2 {
        Err(invalid(InvalidApiResponse::OpenSearchMissingNthElement(1)))
    } else {
        match s[1] {
            OpenSearchItem::Array(names) => Ok(names@),
            OpenSearchItem::Single(_) => Err(
                invalid(InvalidApiResponse::OpenSearchNthElementShouldBeArray(1)),
            ),
        }
    }
}

/// Takes the page titles and addresses out of an open-search answer.
///
/// The titles are its second element and the addresses its fourth; both
/// must be lists of the same length.
pub fn open_search_to_page_url_pairs(search_result: &Vec<OpenSearchItem>) -> (r: Result<
    Vec<OpenSearchItemParsed>,
    WikiError,
>)
    ensures
        ({
            let s = search_result@;
            if s.len() < 2 {
                r == Err::<Vec<OpenSearchItemParsed>, WikiError>(
                    invalid(InvalidApiResponse::OpenSearchMissingNthElement(1)),
                )
            } else if s.len() < 4 {
                r == Err::<Vec<OpenSearchItemParsed>, WikiError>(
                    invalid(InvalidApiResponse::OpenSearchMissingNthElement(3)),
                )
            } else if !(s[1] is Array) {
                r == Err::<Vec<OpenSearchItemParsed>, WikiError>(
                    invalid(InvalidApiResponse::OpenSearchNthElementShouldBeArray(1)),
                )
            } else if !(s[3] is Array) {
                r == Err::<Vec<OpenSearchItemParsed>, WikiError>(
                    invalid(InvalidApiResponse::OpenSearchNthElementShouldBeArray(3)),
                )
            } else if s[1]->Array_0@.len() != s[3]->Array_0@.len() {
                r == Err::<Vec<OpenSearchItemParsed>, WikiError>(
                    invalid(InvalidApiResponse::OpenSearchArraysLengthMismatch),
                )
            } else {
                r is Ok && r->Ok_0@.len() == s[1]->Array_0@.len() && forall|i: int|
                    0 <= i < r->Ok_0@.len() ==> (#[trigger] r->Ok_0@[i]).title@
                        == s[1]->Array_0@[i]@ && r->Ok_0@[i].url@ == s[3]->Array_0@[i]@
            }
        }),
{
    if search_result.len() < 2 {
        return Err(WikiError::InvalidApiResponse(InvalidApiResponse::OpenSearchMissingNthElement(1)));
    }
    if search_result.len() < 4 {
        return Err(WikiError::InvalidApiResponse(InvalidApiResponse::OpenSearchMissingNthElement(3)));
    }
    match &search_result[1] {
        OpenSearchItem::Array(names) => match &search_result[3] {
            OpenSearchItem::Array(urls) => {
                if names.len() != urls.len() {
                    return Err(
                        WikiError::InvalidApiResponse(
                            InvalidApiResponse::OpenSearchArraysLengthMismatch,
                        ),
                    );
                }
                let mut pairs: Vec<OpenSearchItemParsed> = Vec::new();
                let mut i: usize = 0;
                while i < names.len()
                    invariant
                        i <= names@.len(),
                        names@.len() == urls@.len(),
                        pairs@.len() == i,
                        forall|k: int|
                            0 <= k < i ==> (#[trigger] pairs@[k]).title@ == names@[k]@
                                && pairs@[k].url@ == urls@[k]@,
                    decreases names@.len() - i,
                {
                    pairs.push(OpenSearchItemParsed { title: names[i].clone(), url: urls[i].clone() });
                    i = i + 1;
                }
                Ok(pairs)
            },
            OpenSearchItem::Single(_) => Err(
                WikiError::InvalidApiResponse(
                    InvalidApiResponse::OpenSearchNthElementShouldBeArray(3),
                ),
            ),
        },
        OpenSearchItem::Single(_) => Err(
            WikiError::InvalidApiResponse(InvalidApiResponse::OpenSearchNthElementShouldBeArray(1)),
        ),
    }
}

fn clone_strings(v: &Vec<String>) -> (r: Vec<String>)
    ensures
        r@ == v@,
{
    let mut r: Vec<String> = Vec::new();
    let mut i: usize = 0;
    while i < v.len()
        invariant
            i <= v@.len(),
            r@ == v@.take(i as int),
        decreases v@.len() - i,
    {
        r.push(v[i].clone());
        assert(r@ =~= v@.take(i + 1));
        i = i + 1;
    }
    assert(v@.take(v@.len() as int) =~= v@);
    r
}

/// The page titles of an open-search answer: its second element, which
/// must be a list.
pub fn open_search_to_page_names(search_result: &Vec<OpenSearchItem>) -> (r: Result<
    Vec<String>,
    WikiError,
>)
    ensures
        match names_of(search_result@) {
            Ok(names) => r is Ok && r->Ok_0@ == names,
            Err(e) => r == Err::<Vec<String>, WikiError>(e),
        },
{
    if search_result.len() < 2 {
        return Err(WikiError::InvalidApiResponse(InvalidApiResponse::OpenSearchMissingNthElement(1)));
    }
    match &search_result[1] {
        OpenSearchItem::Array(names) => Ok(clone_strings(names)),
        OpenSearchItem::Single(_) => Err(
            WikiError::InvalidApiResponse(InvalidApiResponse::OpenSearchNthElementShouldBeArray(1)),
        ),
    }
}

/// `page` when the top result of an open-search answer is exactly `page`,
/// `None` when it is not or there is no result.
pub fn open_search_is_page_exact_match<'a>(
    page: &'a str,
    search_result: &Vec<OpenSearchItem>,
) -> (r: Result<Option<&'a str>, WikiError>)
    ensures
        match names_of(search_result@) {
            Ok(names) => r is Ok && (if names.len() > 0 && names[0]@ == page@ {
                r->Ok_0 == Some(page)
            } else {
                r->Ok_0 is None
            }),
            Err(e) => r == Err::<Option<&'a str>, WikiError>(e),
        },
{
    if search_result.len() < 2 {
        return Err(WikiError::InvalidApiResponse(InvalidApiResponse::OpenSearchMissingNthElement(1)));
    }
    match &search_result[1] {
        OpenSearchItem::Array(names) => {
            if names.len() > 0 && names[0] == page.to_owned() {
                Ok(Some(page))
            } else {
                Ok(None)
            }
        },
        OpenSearchItem::Single(_) => Err(
            WikiError::InvalidApiResponse(InvalidApiResponse::OpenSearchNthElementShouldBeArray(1)),
        ),
    }
}

/// A table line: the first column padded to 20 characters, the second to
/// 90, separated by `" | "`.
pub open spec fn table_line(a: Seq<char>, b: Seq<char>) -> Seq<char> {
    padded(a, 20) + " | "@ + padded(b, 90)
}

/// A two-column table: the header line, a newline, then the rows joined by
/// newlines.
pub open spec fn table(h1: Seq<char>, h2: Seq<char>, rows: Seq<Seq<char>>) -> Seq<char> {
    table_line(h1, h2) + "\n"@ + joined(rows, "\n"@)
}

/// Formats one table line.
pub fn format_table_line(a: &str, b: &str) -> (r: String)
    ensures
        r@ == table_line(a@, b@),
{
    let mut r = pad_right(a, 20);
    r.append(" | ");
    r.append(pad_right(b, 90).as_str());
    r
}

/// Formats a two-column table from its header and its rows.
pub fn format_table(h1: &str, h2: &str, rows: &Vec<String>) -> (r: String)
    ensures
        r@ == table(h1@, h2@, views(rows@)),
{
    let mut r = format_table_line(h1, h2);
    r.append("\n");
    r.append(join_strings(rows, "\n").as_str());
    r
}

/// The text-search results as a table of titles and snippets.
pub fn fmt_text_search_plain(search_result: &Vec<TextSearchItem>) -> (r: String)
    ensures
        r@ == table(
            "PAGE"@,
            "SNIPPET"@,
            search_result@.map_values(|i: TextSearchItem| table_line(i.title@, i.snippet@)),
        ),
{
    let mut rows: Vec<String> = Vec::new();
    let mut i: usize = 0;
    while i < search_result.len()
        invariant
            i <= search_result@.len(),
            views(rows@) == search_result@.take(i as int).map_values(
                |i: TextSearchItem| table_line(i.title@, i.snippet@),
            ),
        decreases search_result@.len() - i,
    {
        let item = &search_result[i];
        let ghost before = rows@;
        rows.push(format_table_line(item.title.as_str(), item.snippet.as_str()));
        assert(views(rows@) =~= views(before).push(table_line(item.title@, item.snippet@)));
        assert(search_result@.take(i + 1) =~= search_result@.take(i as int).push(*item));
        assert(views(rows@) =~= search_result@.take(i + 1).map_values(
            |i: TextSearchItem| table_line(i.title@, i.snippet@),
        ));
        i = i + 1;
    }
    assert(search_result@.take(search_result@.len() as int) =~= search_result@);
    format_table("PAGE", "SNIPPET", &rows)
}

/// The open-search results as a table of titles and addresses.
pub fn fmt_open_search_plain(name_url_pairs: &Vec<OpenSearchItemParsed>) -> (r: String)
    ensures
        r@ == table(
            "PAGE"@,
            "URL"@,
            name_url_pairs@.map_values(|p: OpenSearchItemParsed| table_line(p.title@, p.url@)),
        ),
{
    let mut rows: Vec<String> = Vec::new();
    let mut i: usize = 0;
    while i < name_url_pairs.len()
        invariant
            i <= name_url_pairs@.len(),
            views(rows@) == name_url_pairs@.take(i as int).map_values(
                |p: OpenSearchItemParsed| table_line(p.title@, p.url@),
            ),
        decreases name_url_pairs@.len() - i,
    {
        let pair = &name_url_pairs[i];
        let ghost before = rows@;
        rows.push(format_table_line(pair.title.as_str(), pair.url.as_str()));
        assert(views(rows@) =~= views(before).push(table_line(pair.title@, pair.url@)));
        assert(name_url_pairs@.take(i + 1) =~= name_url_pairs@.take(i as int).push(*pair));
        assert(views(rows@) =~= name_url_pairs@.take(i + 1).map_values(
            |p: OpenSearchItemParsed| table_line(p.title@, p.url@),
        ));
        i = i + 1;
    }
    assert(name_url_pairs@.take(name_url_pairs@.len() as int) =~= name_url_pairs@);
    format_table("PAGE", "URL", &rows)
}

/// The pattern of a highlighted match in a search snippet.
pub open spec fn match_pattern() -> Seq<char> {
    "<span class=\\\"searchmatch\\\">(.*?)</span>"@
}

/// What the regex crate makes of `text` when every match of the
/// case-insensitive `pattern` is replaced by `replacement`; `None` when the
/// pattern does not compile.
pub uninterp spec fn regex_replaced(
    pattern: Seq<char>,
    text: Seq<char>,
    replacement: Seq<char>,
) -> Option<Seq<char>>;

/// The inner HTML of the root element that scraper builds from an HTML
/// fragment.
pub uninterp spec fn fragment_html_of(html: Seq<char>) -> Seq<char>;

/// Relies on regex's `RegexBuilder::build` (case-insensitive) and
/// `Regex::replace_all`, whose result depends on the arguments alone.
#[verifier::external_body]
fn regex_replace_all(pattern: &str, text: &str, replacement: &str) -> (r: Option<String>)
    ensures
        match r {
            Some(t) => regex_replaced(pattern@, text@, replacement@) == Some(t@),
            None => regex_replaced(pattern@, text@, replacement@) is None,
        },
{
    let rgx = regex::RegexBuilder::new(pattern).case_insensitive(true).build().ok()?;
    Some(rgx.replace_all(text, replacement).into_owned())
}

/// Relies on scraper's `Html::parse_fragment` and `ElementRef::inner_html`:
/// the fragment as scraper serialises it, which depends on the text alone.
#[verifier::external_body]
fn fragment_inner_html(html: &str) -> (r: String)
    ensures
        r@ == fragment_html_of(html@),
{
    scraper::Html::parse_fragment(html).root_element().inner_html()
}

/// Relies on colored's `Colorize::cyan`: the text in cyan when the
/// terminal takes colours. Whether it does depends on the environment, so
/// nothing is promised of the result.
#[verifier::external_body]
fn cyan(text: &str) -> (r: String) {
    format!("{}", text.cyan())
}

/// `s` with line breaks (`\n`, `\r`) turned into spaces.
pub open spec fn on_one_line(s: Seq<char>) -> Seq<char> {
    replaced(replaced(s, "\n"@, " "@), "\r"@, " "@)
}

fn one_line(s: &str) -> (r: String)
    ensures
        r@ == on_one_line(s@),
{
    proof {
        reveal_strlit("\n");
        reveal_strlit("\r");
    }
    let a = replace_all(s, "\n", " ");
    replace_all(a.as_str(), "\r", " ")
}

/// The replacement for a highlighted match, when it is fixed: the bare
/// text without highlighting, Markdown bold for Markdown; `None` for plain
/// text (coloured) and HTML (kept).
pub open spec fn fixed_replacement(fmt: SearchSnippetFmtArgs, no_highlight: bool) -> Option<Seq<char>> {
    if no_highlight {
        Some("$1"@)
    } else {
        match fmt {
            SearchSnippetFmtArgs::Markdown => Some("**$1**"@),
            _ => None,
        }
    }
}

impl TextSearchItem {
    /// Formats the snippet's highlighted matches for `fmt` (bare text when
    /// `no_highlight`), normalises its HTML and puts it on one line. For
    /// coloured plain text the snippet is the matches replaced by whatever
    /// colour codes the terminal takes.
    pub fn prettify_snippet(&mut self, fmt: SearchSnippetFmtArgs, no_highlight: bool)
        ensures
            final(self).title == old(self).title,
            ({
                let s = old(self).snippet@;
                let rr = |rep: Seq<char>| regex_replaced(match_pattern(), s, rep);
                match fixed_replacement(fmt, no_highlight) {
                    Some(rep) => match rr(rep) {
                        Some(t) => final(self).snippet@ == on_one_line(fragment_html_of(t)),
                        None => if fmt == SearchSnippetFmtArgs::Html {
                            final(self).snippet == old(self).snippet
                        } else {
                            final(self).snippet@ == on_one_line(fragment_html_of(s))
                        },
                    },
                    None => if fmt == SearchSnippetFmtArgs::Html {
                        match rr("$1"@) {
                            Some(_) => final(self).snippet@ == on_one_line(fragment_html_of(s)),
                            None => final(self).snippet == old(self).snippet,
                        }
                    } else {
                        exists|c: Seq<char>|
                            #![trigger regex_replaced(match_pattern(), s, c)]
                            match regex_replaced(match_pattern(), s, c) {
                                Some(t) => final(self).snippet@ == on_one_line(fragment_html_of(t)),
                                None => final(self).snippet@ == on_one_line(fragment_html_of(s)),
                            }
                    },
                }
            }),
    {
        let pattern = "<span class=\\\"searchmatch\\\">(.*?)</span>";
        assert(pattern@ == match_pattern());
        let snippet = self.snippet.as_str();
        let replacement = if no_highlight {
            String::from_str("$1")
        } else {
            match fmt {
                SearchSnippetFmtArgs::Plain => cyan("$1"),
                SearchSnippetFmtArgs::Markdown => String::from_str("**$1**"),
                SearchSnippetFmtArgs::Html => String::from_str("$1"),
            }
        };
        let keep = !no_highlight && fmt == SearchSnippetFmtArgs::Html;
        let snip = match regex_replace_all(pattern, snippet, replacement.as_str()) {
            Some(replaced_text) => {
                if keep {
                    fragment_inner_html(snippet)
                } else {
                    fragment_inner_html(replaced_text.as_str())
                }
            },
            None => {
                if fmt != SearchSnippetFmtArgs::Html {
                    fragment_inner_html(snippet)
                } else {
                    return ;
                }
            },
        };
        let ghost old_snippet = self.snippet@;
        self.snippet = one_line(snip.as_str());
        proof {
            let c = replacement@;
            assert(match regex_replaced(match_pattern(), old_snippet, c) {
                Some(t) => self.snippet@ == on_one_line(fragment_html_of(t)),
                None => self.snippet@ == on_one_line(fragment_html_of(old_snippet)),
            } || keep || no_highlight || fmt != SearchSnippetFmtArgs::Plain);
        }
    }
}

} // verus!

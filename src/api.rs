use crate::error::WikiError;
use crate::search::{names_of, open_search_is_page_exact_match, open_search_to_page_names, OpenSearchItem};
use crate::text::{join_strings, joined, occurs_at, replace_all, replaced, views};
use vstd::prelude::*;

verus! {

/// An API answer with its `query` part.
#[derive(Debug, Clone)]
pub struct Response<T> {
    pub query: T,
}

/// An API answer with its `query` part and the parameters to ask for more.
#[derive(Debug, Clone)]
pub struct ResponseWithContinue<T, V> {
    pub query: T,
    pub continue_params: Option<V>,
}

/// An API answer with its `query` part.
#[derive(Debug, Clone)]
pub struct ApiResponse<T> {
    pub query: T,
}

/// An API answer with its `query` part and the parameters to ask for more.
#[derive(Debug, Clone)]
pub struct ApiResponseWithContinue<T, V> {
    pub query: T,
    pub continue_params: Option<V>,
}

/// Relies on `str::split_once`: the text after the first occurrence of
/// `pat`, if there is one.
#[verifier::external_body]
fn text_after<'a>(s: &'a str, pat: &str) -> (r: Option<&'a str>)
    ensures
        match r {
            None => forall|i: int| !occurs_at(s@, pat@, i),
            Some(t) => exists|i: int|
                occurs_at(s@, pat@, i) && (forall|j: int| 0 <= j < i ==> !occurs_at(s@, pat@, j))
                    && t@ == s@.subrange(i + pat@.len(), s@.len() as int),
        },
{
    s.split_once(pat).map(|(_, after)| after)
}

/// The address prefix of the wiki's pages.
pub open spec fn title_url_prefix() -> Seq<char> {
    "https://wiki.archlinux.org/title/"@
}

/// The page title in a wiki page address: what follows the first
/// occurrence of the page address prefix.
pub fn archwiki_url_page_title(s: &str) -> (r: Option<&str>)
    ensures
        match r {
            None => forall|i: int| !occurs_at(s@, title_url_prefix(), i),
            Some(t) => exists|i: int|
                occurs_at(s@, title_url_prefix(), i) && (forall|j: int|
                    0 <= j < i ==> !occurs_at(s@, title_url_prefix(), j)) && t@ == s@.subrange(
                    i + title_url_prefix().len(),
                    s@.len() as int,
                ),
        },
{
    let prefix = "https://wiki.archlinux.org/title/";
    assert(prefix@ == title_url_prefix());
    text_after(s, prefix)
}

fn concat3(a: &str, b: &str, c: &str) -> (r: String)
    ensures
        r@ == a@ + b@ + c@,
{
    let mut r = String::from_str(a);
    r.append(b);
    r.append(c);
    r
}

/// `html` with the root-relative (`/`) and directory-relative (`./`) links
/// of the `href`, `src`, `data`, `manifest`, `ping` and `poster` attributes
/// made absolute against `root_url` and `path`.
pub open spec fn relative_urls_updated(html: Seq<char>, root: Seq<char>, path: Seq<char>) -> Seq<
    char,
> {
    let s1 = replaced(html, "href=\"/"@, "href=\""@ + root + "/"@);
    let s2 = replaced(s1, "src=\"/"@, "src=\""@ + root + "/"@);
    let s3 = replaced(s2, "data=\"/"@, "data=\""@ + root + "/"@);
    let s4 = replaced(s3, "manifest=\"/"@, "manifest=\""@ + root + "/"@);
    let s5 = replaced(s4, "ping=\"/"@, "ping=\""@ + root + "/"@);
    let s6 = replaced(s5, "poster=\"/"@, "poster=\""@ + root + "/"@);
    let s7 = replaced(s6, "href=\"./"@, "href=\""@ + root + "/"@ + path + "/"@);
    let s8 = replaced(s7, "src=\"./"@, "src=\""@ + root + "/"@ + path + "/"@);
    let s9 = replaced(s8, "data=\"./"@, "data=\""@ + root + "/"@ + path + "/"@);
    let s10 = replaced(s9, "manifest=\"./"@, "manifest=\""@ + root + "/"@ + path + "/"@);
    let s11 = replaced(s10, "ping=\"./"@, "ping=\""@ + root + "/"@ + path + "/"@);
    replaced(s11, "poster=\"./"@, "poster=\""@ + root + path + "/"@)
}

fn replace_root(s: &str, attr: &str, root_url: &str) -> (r: String)
    requires
        attr@.len() > 0,
    ensures
        r@ == replaced(s@, attr@ + "/"@, attr@ + root_url@ + "/"@),
{
    let from = concat3(attr, "/", "");
    let to = concat3(attr, root_url, "/");
    proof {
        reveal_strlit("");
        assert(attr@ + "/"@ + ""@ =~= attr@ + "/"@);
    }
    replace_all(s, from.as_str(), to.as_str())
}

fn replace_dir(s: &str, attr: &str, prefix: &str, path: &str) -> (r: String)
    requires
        attr@.len() > 0,
    ensures
        r@ == replaced(s@, attr@ + "./"@, attr@ + prefix@ + path@ + "/"@),
{
    let from = concat3(attr, "./", "");
    let mut to = concat3(attr, prefix, path);
    to.append("/");
    proof {
        reveal_strlit("");
        assert(attr@ + "./"@ + ""@ =~= attr@ + "./"@);
    }
    replace_all(s, from.as_str(), to.as_str())
}

/// Makes the relative links of `html` absolute against `root_url` and
/// `path`.
pub fn update_relative_urls(html: &str, root_url: &str, path: &str) -> (r: String)
    ensures
        r@ == relative_urls_updated(html@, root_url@, path@),
{
    proof {
        reveal_strlit("href=\"");
        reveal_strlit("src=\"");
        reveal_strlit("data=\"");
        reveal_strlit("manifest=\"");
        reveal_strlit("ping=\"");
        reveal_strlit("poster=\"");
    }
    let root_slash = concat3(root_url, "/", "");
    proof {
        reveal_strlit("");
        assert(root_url@ + "/"@ + ""@ =~= root_url@ + "/"@);
    }
    let s1 = replace_root(html, "href=\"", root_url);
    let s2 = replace_root(s1.as_str(), "src=\"", root_url);
    let s3 = replace_root(s2.as_str(), "data=\"", root_url);
    let s4 = replace_root(s3.as_str(), "manifest=\"", root_url);
    let s5 = replace_root(s4.as_str(), "ping=\"", root_url);
    let s6 = replace_root(s5.as_str(), "poster=\"", root_url);
    let s7 = replace_dir(s6.as_str(), "href=\"", root_slash.as_str(), path);
    let s8 = replace_dir(s7.as_str(), "src=\"", root_slash.as_str(), path);
    let s9 = replace_dir(s8.as_str(), "data=\"", root_slash.as_str(), path);
    let s10 = replace_dir(s9.as_str(), "manifest=\"", root_slash.as_str(), path);
    let s11 = replace_dir(s10.as_str(), "ping=\"", root_slash.as_str(), path);
    let r = replace_dir(s11.as_str(), "poster=\"", root_url, path);
    proof {
        assert("href=\""@ + "/"@ =~= "href=\"/"@) by { reveal_strlit("href=\"/"); reveal_strlit("/"); }
        assert("src=\""@ + "/"@ =~= "src=\"/"@) by { reveal_strlit("src=\"/"); reveal_strlit("/"); }
        assert("data=\""@ + "/"@ =~= "data=\"/"@) by { reveal_strlit("data=\"/"); reveal_strlit("/"); }
        assert("manifest=\""@ + "/"@ =~= "manifest=\"/"@) by { reveal_strlit("manifest=\"/"); reveal_strlit("/"); }
        assert("ping=\""@ + "/"@ =~= "ping=\"/"@) by { reveal_strlit("ping=\"/"); reveal_strlit("/"); }
        assert("poster=\""@ + "/"@ =~= "poster=\"/"@) by { reveal_strlit("poster=\"/"); reveal_strlit("/"); }
        assert("href=\""@ + "./"@ =~= "href=\"./"@) by { reveal_strlit("href=\"./"); reveal_strlit("./"); }
        assert("src=\""@ + "./"@ =~= "src=\"./"@) by { reveal_strlit("src=\"./"); reveal_strlit("./"); }
        assert("data=\""@ + "./"@ =~= "data=\"./"@) by { reveal_strlit("data=\"./"); reveal_strlit("./"); }
        assert("manifest=\""@ + "./"@ =~= "manifest=\"./"@) by { reveal_strlit("manifest=\"./"); reveal_strlit("./"); }
        assert("ping=\""@ + "./"@ =~= "ping=\"./"@) by { reveal_strlit("ping=\"./"); reveal_strlit("./"); }
        assert("poster=\""@ + "./"@ =~= "poster=\"./"@) by { reveal_strlit("poster=\"./"); reveal_strlit("./"); }
        assert(s1@ == replaced(html@, "href=\"/"@, "href=\""@ + root_url@ + "/"@));
        assert("href=\""@ + root_slash@ + path@ + "/"@ =~= "href=\""@ + root_url@ + "/"@ + path@ + "/"@);
        assert("src=\""@ + root_slash@ + path@ + "/"@ =~= "src=\""@ + root_url@ + "/"@ + path@ + "/"@);
        assert("data=\""@ + root_slash@ + path@ + "/"@ =~= "data=\""@ + root_url@ + "/"@ + path@ + "/"@);
        assert("manifest=\""@ + root_slash@ + path@ + "/"@ =~= "manifest=\""@ + root_url@ + "/"@ + path@ + "/"@);
        assert("ping=\""@ + root_slash@ + path@ + "/"@ =~= "ping=\""@ + root_url@ + "/"@ + path@ + "/"@);
    }
    r
}

/// The prefixes of the maintenance categories left out of the category
/// tree.
pub open spec fn blocked_prefixes() -> Seq<Seq<char>> {
    seq![
        "Pages flagged with"@,
        "Sections flagged with"@,
        "Pages or sections flagged with"@,
        "Pages where template include size is exceeded"@,
        "Pages with broken package links"@,
        "Pages with broken section links"@,
        "Pages with missing package links"@,
        "Pages with missing section links"@,
        "Pages with dead links"@,
    ]
}

fn blocked_prefix_list() -> (r: Vec<&'static str>)
    ensures
        r@.map_values(|p: &str| p@) == blocked_prefixes(),
{
    let r = vec![
        "Pages flagged with",
        "Sections flagged with",
        "Pages or sections flagged with",
        "Pages where template include size is exceeded",
        "Pages with broken package links",
        "Pages with broken section links",
        "Pages with missing package links",
        "Pages with missing section links",
        "Pages with dead links",
    ];
    assert(r@.map_values(|p: &str| p@) =~= blocked_prefixes());
    r
}

/// `s` begins with `prefix`.
pub fn starts_with(s: &str, prefix: &str) -> (r: bool)
    ensures
        r == prefix@.is_prefix_of(s@),
{
    let n = prefix.unicode_len();
    if s.unicode_len() < n {
        return false;
    }
    let head = s.substring_char(0, n).to_owned();
    head == prefix.to_owned()
}

/// The category is one of the wiki's maintenance categories.
pub fn is_blocked_category(category: &str) -> (r: bool)
    ensures
        r == exists|i: int|
            0 <= i < blocked_prefixes().len() && (#[trigger] blocked_prefixes()[i]).is_prefix_of(
                category@,
            ),
{
    let prefixes = blocked_prefix_list();
    let ghost ps = blocked_prefixes();
    let mut i: usize = 0;
    while i < prefixes.len()
        invariant
            i <= prefixes@.len(),
            prefixes@.map_values(|p: &str| p@) == ps,
            ps == blocked_prefixes(),
            forall|k: int| 0 <= k < i ==> !(#[trigger] ps[k]).is_prefix_of(category@),
        decreases prefixes@.len() - i,
    {
        assert(prefixes@[i as int]@ == ps[i as int]);
        if starts_with(category, prefixes[i]) {
            return true;
        }
        i = i + 1;
    }
    assert(forall|k: int| 0 <= k < ps.len() ==> !(#[trigger] ps[k]).is_prefix_of(category@));
    false
}

/// The text after the first `Category:` of a category page title, or the
/// whole title when it has none.
pub open spec fn category_name_of(title: Seq<char>) -> Seq<char> {
    if exists|i: int| occurs_at(title, "Category:"@, i) {
        let i = choose|i: int|
            occurs_at(title, "Category:"@, i) && forall|j: int|
                0 <= j < i ==> !occurs_at(title, "Category:"@, j);
        title.subrange(i + "Category:"@.len(), title.len() as int)
    } else {
        title
    }
}

/// The category name in a category page title.
pub fn category_name(title: &str) -> (r: String)
    ensures
        r@ == category_name_of(title@),
{
    let marker = "Category:";
    match text_after(title, marker) {
        Some(name) => {
            proof {
                let i = choose|i: int|
                    occurs_at(title@, marker@, i) && (forall|j: int|
                        0 <= j < i ==> !occurs_at(title@, marker@, j)) && name@ == title@.subrange(
                        i + marker@.len(),
                        title@.len() as int,
                    );
                let k = choose|k: int|
                    occurs_at(title@, "Category:"@, k) && forall|j: int|
                        0 <= j < k ==> !occurs_at(title@, "Category:"@, j);
                assert(i == k) by {
                    if i < k {
                        assert(!occurs_at(title@, marker@, i));
                    } else if k < i {
                        assert(!occurs_at(title@, marker@, k));
                    }
                }
            }
            name.to_owned()
        },
        None => title.to_owned(),
    }
}

/// The names of a page's categories, maintenance categories left out.
pub open spec fn kept_categories(titles: Seq<String>) -> Seq<Seq<char>>
    decreases titles.len(),
{
    if titles.len() == 0 {
        Seq::empty()
    } else {
        let name = category_name_of(titles.last()@);
        let prev = kept_categories(titles.drop_last());
        if exists|i: int|
            0 <= i < blocked_prefixes().len() && (#[trigger] blocked_prefixes()[i]).is_prefix_of(
                name,
            ) {
            prev
        } else {
            prev.push(name)
        }
    }
}

/// The category names of a page from its category page titles, without
/// the maintenance categories.
pub fn page_categories(titles: &Vec<String>) -> (r: Vec<String>)
    ensures
        views(r@) == kept_categories(titles@),
{
    let mut r: Vec<String> = Vec::new();
    let mut i: usize = 0;
    while i < titles.len()
        invariant
            i <= titles@.len(),
            views(r@) == kept_categories(titles@.take(i as int)),
        decreases titles@.len() - i,
    {
        proof {
            assert(titles@.take(i + 1).drop_last() =~= titles@.take(i as int));
        }
        let name = category_name(titles[i].as_str());
        if !is_blocked_category(name.as_str()) {
            let ghost before = r@;
            r.push(name);
            assert(views(r@) =~= views(before).push(name@));
        }
        i = i + 1;
    }
    assert(titles@.take(titles@.len() as int) =~= titles@);
    r
}

/// The address of the next batch of pages: the listing address with the
/// page continuation, else the category continuation, else none.
pub open spec fn continue_url_of(
    api_url: Seq<char>,
    gapcontinue: Option<String>,
    clcontinue: Option<String>,
) -> Option<Seq<char>> {
    match gapcontinue {
        Some(g) => Some(api_url + "&gapcontinue="@ + g@),
        None => match clcontinue {
            Some(c) => Some(api_url + "&clcontinue="@ + c@),
            None => None,
        },
    }
}

/// The address of the next batch of pages, if the answer asks for one.
pub fn continue_url(api_url: &str, gapcontinue: Option<String>, clcontinue: Option<String>) -> (r:
    Option<String>)
    ensures
        match r {
            Some(u) => continue_url_of(api_url@, gapcontinue, clcontinue) == Some(u@),
            None => continue_url_of(api_url@, gapcontinue, clcontinue) is None,
        },
{
    match gapcontinue {
        Some(g) => {
            let mut u = String::from_str(api_url);
            u.append("&gapcontinue=");
            u.append(g.as_str());
            Some(u)
        },
        None => match clcontinue {
            Some(c) => {
                let mut u = String::from_str(api_url);
                u.append("&clcontinue=");
                u.append(c.as_str());
                Some(u)
            },
            None => None,
        },
    }
}

/// Picks the page to fetch from an open-search answer for `page`: the page
/// itself when the top result is exactly it, else an error that lists the
/// results as suggestions, one per line.
pub fn exact_page_or_suggestions(page: &str, search_result: &Vec<OpenSearchItem>) -> (r: Result<
    String,
    WikiError,
>)
    ensures
        match names_of(search_result@) {
            Ok(names) => if names.len() > 0 && names[0]@ == page@ {
                r is Ok && r->Ok_0@ == page@
            } else {
                r is Err && r->Err_0 is NoPageFound && r->Err_0->NoPageFound_0@ == joined(
                    views(names),
                    "\n"@,
                )
            },
            Err(e) => r == Err::<String, WikiError>(e),
        },
{
    match open_search_is_page_exact_match(page, search_result) {
        Err(e) => Err(e),
        Ok(Some(title)) => Ok(title.to_owned()),
        Ok(None) => match open_search_to_page_names(search_result) {
            Ok(names) => Err(WikiError::NoPageFound(join_strings(&names, "\n"))),
            Err(e) => Err(e),
        },
    }
}

/// The percent-encoding that urlencoding gives a text.
pub uninterp spec fn url_encoded(s: Seq<char>) -> Seq<char>;

/// Relies on urlencoding's `encode`: every byte but ASCII letters, digits
/// and `-_.~` percent-encoded, which depends on the text alone.
#[verifier::external_body]
fn encode_url_part(s: &str) -> (r: String)
    ensures
        r@ == url_encoded(s@),
{
    urlencoding::encode(s).into_owned()
}

/// The address of a page's HTML on the wiki's REST interface.
pub open spec fn page_html_url_of(page: Seq<char>) -> Seq<char> {
    "https://wiki.archlinux.org/rest.php/v1/page/"@ + url_encoded(page) + "/html"@
}

/// The address of a page's HTML on the wiki's REST interface.
pub fn page_html_url(page: &str) -> (r: String)
    ensures
        r@ == page_html_url_of(page@),
{
    let mut r = String::from_str("https://wiki.archlinux.org/rest.php/v1/page/");
    r.append(encode_url_part(page).as_str());
    r.append("/html");
    r
}

/// The root address of a site from its scheme and host.
pub fn base_url(scheme: &str, host: &str) -> (r: String)
    ensures
        r@ == scheme@ + "://"@ + host@,
{
    let mut r = String::from_str(scheme);
    r.append("://");
    r.append(host);
    r
}

} // verus!

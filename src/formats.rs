use crate::text::{join_strings, joined, pad_right, padded, trim, trim_end, trim_end_of, trim_of, views};
use vstd::prelude::*;

verus! {

/// Width to which each table cell is padded in plain text.
pub const CELL_WIDTH: usize = 25;

/// The format a page is rendered in.
#[derive(Debug, Clone, Copy, PartialEq, Eq, Structural)]
pub enum PageFormat {
    PlainText,
    Markdown,
    Html,
}

impl Default for PageFormat {
    fn default() -> (r: Self)
        ensures
            r == PageFormat::PlainText,
    {
        PageFormat::PlainText
    }
}

/// A node of a parsed HTML tree, with what rendering reads of it.
#[derive(Debug)]
pub enum HtmlNode {
    /// A text node.
    Text(String),
    /// An element: its tag name, its `href` attribute and its children.
    Element { name: String, href: Option<String>, children: Vec<HtmlNode> },
    /// Any other node (the document, a comment, a doctype) and its children.
    Other { children: Vec<HtmlNode> },
}

/// A fetched page: the tree parsed from it and that tree serialised as HTML.
#[derive(Debug)]
pub struct Document {
    pub html: String,
    pub root: HtmlNode,
}

/// The tags whose children are rendered as table content.
pub open spec fn is_table_part(name: Seq<char>) -> bool {
    name == "tbody"@ || name == "tr"@ || name == "td"@ || name == "th"@
}

/// The link target of an anchor, empty when it has none.
pub open spec fn href_text(href: Option<String>) -> Seq<char> {
    match href {
        Some(h) => h@,
        None => Seq::empty(),
    }
}

/// `text` followed by `url` in square brackets.
pub open spec fn url_wrapped(text: Seq<char>, url: Seq<char>) -> Seq<char> {
    text + "["@ + url + "]"@
}

/// Plain text of a node: the text of its text nodes with the tags dropped;
/// a link's target follows its text when `show_urls` is set; a table row is
/// its non-empty cells, each trimmed and padded to the cell width, joined by
/// `" | "` and ended by a newline; other table parts render their children
/// as table content.
pub open spec fn render_plain(n: HtmlNode, show_urls: bool) -> Seq<char>
    decreases n, 1int,
{
    match n {
        HtmlNode::Text(t) => t@,
        HtmlNode::Element { name, href, children } => {
            if name@ == "a"@ {
                let inner = render_plain_list(children@, show_urls);
                if show_urls {
                    url_wrapped(inner, href_text(href))
                } else {
                    inner
                }
            } else if name@ == "tr"@ {
                joined(row_cells(children@, show_urls), " | "@) + "\n"@
            } else if is_table_part(name@) {
                render_table_list(children@, show_urls)
            } else {
                render_plain_list(children@, show_urls)
            }
        },
        HtmlNode::Other { children } => render_plain_list(children@, show_urls),
    }
}

/// Plain text of a sequence of nodes, one after the other.
pub open spec fn render_plain_list(s: Seq<HtmlNode>, show_urls: bool) -> Seq<char>
    decreases s, 0int,
{
    if s.len() == 0 {
        Seq::empty()
    } else {
        render_plain_list(s.drop_last(), show_urls) + render_plain(s.last(), show_urls)
    }
}

/// Table content of a sequence of nodes, one after the other.
pub open spec fn render_table_list(s: Seq<HtmlNode>, show_urls: bool) -> Seq<char>
    decreases s, 0int,
{
    if s.len() == 0 {
        Seq::empty()
    } else {
        render_table_list(s.drop_last(), show_urls) + render_table(s.last(), show_urls)
    }
}

/// Table content of a node: text without trailing white space; anything
/// else is its plain text (a row among it).
pub open spec fn render_table(n: HtmlNode, show_urls: bool) -> Seq<char>
    decreases n, 2int,
{
    match n {
        HtmlNode::Text(t) => trim_end_of(t@),
        _ => render_plain(n, show_urls),
    }
}

/// The cells of a table row: each cell's table content trimmed at both
/// ends, the empty ones left out, the others padded to the cell width.
pub open spec fn row_cells(s: Seq<HtmlNode>, show_urls: bool) -> Seq<Seq<char>>
    decreases s, 0int,
{
    if s.len() == 0 {
        Seq::empty()
    } else {
        let prev = row_cells(s.drop_last(), show_urls);
        let t = trim_of(render_table(s.last(), show_urls));
        if t.len() == 0 {
            prev
        } else {
            prev.push(padded(t, CELL_WIDTH as nat))
        }
    }
}

fn name_is(name: &String, tag: &str) -> (r: bool)
    ensures
        r == (name@ == tag@),
{
    *name == tag.to_owned()
}

/// Appends `url` in square brackets to `text`.
pub fn wrap_text_in_url(text: &str, url: &str) -> (r: String)
    ensures
        r@ == url_wrapped(text@, url@),
{
    let mut r = text.to_owned();
    r.append("[");
    r.append(url);
    r.append("]");
    r
}

fn plain_node(node: &HtmlNode, show_urls: bool) -> (r: String)
    ensures
        r@ == render_plain(*node, show_urls),
    decreases *node, 1int,
{
    match node {
        HtmlNode::Text(t) => t.clone(),
        HtmlNode::Element { name, href, children } => {
            if name_is(name, "a") {
                let inner = plain_list(children, show_urls);
                if show_urls {
                    let url = match href {
                        Some(h) => h.clone(),
                        None => String::new(),
                    };
                    wrap_text_in_url(inner.as_str(), url.as_str())
                } else {
                    inner
                }
            } else if name_is(name, "tr") {
                let mut cells: Vec<String> = Vec::new();
                let mut i: usize = 0;
                proof {
                    assert(decreases_to!(*node => *children));
                    assert forall|k: int| 0 <= k < children@.len() implies decreases_to!(*node => #[trigger] children@[k]) by {
                        assert(decreases_to!(*children => children@));
                        assert(decreases_to!(children@ => children@[k]));
                    }
                }
                while i < children.len()
                    invariant
                        forall|k: int| 0 <= k < children@.len() ==> decreases_to!(*node => #[trigger] children@[k]),
                        i <= children@.len(),
                        views(cells@) == row_cells(children@.take(i as int), show_urls),
                    decreases children@.len() - i,
                {
                    let cell = format_table(&children[i], show_urls);
                    proof {
                        assert(children@.take(i + 1).drop_last() =~= children@.take(i as int));
                    }
                    let text = trim(cell.as_str());
                    if text.unicode_len() > 0 {
                        let ghost before = cells@;
                        cells.push(pad_right(text, CELL_WIDTH));
                        assert(views(cells@) =~= views(before).push(padded(text@, CELL_WIDTH as nat)));
                    }
                    i = i + 1;
                }
                proof {
                    assert(children@.take(children@.len() as int) =~= children@);
                }
                let mut r = join_strings(&cells, " | ");
                r.append("\n");
                r
            } else if name_is(name, "tbody") || name_is(name, "td") || name_is(name, "th") {
                table_list(children, show_urls)
            } else {
                plain_list(children, show_urls)
            }
        },
        HtmlNode::Other { children } => plain_list(children, show_urls),
    }
}

fn plain_list(nodes: &Vec<HtmlNode>, show_urls: bool) -> (r: String)
    ensures
        r@ == render_plain_list(nodes@, show_urls),
    decreases nodes@, 0int,
{
    let mut r = String::new();
    let mut i: usize = 0;
    while i < nodes.len()
        invariant
            i <= nodes@.len(),
            r@ == render_plain_list(nodes@.take(i as int), show_urls),
        decreases nodes@.len() - i,
    {
        let part = plain_node(&nodes[i], show_urls);
        r.append(part.as_str());
        proof {
            assert(nodes@.take(i + 1).drop_last() =~= nodes@.take(i as int));
        }
        i = i + 1;
    }
    proof {
        assert(nodes@.take(nodes@.len() as int) =~= nodes@);
    }
    r
}

fn table_list(nodes: &Vec<HtmlNode>, show_urls: bool) -> (r: String)
    ensures
        r@ == render_table_list(nodes@, show_urls),
    decreases nodes@, 0int,
{
    let mut r = String::new();
    let mut i: usize = 0;
    while i < nodes.len()
        invariant
            i <= nodes@.len(),
            r@ == render_table_list(nodes@.take(i as int), show_urls),
        decreases nodes@.len() - i,
    {
        let part = format_table(&nodes[i], show_urls);
        r.append(part.as_str());
        proof {
            assert(nodes@.take(i + 1).drop_last() =~= nodes@.take(i as int));
        }
        i = i + 1;
    }
    proof {
        assert(nodes@.take(nodes@.len() as int) =~= nodes@);
    }
    r
}

/// Renders a node as table content.
fn format_table(node: &HtmlNode, show_urls: bool) -> (r: String)
    ensures
        r@ == render_table(*node, show_urls),
    decreases *node, 2int,
{
    match node {
        HtmlNode::Text(t) => trim_end(t.as_str()).to_owned(),
        _ => plain_node(node, show_urls),
    }
}

/// Renders the children of a document's root element as plain text.
pub fn convert_page_to_plain_text(root: &HtmlNode, show_urls: bool) -> (r: String)
    ensures
        r@ == match *root {
            HtmlNode::Text(t) => Seq::empty(),
            HtmlNode::Element { children, .. } => render_plain_list(children@, show_urls),
            HtmlNode::Other { children } => render_plain_list(children@, show_urls),
        },
{
    match root {
        HtmlNode::Text(_) => String::new(),
        HtmlNode::Element { children, .. } => plain_list(children, show_urls),
        HtmlNode::Other { children } => plain_list(children, show_urls),
    }
}

/// Renders one node as plain text.
pub fn format_children_as_plain_text(node: &HtmlNode, show_urls: bool) -> (r: String)
    ensures
        r@ == render_plain(*node, show_urls),
{
    plain_node(node, show_urls)
}

/// What html2md makes of an HTML text.
pub uninterp spec fn markdown_of(html: Seq<char>) -> Seq<char>;

/// The inner HTML of the `body` element that scraper finds in an HTML text
/// (empty when there is none).
pub uninterp spec fn body_html_of(html: Seq<char>) -> Seq<char>;

/// Relies on html2md's `parse_html`: the Markdown form of an HTML text,
/// which depends on the text alone.
#[verifier::external_body]
fn html_to_markdown(html: &str) -> (r: String)
    ensures
        r@ == markdown_of(html@),
{
    html2md::parse_html(html)
}

/// Relies on scraper's `Html::parse_document`, `Html::select` and
/// `ElementRef::inner_html`: the inner HTML of the first `body` element of
/// the parsed text, which depends on the text alone.
#[verifier::external_body]
fn body_inner_html(html: &str) -> (r: String)
    ensures
        r@ == body_html_of(html@),
{
    let document = scraper::Html::parse_document(html);
    let selector = scraper::Selector::parse("body").expect("body is a valid css selector");
    document.select(&selector).next().map(|body| body.inner_html()).unwrap_or_default()
}

/// A Markdown page: a level-one heading with the title, then the body.
pub open spec fn markdown_page_of(title: Seq<char>, markdown: Seq<char>) -> Seq<char> {
    "# "@ + title + "\n\n"@ + markdown
}

/// An HTML page: an `h1` heading with the title, then the body.
pub open spec fn html_page_of(title: Seq<char>, body: Seq<char>) -> Seq<char> {
    "<h1>"@ + title + "</h1>\n"@ + body
}

/// Puts a Markdown heading with `page` above the Markdown body `markdown`.
pub fn markdown_page(page: &str, markdown: &str) -> (r: String)
    ensures
        r@ == markdown_page_of(page@, markdown@),
{
    let mut r = String::from_str("# ");
    r.append(page);
    r.append("\n\n");
    r.append(markdown);
    r
}

/// Puts an `h1` heading with `page` above the HTML body `body`.
pub fn html_page(page: &str, body: &str) -> (r: String)
    ensures
        r@ == html_page_of(page@, body@),
{
    let mut r = String::from_str("<h1>");
    r.append(page);
    r.append("</h1>\n");
    r.append(body);
    r
}

/// Renders the document as Markdown under a heading with the page title.
pub fn convert_page_to_markdown(document: &Document, page: &str) -> (r: String)
    ensures
        r@ == markdown_page_of(page@, markdown_of(document.html@)),
{
    let md = html_to_markdown(document.html.as_str());
    markdown_page(page, md.as_str())
}

/// Renders the document's body as HTML under a heading with the page title.
pub fn convert_page_to_html(document: &Document, page: &str) -> (r: String)
    ensures
        r@ == html_page_of(page@, body_html_of(document.html@)),
{
    let body = body_inner_html(document.html.as_str());
    html_page(page, body.as_str())
}

/// What a page renders to in each format.
pub open spec fn rendered(
    format: PageFormat,
    document: Document,
    title: Seq<char>,
    show_urls: bool,
) -> Seq<char> {
    match format {
        PageFormat::PlainText => match document.root {
            HtmlNode::Text(t) => Seq::empty(),
            HtmlNode::Element { children, .. } => render_plain_list(children@, show_urls),
            HtmlNode::Other { children } => render_plain_list(children@, show_urls),
        },
        PageFormat::Markdown => markdown_page_of(title, markdown_of(document.html@)),
        PageFormat::Html => html_page_of(title, body_html_of(document.html@)),
    }
}

/// Renders a page in the given format.
pub fn format_page(
    format: &PageFormat,
    page: &Document,
    page_title: &str,
    show_urls_for_plain: bool,
) -> (r: String)
    ensures
        r@ == rendered(*format, *page, page_title@, show_urls_for_plain),
{
    match format {
        PageFormat::PlainText => convert_page_to_plain_text(&page.root, show_urls_for_plain),
        PageFormat::Markdown => convert_page_to_markdown(page, page_title),
        PageFormat::Html => convert_page_to_html(page, page_title),
    }
}

} // verus!

use archwiki_rs::formats::{
    convert_page_to_html, convert_page_to_markdown, convert_page_to_plain_text,
    format_children_as_plain_text, format_page, Document, HtmlNode, PageFormat,
};
use scraper::{Html, Node};

fn to_node(node: ego_tree::NodeRef<Node>) -> HtmlNode {
    let children: Vec<HtmlNode> = node.children().map(to_node).collect();
    match node.value() {
        Node::Text(text) => HtmlNode::Text(text.to_string()),
        Node::Element(e) => HtmlNode::Element {
            name: e.name().to_owned(),
            href: e.attr("href").map(ToOwned::to_owned),
            children,
        },
        _ => HtmlNode::Other { children },
    }
}

fn document(html: &str) -> Document {
    let parsed = Html::parse_document(html);
    Document { html: parsed.html(), root: to_node(*parsed.root_element()) }
}

fn element(name: &str, href: Option<&str>, children: Vec<HtmlNode>) -> HtmlNode {
    HtmlNode::Element { name: name.to_owned(), href: href.map(ToOwned::to_owned), children }
}

fn text(t: &str) -> HtmlNode {
    HtmlNode::Text(t.to_owned())
}

#[test]
fn test_convert_page_to_html() {
    let page = "test page";
    let input = r#"<div>
    <title>Hello, world!</title>
</div>"#;

    let expected_output = format!(
        r#"<h1>{page}</h1>
<div>
    <title>Hello, world!</title>
</div>"#
    );

    let output = convert_page_to_html(&document(input), page);
    assert_eq!(output, expected_output);
}

#[test]
fn test_convert_page_to_markdown() {
    let page = "test page";
    let input = r#"<div>
            <h3>Hello, world!</h3>
            </div>"#;

    let expected_output = format!(
        r#"# {page}

### Hello, world! ###"#
    );

    let output = convert_page_to_markdown(&document(input), page);
    assert_eq!(output, expected_output);
}

#[test]
fn test_convert_page_to_plain_text() {
    {
        let input = r#"<div">
                <h3>Hello, world!</h3>
                <div>how <span><bold>are</bold></span> you</div>
                I'm great
                </div>"#;

        let expected_output = r"
                Hello, world!
                how are you
                I'm great
                ";

        let doc = document(input);
        let output = convert_page_to_plain_text(&doc.root, false);
        assert_eq!(output, expected_output);
    }

    {
        let input = r#"<div>
    <h3>Hello, world!</h3>
    <a href="example.com">example</a>
</div>"#;

        let expected_output = format!(
            r#"
    Hello, world!
    example[{url}]
"#,
            url = "example.com"
        );

        let doc = document(input);
        let output = convert_page_to_plain_text(&doc.root, true);
        assert_eq!(output, expected_output);
    }
}

#[test]
fn link_renders_without_url_by_default() {
    let link = element("a", Some("https://x"), vec![text("Y")]);
    assert_eq!(format_children_as_plain_text(&link, false), "Y");
}

#[test]
fn link_renders_with_url_when_asked() {
    let link = element("a", Some("https://x"), vec![text("Y")]);
    assert_eq!(format_children_as_plain_text(&link, true), "Y[https://x]");
}

#[test]
fn link_without_href_gets_empty_brackets() {
    let link = element("a", None, vec![text("Y")]);
    assert_eq!(format_children_as_plain_text(&link, true), "Y[]");
}

#[test]
fn table_row_is_padded_columns() {
    let row = element(
        "tr",
        None,
        vec![element("td", None, vec![text("A")]), element("td", None, vec![text("B")])],
    );
    let out = format_children_as_plain_text(&element("tbody", None, vec![row]), false);
    assert_eq!(out, format!("{:<25} | {:<25}\n", "A", "B"));
    assert!(out.ends_with('\n'));
    assert!(out.contains(" | "));
}

#[test]
fn table_row_drops_empty_cells_and_trailing_space() {
    let row = element(
        "tr",
        None,
        vec![
            text("\n  "),
            element("td", None, vec![text("A")]),
            text("   "),
            element("th", None, vec![text("B")]),
        ],
    );
    let body = element("tbody", None, vec![row]);
    let out = format_children_as_plain_text(&element("table", None, vec![body]), false);
    assert_eq!(out, format!("{:<25} | {:<25}\n", "A", "B"));
}

#[test]
fn long_cell_is_not_cut() {
    let long = "x".repeat(30);
    let row = element("tr", None, vec![element("td", None, vec![text(&long)])]);
    let out = format_children_as_plain_text(&element("tbody", None, vec![row]), false);
    assert_eq!(out, format!("{long}\n"));
}

#[test]
fn bare_row_is_padded_columns() {
    let row = element(
        "tr",
        None,
        vec![element("td", None, vec![text("A")]), element("td", None, vec![text("B")])],
    );
    let expected = format!("{:<25} | {:<25}\n", "A", "B");
    assert_eq!(format_children_as_plain_text(&row, false), expected);
    assert_eq!(format_children_as_plain_text(&row, true), expected);
}

#[test]
fn row_under_thead_keeps_its_columns() {
    let row = element(
        "tr",
        None,
        vec![element("th", None, vec![text("  Name ")]), element("th", None, vec![text(" Value")])],
    );
    let head = element("thead", None, vec![row]);
    assert_eq!(
        format_children_as_plain_text(&head, false),
        format!("{:<25} | {:<25}\n", "Name", "Value")
    );
}

#[test]
fn tags_are_dropped_in_plain_text() {
    let node = element(
        "p",
        None,
        vec![text("a "), element("b", None, vec![text("bold")]), text(" c")],
    );
    assert_eq!(format_children_as_plain_text(&node, true), "a bold c");
}

#[test]
fn format_page_dispatches_on_format() {
    let doc = document("<p>hi</p>");
    let plain = format_page(&PageFormat::PlainText, &doc, "T", false);
    assert_eq!(plain, "hi");
    let html = format_page(&PageFormat::Html, &doc, "T", false);
    assert_eq!(html, "<h1>T</h1>\n<p>hi</p>");
    let md = format_page(&PageFormat::Markdown, &doc, "T", false);
    assert!(md.starts_with("# T\n\n"));
    assert!(md.contains("hi"));
    assert_eq!(PageFormat::default(), PageFormat::PlainText);
}

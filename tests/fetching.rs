use archwiki_rs::api::{
    base_url, category_name, continue_url, exact_page_or_suggestions, page_categories,
    page_html_url,
};
use archwiki_rs::args::{
    ListPagesArgs, ListPagesFmtArgs, ReadPageArgs, SearchArgs, SearchFmtArgs, SearchSnippetFmtArgs,
};
use archwiki_rs::formats::PageFormat;
use archwiki_rs::wasm_args::{
    ListPagesJsonWasmArgs, ListPagesWasmArgs, ReadPageWasmArgs, SearchWasmArgs,
};
use archwiki_rs::error::{WasmWikiError, WasmWikiErrorKind, WikiError};
use archwiki_rs::search::{OpenSearchItem, TextSearchItem};

#[test]
fn category_names_lose_their_namespace() {
    assert_eq!(category_name("Category:Text editors"), "Text editors");
    assert_eq!(category_name("Editors"), "Editors");
    let titles = vec![
        "Category:Text editors".to_owned(),
        "Category:Pages with dead links".to_owned(),
        "Gaming".to_owned(),
    ];
    assert_eq!(page_categories(&titles), vec!["Text editors".to_owned(), "Gaming".to_owned()]);
}

#[test]
fn continuation_prefers_page_listing() {
    let base = "https://x/api";
    assert_eq!(
        continue_url(base, Some("B".to_owned()), Some("C".to_owned())),
        Some("https://x/api&gapcontinue=B".to_owned())
    );
    assert_eq!(
        continue_url(base, None, Some("C".to_owned())),
        Some("https://x/api&clcontinue=C".to_owned())
    );
    assert_eq!(continue_url(base, None, None), None);
}

#[test]
fn missing_page_lists_suggestions() {
    let res = vec![
        OpenSearchItem::Single("Neovi".to_owned()),
        OpenSearchItem::Array(vec!["Neovim".to_owned(), "Vim".to_owned()]),
    ];
    match exact_page_or_suggestions("Neovi", &res) {
        Err(WikiError::NoPageFound(s)) => assert_eq!(s, "Neovim\nVim"),
        other => panic!("unexpected {other:?}"),
    }
    assert_eq!(exact_page_or_suggestions("Neovim", &res).unwrap(), "Neovim");
}

#[test]
fn page_urls_are_encoded() {
    assert_eq!(
        page_html_url("Foo Bar/Baz"),
        "https://wiki.archlinux.org/rest.php/v1/page/Foo%20Bar%2FBaz/html"
    );
    assert_eq!(base_url("https", "wiki.archlinux.org"), "https://wiki.archlinux.org");
}

#[test]
fn snippets_are_prettified() {
    let raw = "use <span class=\"searchmatch\">Vim</span>\nnow";
    let mut item = TextSearchItem { title: "t".to_owned(), snippet: raw.to_owned() };
    item.prettify_snippet(SearchSnippetFmtArgs::Markdown, false);
    assert_eq!(item.snippet, "use **Vim** now");

    let mut item = TextSearchItem { title: "t".to_owned(), snippet: raw.to_owned() };
    item.prettify_snippet(SearchSnippetFmtArgs::Html, true);
    assert_eq!(item.snippet, "use Vim now");

    let mut item = TextSearchItem { title: "t".to_owned(), snippet: raw.to_owned() };
    item.prettify_snippet(SearchSnippetFmtArgs::Html, false);
    assert_eq!(item.snippet, "use <span class=\"searchmatch\">Vim</span> now");
}

#[test]
fn front_end_errors() {
    let err = WasmWikiError::from_error(&WikiError::NoPageFound("x".to_owned())).unwrap();
    assert_eq!(err.kind(), WasmWikiErrorKind::NoPageFound);
    assert_eq!(err.error(), "x");
    assert!(WasmWikiError::from_error(&WikiError::IO("x".to_owned())).is_none());
}

#[test]
fn web_front_end_defaults() {
    let read = ReadPageArgs::from_wasm(ReadPageWasmArgs::new("Vim".to_owned(), None, None, None));
    assert_eq!(read.format, PageFormat::Html);
    assert_eq!(read.lang, "en");
    assert!(!read.show_urls);

    let search = SearchArgs::from_wasm(SearchWasmArgs::new("q".to_owned(), None, None, None, None));
    assert_eq!(search.fmt, SearchFmtArgs::JsonRaw);
    assert_eq!(search.limit, 5);

    let list = ListPagesArgs::from_wasm(ListPagesWasmArgs { args_plain: None, args_json: None });
    assert_eq!(list.fmt, ListPagesFmtArgs::JsonRaw);
    let pretty = ListPagesArgs::from_wasm(ListPagesWasmArgs {
        args_plain: None,
        args_json: Some(ListPagesJsonWasmArgs { json: Some(true), json_raw: None }),
    });
    assert_eq!(pretty.fmt, ListPagesFmtArgs::JsonPretty);
}

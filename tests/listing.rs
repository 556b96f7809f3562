use archwiki_rs::api::{archwiki_url_page_title, is_blocked_category, update_relative_urls};
use archwiki_rs::args::ListPagesPlainArgs;
use archwiki_rs::cache::{fall_back_to_cache, read_from_cache};
use archwiki_rs::info::{fmt_plain, AppInfo};
use archwiki_rs::args::InfoPlainArgs;
use archwiki_rs::list::{fmt_categories_plain, fmt_page_tree, list_pages};
use archwiki_rs::progress::{progress_label, truncate_unicode_str};
use archwiki_rs::text::decimal_string;

fn tree() -> Vec<(String, Vec<String>)> {
    vec![
        ("Xiaomi".to_owned(), vec!["Mi Pro".to_owned(), "Mi Air".to_owned()]),
        ("Xfce".to_owned(), vec!["Thunar".to_owned(), "Xfwm".to_owned(), "Mi Air".to_owned()]),
    ]
}

#[test]
fn list_pages_as_tree() {
    let out = list_pages(&tree(), None, false);
    assert_eq!(
        out,
        "Xfce:\n───┤Thunar\n───┤Xfwm\n───┤Mi Air\n\nXiaomi:\n───┤Mi Pro\n───┤Mi Air"
    );
}

#[test]
fn list_pages_flat_unique_sorted() {
    let out = list_pages(&tree(), None, true);
    assert_eq!(out, "Mi Air\nMi Pro\nThunar\nXfwm");
}

#[test]
fn list_pages_filtered() {
    let filter = vec!["Xiaomi".to_owned()];
    assert_eq!(list_pages(&tree(), Some(&filter), true), "Mi Air\nMi Pro");
    let args = ListPagesPlainArgs { flatten: false, categories: filter };
    assert_eq!(fmt_page_tree(&tree(), &args), "Xiaomi:\n───┤Mi Pro\n───┤Mi Air");
    let all = ListPagesPlainArgs { flatten: true, categories: vec![] };
    assert_eq!(fmt_page_tree(&tree(), &all), "Mi Air\nMi Pro\nThunar\nXfwm");
}

#[test]
fn categories_sorted_without_bare_prefix() {
    let mut t = tree();
    t.push(("Uncategorized".to_owned(), vec!["x".to_owned()]));
    t.push(("Uncategorized #1".to_owned(), vec!["y".to_owned()]));
    assert_eq!(fmt_categories_plain(&t), "Uncategorized #1\nXfce\nXiaomi");
}

#[test]
fn relative_urls_become_absolute() {
    let html = r#"<a href="/title/Vim">v</a><img src="./a.png"><video poster="./p.png">"#;
    let out = update_relative_urls(html, "https://wiki.archlinux.org", "docs");
    assert_eq!(
        out,
        r#"<a href="https://wiki.archlinux.org/title/Vim">v</a><img src="https://wiki.archlinux.org/docs/a.png"><video poster="https://wiki.archlinux.orgdocs/p.png">"#
    );
}

#[test]
fn page_title_from_url() {
    assert_eq!(archwiki_url_page_title("https://wiki.archlinux.org/title/Neovim"), Some("Neovim"));
    assert_eq!(archwiki_url_page_title("Neovim"), None);
}

#[test]
fn maintenance_categories_are_blocked() {
    assert!(is_blocked_category("Pages with dead links"));
    assert!(is_blocked_category("Pages flagged with Template:Accuracy"));
    assert!(!is_blocked_category("Text editors"));
    assert!(!is_blocked_category("Pages"));
}

#[test]
fn read_path_decisions() {
    assert!(read_from_cache(false, Ok(true)));
    assert!(!read_from_cache(true, Ok(true)));
    assert!(!read_from_cache(false, Ok(false)));
    assert!(fall_back_to_cache(false, true));
    assert!(!fall_back_to_cache(true, true));
}

#[test]
fn info_table() {
    let info = AppInfo { cache_dir: "/c".to_owned(), data_dir: "/d".to_owned() };
    let only = InfoPlainArgs { show_cache_dir: true, show_data_dir: false, only_values: true };
    assert_eq!(fmt_plain(&info, only), "/c");
    let out = fmt_plain(&info, InfoPlainArgs::default());
    let lines: Vec<&str> = out.split('\n').collect();
    assert_eq!(lines.len(), 3);
    assert_eq!(lines[0], format!("{:20} | {:90} | {}", "NAME", "DESCRIPTION", "VALUE"));
    assert!(lines[2].ends_with("| /d"));
}

#[test]
fn progress_labels() {
    assert_eq!(truncate_unicode_str(3, "abcdef"), "abc");
    assert_eq!(truncate_unicode_str(3, "日本語"), "日本");
    assert_eq!(progress_label("Editors"), " fetching pages in \"Editors\"");
    assert_eq!(
        progress_label("A very long category name"),
        " fetching pages in \"A very long cat...\""
    );
}

#[test]
fn decimal_notation() {
    assert_eq!(decimal_string(0), "0");
    assert_eq!(decimal_string(1209600), "1209600");
}

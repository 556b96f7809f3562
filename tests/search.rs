use archwiki_rs::error::{InvalidApiResponse as IAR, WikiError};
use archwiki_rs::search::{
    fmt_open_search_plain, fmt_text_search_plain, open_search_is_page_exact_match,
    open_search_to_page_names, open_search_to_page_url_pairs, OpenSearchItem,
    OpenSearchItemParsed, TextSearchItem,
};

#[test]
fn test_process_open_search() {
    let valid_input = vec![
        OpenSearchItem::Single("test".to_owned()),
        OpenSearchItem::Array(vec!["name 1".to_owned(), "name 2".to_owned()]),
        OpenSearchItem::Array(vec![]),
        OpenSearchItem::Array(vec!["url 1".to_owned(), "url 2".to_owned()]),
    ];

    let missing_elements = vec![OpenSearchItem::Single("test".to_owned())];
    let not_arrays = vec![
        OpenSearchItem::Single("test".to_owned()),
        OpenSearchItem::Array(vec!["name 1".to_owned(), "name 2".to_owned()]),
        OpenSearchItem::Array(vec![]),
        OpenSearchItem::Single("invalid".to_owned()),
    ];
    let different_lengths = vec![
        OpenSearchItem::Single("test".to_owned()),
        OpenSearchItem::Array(vec!["name 1".to_owned()]),
        OpenSearchItem::Array(vec![]),
        OpenSearchItem::Array(vec!["url 1".to_owned(), "url 2".to_owned()]),
    ];

    assert_eq!(
        open_search_to_page_url_pairs(&valid_input).unwrap(),
        vec![
            OpenSearchItemParsed { title: "name 1".to_owned(), url: "url 1".to_owned() },
            OpenSearchItemParsed { title: "name 2".to_owned(), url: "url 2".to_owned() },
        ]
    );

    match open_search_to_page_url_pairs(&missing_elements).unwrap_err() {
        WikiError::InvalidApiResponse(res) => {
            assert_eq!(res, IAR::OpenSearchMissingNthElement(1));
        }
        _ => panic!("expected error to be of type 'InvalidApiResponse'"),
    }

    match open_search_to_page_url_pairs(&not_arrays).unwrap_err() {
        WikiError::InvalidApiResponse(res) => {
            assert_eq!(res, IAR::OpenSearchNthElementShouldBeArray(3));
        }
        _ => panic!("expected error to be of type 'InvalidApiResponse'"),
    }

    match open_search_to_page_url_pairs(&different_lengths).unwrap_err() {
        WikiError::InvalidApiResponse(res) => {
            assert_eq!(res, IAR::OpenSearchArraysLengthMismatch);
        }
        _ => panic!("expected error to be of type 'InvalidApiResponse'"),
    }
}

#[test]
fn test_format_open_search_table() {
    let pairs = vec![
        OpenSearchItemParsed { title: "page 1".to_owned(), url: "url 1".to_owned() },
        OpenSearchItemParsed { title: "page 2".to_owned(), url: "url 2".to_owned() },
        OpenSearchItemParsed { title: "page 3".to_owned(), url: "url 3".to_owned() },
    ];

    let res = fmt_open_search_plain(&pairs);
    let res_row_count = res.split('\n').count();
    let third_page = res.split('\n').nth(3).unwrap().split('|').next().unwrap().trim();

    assert_eq!(res_row_count, 4);
    assert_eq!(third_page, "page 3");
}

#[test]
fn test_format_text_search_table() {
    let items = vec![
        TextSearchItem { title: "page 1".to_owned(), snippet: "snippet 1".to_owned() },
        TextSearchItem { title: "page 2".to_owned(), snippet: "snippet 2".to_owned() },
        TextSearchItem { title: "page 3".to_owned(), snippet: "snippet 3".to_owned() },
        TextSearchItem { title: "page 4".to_owned(), snippet: "snippet 4".to_owned() },
    ];

    let res = fmt_text_search_plain(&items);
    let res_row_count = res.split('\n').count();
    let third_page = res.split('\n').nth(3).unwrap().split('|').nth(1).unwrap().trim();

    assert_eq!(res_row_count, 5);
    assert_eq!(third_page, "snippet 3");
}

#[test]
fn open_search_header_is_padded() {
    let res = fmt_open_search_plain(&vec![]);
    assert_eq!(res, format!("{:20} | {:90}\n", "PAGE", "URL"));
}

#[test]
fn open_search_missing_third_list() {
    let input = vec![
        OpenSearchItem::Single("q".to_owned()),
        OpenSearchItem::Array(vec!["a".to_owned()]),
    ];
    match open_search_to_page_url_pairs(&input).unwrap_err() {
        WikiError::InvalidApiResponse(res) => assert_eq!(res, IAR::OpenSearchMissingNthElement(3)),
        _ => panic!("expected error to be of type 'InvalidApiResponse'"),
    }
}

#[test]
fn open_search_names_must_be_a_list() {
    let input = vec![
        OpenSearchItem::Single("q".to_owned()),
        OpenSearchItem::Single("a".to_owned()),
        OpenSearchItem::Array(vec![]),
        OpenSearchItem::Array(vec![]),
    ];
    match open_search_to_page_url_pairs(&input).unwrap_err() {
        WikiError::InvalidApiResponse(res) => {
            assert_eq!(res, IAR::OpenSearchNthElementShouldBeArray(1))
        }
        _ => panic!("expected error to be of type 'InvalidApiResponse'"),
    }
    assert!(open_search_to_page_names(&input).is_err());
}

#[test]
fn exact_match_only_for_top_result() {
    let input = vec![
        OpenSearchItem::Single("Neovim".to_owned()),
        OpenSearchItem::Array(vec!["Neovim".to_owned(), "Vim".to_owned()]),
    ];
    assert_eq!(open_search_is_page_exact_match("Neovim", &input).unwrap(), Some("Neovim"));
    assert_eq!(open_search_is_page_exact_match("Vim", &input).unwrap(), None);
    assert_eq!(
        open_search_to_page_names(&input).unwrap(),
        vec!["Neovim".to_owned(), "Vim".to_owned()]
    );
}

#[test]
fn error_messages() {
    assert_eq!(
        IAR::OpenSearchMissingNthElement(12).message(),
        "missing element #12 in open search response"
    );
    assert_eq!(
        WikiError::InvalidApiResponse(IAR::OpenSearchNthElementShouldBeArray(3)).message(),
        "An invalid api response was received.\nERROR: expected element #3 in open search response to be an array"
    );
    assert_eq!(WikiError::NoPageFound("Vim\nNeovim".to_owned()).message(), "Vim\nNeovim");
    assert_eq!(
        WikiError::IO("disk full".to_owned()).message(),
        "An IO error occurred.\nERROR: disk full"
    );
}

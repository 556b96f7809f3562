use archwiki_rs::langs::{format_lang_table, Language};

fn langs() -> Vec<Language> {
    vec![
        Language { code: "a".into(), name: "aaa".into() },
        Language { code: "b".into(), name: "abc".into() },
        Language { code: "c".into(), name: "123".into() },
        Language { code: "2".into(), name: "fdsal".into() },
        Language { code: "1".into(), name: "hi".into() },
    ]
}

#[test]
fn langs_test_format_lang_table() {
    let res = format_lang_table(&langs());
    let res_row_count = res.split('\n').count();
    let second_code = res.split('\n').nth(2).unwrap().split('|').next().unwrap().trim();

    assert_eq!(res_row_count, 6);
    assert_eq!(second_code, "2");
}

#[test]
fn languages_test_format_lang_table() {
    let res = format_lang_table(&langs());
    let res_row_count = res.split('\n').count();
    let second_code = res.split('\n').nth(2).unwrap().split('|').next().unwrap().trim();

    assert_eq!(res_row_count, 6);
    assert_eq!(second_code, "2");
}

#[test]
fn lang_table_exact_first_row() {
    let res = format_lang_table(&langs());
    let first = res.split('\n').nth(1).unwrap();
    assert_eq!(first, format!("{:20} | {:90}", "1", "hi"));
}

use crate::args::{
    ListCategoriesArgs, ListCategoriesFmtArgs, ListLanguagesArgs, ListLanguagesFmtArgs,
    ListPagesArgs, ListPagesFmtArgs, ListPagesPlainArgs, ReadPageArgs, SearchArgs, SearchFmtArgs,
    SearchSnippetFmtArgs, WikiMetadataArgs, WikiMetadataFmtArgs,
};
use crate::formats::PageFormat;
use vstd::prelude::*;

verus! {

/// What a web front end asks to read; unset options take defaults.
#[derive(Debug)]
pub struct ReadPageWasmArgs {
    pub page: String,
    pub format: Option<PageFormat>,
    pub lang: Option<String>,
    pub show_urls: Option<bool>,
}

/// Output formats of a search, for a web front end.
#[derive(Debug, Clone, Copy, PartialEq, Eq, Structural)]
pub enum SearchFmtWasmArgs {
    JsonPretty,
    JsonRaw,
    Plain,
}

/// What a web front end asks to search; unset options take defaults.
#[derive(Debug)]
pub struct SearchWasmArgs {
    pub search: String,
    pub lang: Option<String>,
    pub limit: Option<u16>,
    pub text_search: Option<bool>,
    pub fmt: Option<SearchFmtWasmArgs>,
}

/// Output formats of the metadata, for a web front end.
#[derive(Debug, Clone, Copy, PartialEq, Eq, Structural)]
pub enum WikiMetadataFmtWasmArgs {
    JsonPretty,
    JsonRaw,
    Yaml,
}

/// How a web front end wants the metadata.
#[derive(Debug, Clone, Copy)]
pub struct WikiMetadataWasmArgs {
    pub fmt: Option<WikiMetadataFmtWasmArgs>,
}

/// Options of the plain page list, for a web front end.
#[derive(Debug)]
pub struct ListPagesPlainWasmArgs {
    pub flatten: Option<bool>,
    pub categories: Option<Vec<String>>,
}

/// JSON options of a list, for a web front end.
#[derive(Debug, Clone, Copy)]
pub struct ListPagesJsonWasmArgs {
    pub json: Option<bool>,
    pub json_raw: Option<bool>,
}

/// How a web front end wants the page list.
#[derive(Debug)]
pub struct ListPagesWasmArgs {
    pub args_plain: Option<ListPagesPlainWasmArgs>,
    pub args_json: Option<ListPagesJsonWasmArgs>,
}

/// Plain option of the category list, for a web front end.
#[derive(Debug, Clone, Copy)]
pub struct ListCategoriesPlainWasmArgs {
    pub plain: Option<bool>,
}

/// JSON options of the category list, for a web front end.
#[derive(Debug, Clone, Copy)]
pub struct ListCategoriesJsonWasmArgs {
    pub json: Option<bool>,
    pub json_raw: Option<bool>,
}

/// How a web front end wants the category list.
#[derive(Debug, Clone, Copy)]
pub struct ListCategoriesWasmArgs {
    pub args_plain: Option<ListCategoriesPlainWasmArgs>,
    pub args_json: Option<ListCategoriesJsonWasmArgs>,
}

/// Plain option of the language list, for a web front end.
#[derive(Debug, Clone, Copy)]
pub struct ListLanguagesPlainWasmArgs {
    pub plain: Option<bool>,
}

/// JSON options of the language list, for a web front end.
#[derive(Debug, Clone, Copy)]
pub struct ListLanguagesJsonWasmArgs {
    pub json: Option<bool>,
    pub json_raw: Option<bool>,
}

/// How a web front end wants the language list.
#[derive(Debug, Clone, Copy)]
pub struct ListLanguagesWasmArgs {
    pub args_plain: Option<ListLanguagesPlainWasmArgs>,
    pub args_json: Option<ListLanguagesJsonWasmArgs>,
}

/// The value of an optional switch, `false` when unset.
pub open spec fn flag(b: Option<bool>) -> bool {
    match b {
        Some(v) => v,
        None => false,
    }
}

fn flag_value(b: Option<bool>) -> (r: bool)
    ensures
        r == flag(b),
{
    match b {
        Some(v) => v,
        None => false,
    }
}

/// The JSON choice of a web front end: raw JSON when nothing is said.
/// 1 is raw JSON, 2 pretty JSON, 0 plain text.
pub open spec fn wasm_json_choice(json: Option<bool>, json_raw: Option<bool>, given: bool) -> u8 {
    if !given {
        1
    } else if flag(json_raw) {
        1
    } else if flag(json) {
        2
    } else {
        0
    }
}

fn json_choice_of(json: Option<bool>, json_raw: Option<bool>, given: bool) -> (r: u8)
    ensures
        r == wasm_json_choice(json, json_raw, given),
{
    if !given {
        1
    } else if flag_value(json_raw) {
        1
    } else if flag_value(json) {
        2
    } else {
        0
    }
}

impl ReadPageWasmArgs {
    pub fn new(page: String, format: Option<PageFormat>, lang: Option<String>, show_urls: Option<bool>) -> (r: Self)
        ensures
            r.page == page,
            r.format == format,
            r.lang == lang,
            r.show_urls == show_urls,
    {
        ReadPageWasmArgs { page, format, lang, show_urls }
    }
}

impl ReadPageArgs {
    /// The read a web front end asks for: HTML, English and no links
    /// unless said otherwise.
    pub fn from_wasm(args: ReadPageWasmArgs) -> (r: ReadPageArgs)
        ensures
            r.page == args.page,
            r.format == match args.format {
                Some(f) => f,
                None => PageFormat::Html,
            },
            r.lang@ == match args.lang {
                Some(l) => l@,
                None => "en"@,
            },
            r.show_urls == flag(args.show_urls),
    {
        let format = match args.format {
            Some(f) => f,
            None => PageFormat::Html,
        };
        let lang = match args.lang {
            Some(l) => l,
            None => String::from_str("en"),
        };
        ReadPageArgs { page: args.page, format, lang, show_urls: flag_value(args.show_urls) }
    }
}

impl SearchWasmArgs {
    pub fn new(
        search: String,
        lang: Option<String>,
        limit: Option<u16>,
        text_search: Option<bool>,
        fmt: Option<SearchFmtWasmArgs>,
    ) -> (r: Self)
        ensures
            r.search == search,
            r.lang == lang,
            r.limit == limit,
            r.text_search == text_search,
            r.fmt == fmt,
    {
        SearchWasmArgs { search, lang, limit, text_search, fmt }
    }
}

impl SearchArgs {
    /// The search a web front end asks for: English, five results, by
    /// title and as raw JSON unless said otherwise.
    pub fn from_wasm(args: SearchWasmArgs) -> (r: SearchArgs)
        ensures
            r.search == args.search,
            r.lang@ == match args.lang {
                Some(l) => l@,
                None => "en"@,
            },
            r.limit == match args.limit {
                Some(l) => l,
                None => 5,
            },
            r.text_search == flag(args.text_search),
            r.fmt == match args.fmt {
                Some(SearchFmtWasmArgs::Plain) => SearchFmtArgs::Plain,
                Some(SearchFmtWasmArgs::JsonPretty) => SearchFmtArgs::JsonPretty,
                _ => SearchFmtArgs::JsonRaw,
            },
            r.text_snippet_fmt == SearchSnippetFmtArgs::Plain,
            !r.no_highlight_snippet,
    {
        let lang = match args.lang {
            Some(l) => l,
            None => String::from_str("en"),
        };
        let limit = match args.limit {
            Some(l) => l,
            None => 5,
        };
        let fmt = match args.fmt {
            Some(SearchFmtWasmArgs::Plain) => SearchFmtArgs::Plain,
            Some(SearchFmtWasmArgs::JsonPretty) => SearchFmtArgs::JsonPretty,
            _ => SearchFmtArgs::JsonRaw,
        };
        SearchArgs {
            search: args.search,
            lang,
            limit,
            text_search: flag_value(args.text_search),
            fmt,
            text_snippet_fmt: SearchSnippetFmtArgs::Plain,
            no_highlight_snippet: false,
        }
    }
}

impl WikiMetadataArgs {
    /// The metadata a web front end asks for: raw JSON unless said
    /// otherwise, without progress output.
    pub fn from_wasm(args: WikiMetadataWasmArgs) -> (r: WikiMetadataArgs)
        ensures
            r.hide_progress,
            r.fmt == match args.fmt {
                Some(WikiMetadataFmtWasmArgs::Yaml) => WikiMetadataFmtArgs::Yaml,
                Some(WikiMetadataFmtWasmArgs::JsonPretty) => WikiMetadataFmtArgs::JsonPretty,
                _ => WikiMetadataFmtArgs::JsonRaw,
            },
    {
        let fmt = match args.fmt {
            Some(WikiMetadataFmtWasmArgs::Yaml) => WikiMetadataFmtArgs::Yaml,
            Some(WikiMetadataFmtWasmArgs::JsonPretty) => WikiMetadataFmtArgs::JsonPretty,
            _ => WikiMetadataFmtArgs::JsonRaw,
        };
        WikiMetadataArgs { hide_progress: true, fmt }
    }
}

impl ListPagesArgs {
    /// The page list a web front end asks for: plain when plain options are
    /// given, else JSON (raw unless said otherwise).
    pub fn from_wasm(args: ListPagesWasmArgs) -> (r: ListPagesArgs)
        ensures
            r.fmt == if args.args_plain is Some {
                ListPagesFmtArgs::Plain
            } else {
                match args.args_json {
                    Some(j) => {
                        let c = wasm_json_choice(j.json, j.json_raw, true);
                        if c == 1 {
                            ListPagesFmtArgs::JsonRaw
                        } else if c == 2 {
                            ListPagesFmtArgs::JsonPretty
                        } else {
                            ListPagesFmtArgs::Plain
                        }
                    },
                    None => ListPagesFmtArgs::JsonRaw,
                }
            },
            match args.args_plain {
                Some(p) => r.args_plain is Some && r.args_plain->Some_0.flatten == flag(p.flatten)
                    && r.args_plain->Some_0.categories@ == match p.categories {
                    Some(c) => c@,
                    None => Seq::empty(),
                },
                None => r.args_plain is None,
            },
    {
        let plain_given = args.args_plain.is_some();
        let fmt = if plain_given {
            ListPagesFmtArgs::Plain
        } else {
            let c = match args.args_json {
                Some(j) => json_choice_of(j.json, j.json_raw, true),
                None => json_choice_of(None, None, false),
            };
            if c == 1 {
                ListPagesFmtArgs::JsonRaw
            } else if c == 2 {
                ListPagesFmtArgs::JsonPretty
            } else {
                ListPagesFmtArgs::Plain
            }
        };
        let args_plain = match args.args_plain {
            Some(p) => {
                let categories = match p.categories {
                    Some(c) => c,
                    None => Vec::new(),
                };
                Some(ListPagesPlainArgs { flatten: flag_value(p.flatten), categories })
            },
            None => None,
        };
        ListPagesArgs { fmt, args_plain }
    }
}

impl ListCategoriesArgs {
    /// The category list a web front end asks for: plain when asked, else
    /// JSON (raw unless said otherwise).
    pub fn from_wasm(args: ListCategoriesWasmArgs) -> (r: ListCategoriesArgs)
        ensures
            r.fmt == if args.args_plain is Some && flag(args.args_plain->Some_0.plain) {
                ListCategoriesFmtArgs::Plain
            } else {
                match args.args_json {
                    Some(j) => {
                        let c = wasm_json_choice(j.json, j.json_raw, true);
                        if c == 1 {
                            ListCategoriesFmtArgs::JsonRaw
                        } else if c == 2 {
                            ListCategoriesFmtArgs::JsonPretty
                        } else {
                            ListCategoriesFmtArgs::Plain
                        }
                    },
                    None => ListCategoriesFmtArgs::JsonRaw,
                }
            },
    {
        let plain = match args.args_plain {
            Some(p) => flag_value(p.plain),
            None => false,
        };
        let fmt = if plain {
            ListCategoriesFmtArgs::Plain
        } else {
            let c = match args.args_json {
                Some(j) => json_choice_of(j.json, j.json_raw, true),
                None => json_choice_of(None, None, false),
            };
            if c == 1 {
                ListCategoriesFmtArgs::JsonRaw
            } else if c == 2 {
                ListCategoriesFmtArgs::JsonPretty
            } else {
                ListCategoriesFmtArgs::Plain
            }
        };
        ListCategoriesArgs { fmt }
    }
}

impl ListLanguagesArgs {
    /// The language list a web front end asks for: plain when asked, else
    /// JSON (raw unless said otherwise).
    pub fn from_wasm(args: ListLanguagesWasmArgs) -> (r: ListLanguagesArgs)
        ensures
            r.fmt == if args.args_plain is Some && flag(args.args_plain->Some_0.plain) {
                ListLanguagesFmtArgs::Plain
            } else {
                match args.args_json {
                    Some(j) => {
                        let c = wasm_json_choice(j.json, j.json_raw, true);
                        if c == 1 {
                            ListLanguagesFmtArgs::JsonRaw
                        } else if c == 2 {
                            ListLanguagesFmtArgs::JsonPretty
                        } else {
                            ListLanguagesFmtArgs::Plain
                        }
                    },
                    None => ListLanguagesFmtArgs::JsonRaw,
                }
            },
    {
        let plain = match args.args_plain {
            Some(p) => flag_value(p.plain),
            None => false,
        };
        let fmt = if plain {
            ListLanguagesFmtArgs::Plain
        } else {
            let c = match args.args_json {
                Some(j) => json_choice_of(j.json, j.json_raw, true),
                None => json_choice_of(None, None, false),
            };
            if c == 1 {
                ListLanguagesFmtArgs::JsonRaw
            } else if c == 2 {
                ListLanguagesFmtArgs::JsonPretty
            } else {
                ListLanguagesFmtArgs::Plain
            }
        };
        ListLanguagesArgs { fmt }
    }
}

} // verus!

use crate::formats::PageFormat;
use vstd::prelude::*;

verus! {

/// Output formats of a search.
#[derive(Debug, Clone, Copy, PartialEq, Eq, Structural)]
pub enum SearchFmtArgs {
    JsonPretty,
    JsonRaw,
    Plain,
}

/// How the snippets of a text search are formatted.
#[derive(Debug, Clone, Copy, PartialEq, Eq, Structural)]
pub enum SearchSnippetFmtArgs {
    Plain,
    Markdown,
    Html,
}

/// Output formats of the wiki metadata.
#[derive(Debug, Clone, Copy, PartialEq, Eq, Structural)]
pub enum WikiMetadataFmtArgs {
    JsonPretty,
    JsonRaw,
    Yaml,
}

/// Output formats of the page list.
#[derive(Debug, Clone, Copy, PartialEq, Eq, Structural)]
pub enum ListPagesFmtArgs {
    JsonPretty,
    JsonRaw,
    Plain,
}

/// Output formats of the category list.
#[derive(Debug, Clone, Copy, PartialEq, Eq, Structural)]
pub enum ListCategoriesFmtArgs {
    JsonPretty,
    JsonRaw,
    Plain,
}

/// Output formats of the language list.
#[derive(Debug, Clone, Copy, PartialEq, Eq, Structural)]
pub enum ListLanguagesFmtArgs {
    JsonPretty,
    JsonRaw,
    Plain,
}

/// Output formats of the program information.
#[derive(Debug, Clone, Copy, PartialEq, Eq, Structural)]
pub enum InfoFmtArgs {
    JsonPretty,
    JsonRaw,
    Plain,
}

/// What to read and how to render it.
#[derive(Debug)]
pub struct ReadPageArgs {
    pub page: String,
    pub format: PageFormat,
    pub lang: String,
    pub show_urls: bool,
}

/// What to search for and how to show the results.
#[derive(Debug)]
pub struct SearchArgs {
    pub search: String,
    pub lang: String,
    pub limit: u16,
    pub text_search: bool,
    pub fmt: SearchFmtArgs,
    pub text_snippet_fmt: SearchSnippetFmtArgs,
    pub no_highlight_snippet: bool,
}

/// How to fetch and show the wiki metadata.
#[derive(Debug, Clone, Copy)]
pub struct WikiMetadataArgs {
    pub hide_progress: bool,
    pub fmt: WikiMetadataFmtArgs,
}

/// Options of the plain page list.
#[derive(Debug, Default)]
pub struct ListPagesPlainArgs {
    pub flatten: bool,
    pub categories: Vec<String>,
}

/// How to list the pages.
#[derive(Debug)]
pub struct ListPagesArgs {
    pub fmt: ListPagesFmtArgs,
    pub args_plain: Option<ListPagesPlainArgs>,
}

/// How to list the categories.
#[derive(Debug, Clone, Copy)]
pub struct ListCategoriesArgs {
    pub fmt: ListCategoriesFmtArgs,
}

/// How to list the languages.
#[derive(Debug, Clone, Copy)]
pub struct ListLanguagesArgs {
    pub fmt: ListLanguagesFmtArgs,
}

/// Which information to show, plainly.
#[derive(Debug, Clone, Copy, Default)]
pub struct InfoPlainArgs {
    pub show_cache_dir: bool,
    pub show_data_dir: bool,
    pub only_values: bool,
}

/// How to show the program information.
#[derive(Debug, Clone, Copy)]
pub struct InfoArgs {
    pub fmt: InfoFmtArgs,
    pub args_plain: Option<InfoPlainArgs>,
}

/// Command-line arguments of `read-page`.
#[derive(Debug)]
pub struct ReadPageCliArgs {
    pub no_cache_write: bool,
    pub ignore_cache: bool,
    pub disable_cache_invalidation: bool,
    pub show_urls: bool,
    pub lang: String,
    pub format: PageFormat,
    pub page: String,
}

/// Command-line arguments of `search`.
#[derive(Debug)]
pub struct SearchCliArgs {
    pub search: String,
    pub lang: String,
    pub limit: u16,
    pub text_search: bool,
    pub args_json: Option<SearchJsonCliArgs>,
}

/// Command-line switches for JSON search output.
#[derive(Debug, Clone, Copy)]
pub struct SearchJsonCliArgs {
    pub json: bool,
    pub json_raw: bool,
}

/// Command-line arguments of `list-pages`.
#[derive(Debug)]
pub struct ListPagesCliArgs {
    pub page_file: Option<String>,
    pub args_plain: Option<ListPagesPlainCliArgs>,
    pub args_json: Option<ListPagesJsonCliArgs>,
}

/// Command-line switches for the plain page list.
#[derive(Debug)]
pub struct ListPagesPlainCliArgs {
    pub flatten: bool,
    pub categories: Vec<String>,
}

/// Command-line switches for JSON page lists.
#[derive(Debug, Clone, Copy)]
pub struct ListPagesJsonCliArgs {
    pub json: bool,
    pub json_raw: bool,
}

/// Command-line arguments of `list-categories`.
#[derive(Debug)]
pub struct ListCategoriesCliArgs {
    pub page_file: Option<String>,
    pub args_json: Option<ListCategoriesJsonCliArgs>,
}

/// Command-line switches for JSON category lists.
#[derive(Debug, Clone, Copy)]
pub struct ListCategoriesJsonCliArgs {
    pub json: bool,
    pub json_raw: bool,
}

/// Command-line arguments of `list-languages`.
#[derive(Debug, Clone, Copy)]
pub struct ListLanguagesCliArgs {
    pub args_json: Option<ListLanguagesJsonCliArgs>,
}

/// Command-line switches for JSON language lists.
#[derive(Debug, Clone, Copy)]
pub struct ListLanguagesJsonCliArgs {
    pub json: bool,
    pub json_raw: bool,
}

/// Command-line arguments of `sync-wiki`.
#[derive(Debug)]
pub struct WikiMetadataCliArgs {
    pub hide_progress: bool,
    pub print: bool,
    pub out_file: Option<String>,
    pub args_yaml: Option<WikiMetdataYamlCliArgs>,
    pub args_json: Option<WikiMetadtaJsonCliArgs>,
}

/// Command-line switch for YAML metadata.
#[derive(Debug, Clone, Copy)]
pub struct WikiMetdataYamlCliArgs {
    pub yaml: bool,
}

/// Command-line switches for JSON metadata.
#[derive(Debug, Clone, Copy)]
pub struct WikiMetadtaJsonCliArgs {
    pub json: bool,
    pub json_raw: bool,
}

/// Command-line arguments of `sync-wiki`, without format choice.
#[derive(Debug)]
pub struct SyncWikiCliArgs {
    pub hide_progress: bool,
    pub print: bool,
    pub out_file: Option<String>,
}

/// Command-line arguments of `local-wiki`.
#[derive(Debug)]
pub struct LocalWikiCliArgs {
    pub thread_count: Option<usize>,
    pub page_file: Option<String>,
    pub hide_progress: bool,
    pub show_urls: bool,
    pub override_existing_files: bool,
    pub format: PageFormat,
    pub location: String,
}

/// Command-line arguments of `info`.
#[derive(Debug, Clone, Copy)]
pub struct InfoCliArgs {
    pub args_plain: Option<InfoPlainCliArgs>,
    pub args_json: Option<InfoJsonCliArgs>,
}

/// Command-line switches for plain information.
#[derive(Debug, Clone, Copy)]
pub struct InfoPlainCliArgs {
    pub show_cache_dir: bool,
    pub show_data_dir: bool,
    pub only_values: bool,
}

/// Command-line switches for JSON information.
#[derive(Debug, Clone, Copy)]
pub struct InfoJsonCliArgs {
    pub json: bool,
    pub json_raw: bool,
}

impl Default for ReadPageArgs {
    fn default() -> (r: Self)
        ensures
            r.page@.len() == 0,
            r.format == PageFormat::PlainText,
            r.lang@ == "en"@,
            !r.show_urls,
    {
        ReadPageArgs {
            page: String::new(),
            format: PageFormat::PlainText,
            lang: String::from_str("en"),
            show_urls: false,
        }
    }
}

impl Default for SearchArgs {
    fn default() -> (r: Self)
        ensures
            r.search@.len() == 0,
            r.lang@ == "en"@,
            r.limit == 5,
            !r.text_search,
            r.fmt == SearchFmtArgs::Plain,
            r.text_snippet_fmt == SearchSnippetFmtArgs::Plain,
            !r.no_highlight_snippet,
    {
        SearchArgs {
            search: String::new(),
            lang: String::from_str("en"),
            limit: 5,
            text_search: false,
            fmt: SearchFmtArgs::Plain,
            text_snippet_fmt: SearchSnippetFmtArgs::Plain,
            no_highlight_snippet: false,
        }
    }
}

/// The search format the JSON switches choose: raw JSON before pretty
/// JSON; plain text without them.
pub open spec fn search_fmt_of(value: Option<SearchJsonCliArgs>) -> SearchFmtArgs {
    match value {
        Some(args) => if args.json_raw {
            SearchFmtArgs::JsonRaw
        } else {
            SearchFmtArgs::JsonPretty
        },
        None => SearchFmtArgs::Plain,
    }
}

/// The format the plain and JSON switches choose: plain when asked for,
/// then raw JSON, then pretty JSON, else plain.
pub open spec fn json_choice(plain: bool, json: Option<(bool, bool)>) -> u8 {
    if plain {
        0
    } else {
        match json {
            Some((pretty, raw)) => if raw {
                1
            } else if pretty {
                2
            } else {
                0
            },
            None => 0,
        }
    }
}

fn choose_json(plain: bool, json: bool, json_raw: bool, present: bool) -> (r: u8)
    ensures
        r == json_choice(
            plain,
            if present {
                Some((json, json_raw))
            } else {
                None
            },
        ),
{
    if plain {
        0
    } else if present && json_raw {
        1
    } else if present && json {
        2
    } else {
        0
    }
}

impl SearchFmtArgs {
    /// The format the JSON switches choose.
    pub fn from_cli(value: Option<SearchJsonCliArgs>) -> (r: SearchFmtArgs)
        ensures
            r == search_fmt_of(value),
    {
        match value {
            Some(args) => if args.json_raw {
                SearchFmtArgs::JsonRaw
            } else {
                SearchFmtArgs::JsonPretty
            },
            None => SearchFmtArgs::Plain,
        }
    }
}

impl SearchArgs {
    /// The search the command line asks for, with plain, highlighted snippets.
    pub fn from_cli(args: SearchCliArgs) -> (r: SearchArgs)
        ensures
            r.search == args.search,
            r.lang == args.lang,
            r.limit == args.limit,
            r.text_search == args.text_search,
            r.fmt == search_fmt_of(args.args_json),
            r.text_snippet_fmt == SearchSnippetFmtArgs::Plain,
            !r.no_highlight_snippet,
    {
        SearchArgs {
            search: args.search,
            lang: args.lang,
            limit: args.limit,
            text_search: args.text_search,
            fmt: SearchFmtArgs::from_cli(args.args_json),
            text_snippet_fmt: SearchSnippetFmtArgs::Plain,
            no_highlight_snippet: false,
        }
    }
}

impl ListPagesFmtArgs {
    /// The format the plain and JSON switches choose.
    pub fn from_cli(plain: bool, json: Option<ListPagesJsonCliArgs>) -> (r: ListPagesFmtArgs)
        ensures
            json_choice(
                plain,
                match json {
                    Some(a) => Some((a.json, a.json_raw)),
                    None => None,
                },
            ) == 1 ==> r == ListPagesFmtArgs::JsonRaw,
            json_choice(
                plain,
                match json {
                    Some(a) => Some((a.json, a.json_raw)),
                    None => None,
                },
            ) == 2 ==> r == ListPagesFmtArgs::JsonPretty,
            json_choice(
                plain,
                match json {
                    Some(a) => Some((a.json, a.json_raw)),
                    None => None,
                },
            ) == 0 ==> r == ListPagesFmtArgs::Plain,
    {
        let c = match json {
            Some(a) => choose_json(plain, a.json, a.json_raw, true),
            None => choose_json(plain, false, false, false),
        };
        if c == 1 {
            ListPagesFmtArgs::JsonRaw
        } else if c == 2 {
            ListPagesFmtArgs::JsonPretty
        } else {
            ListPagesFmtArgs::Plain
        }
    }
}

impl ListPagesArgs {
    /// The page list the command line asks for.
    pub fn from_cli(args: ListPagesCliArgs) -> (r: ListPagesArgs)
        ensures
            r.fmt == if args.args_plain is Some {
                ListPagesFmtArgs::Plain
            } else {
                match args.args_json {
                    Some(a) => if a.json_raw {
                        ListPagesFmtArgs::JsonRaw
                    } else if a.json {
                        ListPagesFmtArgs::JsonPretty
                    } else {
                        ListPagesFmtArgs::Plain
                    },
                    None => ListPagesFmtArgs::Plain,
                }
            },
            match args.args_plain {
                Some(p) => r.args_plain is Some && r.args_plain->Some_0.flatten == p.flatten
                    && r.args_plain->Some_0.categories == p.categories,
                None => r.args_plain is None,
            },
    {
        let fmt = ListPagesFmtArgs::from_cli(args.args_plain.is_some(), args.args_json);
        let args_plain = match args.args_plain {
            Some(p) => Some(ListPagesPlainArgs { flatten: p.flatten, categories: p.categories }),
            None => None,
        };
        ListPagesArgs { fmt, args_plain }
    }
}

impl ListCategoriesArgs {
    /// The category list the command line asks for.
    pub fn from_cli(args: ListCategoriesCliArgs) -> (r: ListCategoriesArgs)
        ensures
            r.fmt == match args.args_json {
                Some(a) => if a.json_raw {
                    ListCategoriesFmtArgs::JsonRaw
                } else if a.json {
                    ListCategoriesFmtArgs::JsonPretty
                } else {
                    ListCategoriesFmtArgs::Plain
                },
                None => ListCategoriesFmtArgs::Plain,
            },
    {
        let fmt = match args.args_json {
            Some(a) => if a.json_raw {
                ListCategoriesFmtArgs::JsonRaw
            } else if a.json {
                ListCategoriesFmtArgs::JsonPretty
            } else {
                ListCategoriesFmtArgs::Plain
            },
            None => ListCategoriesFmtArgs::Plain,
        };
        ListCategoriesArgs { fmt }
    }
}

impl ListLanguagesArgs {
    /// The language list the command line asks for.
    pub fn from_cli(args: ListLanguagesCliArgs) -> (r: ListLanguagesArgs)
        ensures
            r.fmt == match args.args_json {
                Some(a) => if a.json_raw {
                    ListLanguagesFmtArgs::JsonRaw
                } else if a.json {
                    ListLanguagesFmtArgs::JsonPretty
                } else {
                    ListLanguagesFmtArgs::Plain
                },
                None => ListLanguagesFmtArgs::Plain,
            },
    {
        let fmt = match args.args_json {
            Some(a) => if a.json_raw {
                ListLanguagesFmtArgs::JsonRaw
            } else if a.json {
                ListLanguagesFmtArgs::JsonPretty
            } else {
                ListLanguagesFmtArgs::Plain
            },
            None => ListLanguagesFmtArgs::Plain,
        };
        ListLanguagesArgs { fmt }
    }
}

impl WikiMetadataArgs {
    /// The metadata output the command line asks for: YAML unless a JSON
    /// switch is given without the YAML one.
    pub fn from_cli(args: WikiMetadataCliArgs) -> (r: WikiMetadataArgs)
        ensures
            r.hide_progress == args.hide_progress,
            r.fmt == if args.args_yaml is Some && args.args_yaml->Some_0.yaml {
                WikiMetadataFmtArgs::Yaml
            } else {
                match args.args_json {
                    Some(a) => if a.json_raw {
                        WikiMetadataFmtArgs::JsonRaw
                    } else if a.json {
                        WikiMetadataFmtArgs::JsonPretty
                    } else {
                        WikiMetadataFmtArgs::Yaml
                    },
                    None => WikiMetadataFmtArgs::Yaml,
                }
            },
    {
        let yaml = match args.args_yaml {
            Some(y) => y.yaml,
            None => false,
        };
        let fmt = if yaml {
            WikiMetadataFmtArgs::Yaml
        } else {
            match args.args_json {
                Some(a) => if a.json_raw {
                    WikiMetadataFmtArgs::JsonRaw
                } else if a.json {
                    WikiMetadataFmtArgs::JsonPretty
                } else {
                    WikiMetadataFmtArgs::Yaml
                },
                None => WikiMetadataFmtArgs::Yaml,
            }
        };
        WikiMetadataArgs { hide_progress: args.hide_progress, fmt }
    }
}

impl InfoArgs {
    /// The information output the command line asks for.
    pub fn from_cli(args: InfoCliArgs) -> (r: InfoArgs)
        ensures
            r.fmt == if args.args_plain is Some {
                InfoFmtArgs::Plain
            } else {
                match args.args_json {
                    Some(a) => if a.json_raw {
                        InfoFmtArgs::JsonRaw
                    } else if a.json {
                        InfoFmtArgs::JsonPretty
                    } else {
                        InfoFmtArgs::Plain
                    },
                    None => InfoFmtArgs::Plain,
                }
            },
            match args.args_plain {
                Some(p) => r.args_plain == Some(
                    InfoPlainArgs {
                        show_cache_dir: p.show_cache_dir,
                        show_data_dir: p.show_data_dir,
                        only_values: p.only_values,
                    },
                ),
                None => r.args_plain is None,
            },
    {
        let fmt = match args.args_plain {
            Some(_) => InfoFmtArgs::Plain,
            None => match args.args_json {
                Some(a) => if a.json_raw {
                    InfoFmtArgs::JsonRaw
                } else if a.json {
                    InfoFmtArgs::JsonPretty
                } else {
                    InfoFmtArgs::Plain
                },
                None => InfoFmtArgs::Plain,
            },
        };
        let args_plain = match args.args_plain {
            Some(p) => Some(
                InfoPlainArgs {
                    show_cache_dir: p.show_cache_dir,
                    show_data_dir: p.show_data_dir,
                    only_values: p.only_values,
                },
            ),
            None => None,
        };
        InfoArgs { fmt, args_plain }
    }
}

} // verus!

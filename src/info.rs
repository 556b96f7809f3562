use crate::args::InfoPlainArgs;
use crate::text::{joined, join_strings, pad_right, padded, views};
use vstd::prelude::*;

verus! {

/// Where the program keeps its files.
#[derive(Debug)]
pub struct AppInfo {
    pub cache_dir: String,
    pub data_dir: String,
}

/// An information line: name and description padded to 20 and 90
/// characters, then the value, separated by `" | "`.
pub open spec fn info_line(name: Seq<char>, desc: Seq<char>, value: Seq<char>) -> Seq<char> {
    padded(name, 20) + " | "@ + padded(desc, 90) + " | "@ + value
}

/// The line of an entry: the value alone, or the full line.
pub open spec fn info_entry(only_values: bool, name: Seq<char>, desc: Seq<char>, value: Seq<char>) -> Seq<char> {
    if only_values {
        value
    } else {
        info_line(name, desc, value)
    }
}

/// The lines of the information table: the header unless only values are
/// asked for, then the directories asked for (both when none is).
pub open spec fn info_lines(info: AppInfo, args: InfoPlainArgs) -> Seq<Seq<char>> {
    let none_asked = !args.show_data_dir && !args.show_cache_dir;
    let header: Seq<Seq<char>> = if !args.only_values {
        seq![info_entry(args.only_values, "NAME"@, "DESCRIPTION"@, "VALUE"@)]
    } else {
        Seq::empty()
    };
    let cache: Seq<Seq<char>> = if args.show_cache_dir || none_asked {
        seq![info_entry(args.only_values, "cache directory"@, cache_description(), info.cache_dir@)]
    } else {
        Seq::empty()
    };
    let data: Seq<Seq<char>> = if args.show_data_dir || none_asked {
        seq![info_entry(args.only_values, "data directory"@, data_description(), info.data_dir@)]
    } else {
        Seq::empty()
    };
    header + cache + data
}

/// What the cache directory is for.
pub open spec fn cache_description() -> Seq<char> {
    "stores caches of ArchWiki pages after download to speed up future requests"@
}

/// What the data directory is for.
pub open spec fn data_description() -> Seq<char> {
    "stores log files and ArchWiki metadata"@
}

fn entry(only_values: bool, name: &str, desc: &str, value: &str) -> (r: String)
    ensures
        r@ == info_entry(only_values, name@, desc@, value@),
{
    if only_values {
        value.to_owned()
    } else {
        let mut r = pad_right(name, 20);
        r.append(" | ");
        r.append(pad_right(desc, 90).as_str());
        r.append(" | ");
        r.append(value);
        r
    }
}

/// The program information as a table, or as bare values.
pub fn fmt_plain(info: &AppInfo, args: InfoPlainArgs) -> (r: String)
    ensures
        r@ == joined(info_lines(*info, args), "\n"@),
{
    let none_asked = !args.show_data_dir && !args.show_cache_dir;
    let mut lines: Vec<String> = Vec::new();
    if !args.only_values {
        lines.push(entry(args.only_values, "NAME", "DESCRIPTION", "VALUE"));
    }
    let ghost after_header = views(lines@);
    if args.show_cache_dir || none_asked {
        lines.push(
            entry(
                args.only_values,
                "cache directory",
                "stores caches of ArchWiki pages after download to speed up future requests",
                info.cache_dir.as_str(),
            ),
        );
    }
    let ghost after_cache = views(lines@);
    if args.show_data_dir || none_asked {
        lines.push(
            entry(
                args.only_values,
                "data directory",
                "stores log files and ArchWiki metadata",
                info.data_dir.as_str(),
            ),
        );
    }
    assert(views(lines@) =~= info_lines(*info, args));
    join_strings(&lines, "\n")
}

} // verus!

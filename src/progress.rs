use vstd::prelude::*;

verus! {

/// The column width that unicode-width gives a character (`None` for
/// control characters).
pub uninterp spec fn char_width_of(c: char) -> Option<usize>;

/// The column width that unicode-width gives a text.
pub uninterp spec fn text_width_of(s: Seq<char>) -> usize;

/// Relies on unicode-width's `UnicodeWidthChar::width`, which depends on
/// the character alone.
#[verifier::external_body]
fn char_width(c: char) -> (r: Option<usize>)
    ensures
        r == char_width_of(c),
{
    unicode_width::UnicodeWidthChar::width(c)
}

/// Relies on unicode-width's `UnicodeWidthStr::width`, which depends on the
/// text alone.
#[verifier::external_body]
fn text_width(s: &str) -> (r: usize)
    ensures
        r == text_width_of(s@),
{
    unicode_width::UnicodeWidthStr::width(s)
}

/// Columns a character takes, control characters none.
pub open spec fn columns(c: char) -> int {
    match char_width_of(c) {
        Some(w) => w as int,
        None => 0,
    }
}

/// The leading characters of `s` taken while fewer than `n` columns are
/// used: the last one taken may pass the limit.
pub open spec fn truncated(n: int, s: Seq<char>) -> Seq<char>
    decreases s.len(),
{
    if n <= 0 || s.len() == 0 {
        Seq::empty()
    } else {
        seq![s[0]] + truncated(n - columns(s[0]), s.drop_first())
    }
}

/// Cuts `text` after the character that reaches `n` columns.
pub fn truncate_unicode_str(n: usize, text: &str) -> (r: String)
    ensures
        r@ == truncated(n as int, text@),
{
    let len = text.unicode_len();
    let mut count: usize = 0;
    let mut i: usize = 0;
    proof {
        assert(text@.skip(0) =~= text@);
    }
    while count < n && i < len
        invariant
            len == text@.len(),
            i <= len,
            count <= n,
            truncated(n as int, text@) == text@.subrange(0, i as int) + truncated(
                n - count,
                text@.skip(i as int),
            ),
        decreases len - i,
    {
        let c = text.get_char(i);
        let w = match char_width(c) {
            Some(w) => w,
            None => 0,
        };
        proof {
            let rest = text@.skip(i as int);
            assert(rest[0] == c);
            assert(rest.drop_first() =~= text@.skip(i + 1));
            assert(text@.subrange(0, i + 1) =~= text@.subrange(0, i as int) + seq![c]);
            assert(truncated(n - count, rest) == seq![c] + truncated(
                n - count - columns(c),
                text@.skip(i + 1),
            ));
            assert(w == columns(c));
            if w >= n - count {
                assert(truncated(n - count - columns(c), text@.skip(i + 1)) =~= Seq::<char>::empty());
            }
        }
        if w >= n - count {
            count = n;
            proof {
                assert(truncated(0, text@.skip(i + 1)) =~= Seq::<char>::empty());
            }
        } else {
            count = count + w;
        }
        proof {
            assert(text@.subrange(0, i as int) + (seq![c] + truncated(n - count, text@.skip(i + 1)))
                =~= text@.subrange(0, i + 1) + truncated(n - count, text@.skip(i + 1)));
        }
        i = i + 1;
    }
    proof {
        if i == len {
            assert(text@.skip(i as int) =~= Seq::<char>::empty());
        }
    }
    let r = text.substring_char(0, i).to_owned();
    r
}

/// The label of a category's progress bar: its name, cut to 18 columns, or
/// to 15 columns and an ellipsis when it is wider than 18.
pub open spec fn progress_label_of(cat: Seq<char>) -> Seq<char> {
    " fetching pages in \""@ + (if text_width_of(cat) <= 18 {
        truncated(18, cat)
    } else {
        truncated(15, cat) + "..."@
    }) + "\""@
}

/// The label of a category's progress bar.
pub fn progress_label(cat: &str) -> (r: String)
    ensures
        r@ == progress_label_of(cat@),
{
    let mut r = String::from_str(" fetching pages in \"");
    if text_width(cat) <= 18 {
        r.append(truncate_unicode_str(18, cat).as_str());
    } else {
        r.append(truncate_unicode_str(15, cat).as_str());
        r.append("...");
    }
    r.append("\"");
    r
}

} // verus!

//! Turning a queue snapshot into display pages: title canonicalization, one
//! numbered display line per track, accumulation of lines into pages, and
//! clamping of the requested page number.

use vstd::prelude::*;
use crate::strutil::{
    spec_strip_between, spec_u64_string, strip_between, u64_string, spec_concat_all,
    lemma_concat_all_push, lemma_mul_steps,
};
use crate::track::Track;

verus! {

/// A title shown in the queue listing: the first parenthesized span and then
/// the first bracketed span removed.
pub open spec fn spec_canonical_title(title: Seq<char>) -> Seq<char> {
    spec_strip_between(spec_strip_between(title, '(', ')'), '[', ']')
}

/// Removes the first `(...)` span and the first `[...]` span from a title.
pub fn canonical_title(title: &str) -> (r: String)
    ensures
        r@ == spec_canonical_title(title@),
{
    let no_paren = strip_between(title, '(', ')');
    strip_between(no_paren.as_str(), '[', ']')
}

/// One display line of the queue listing: the 1-based index, the canonical
/// title, and who requested the track, ended by a line break.
pub open spec fn spec_display_line(index: int, title: Seq<char>, requester: Seq<char>) -> Seq<
    char,
> {
    spec_u64_string(index) + ": "@ + spec_canonical_title(title) + " (Requested by: "@ + requester
        + ")\n"@
}

/// Renders the display line of the track at 1-based position `index`.
pub fn display_line(index: u64, title: &str, requester: &str) -> (r: String)
    ensures
        r@ == spec_display_line(index as int, title@, requester@),
{
    let line = u64_string(index);
    let line = line.concat(": ");
    let line = line.concat(canonical_title(title).as_str());
    let line = line.concat(" (Requested by: ");
    let line = line.concat(requester);
    line.concat(")\n")
}

/// The display lines of a whole snapshot, in queue order.
pub fn build_lines(snapshot: &Vec<Track>) -> (lines: Vec<String>)
    requires
        snapshot@.len() <= u64::MAX,
    ensures
        lines@.len() == snapshot@.len(),
        forall|k: int|
            0 <= k < snapshot@.len() ==> lines@[k]@ == spec_display_line(
                k + 1,
                snapshot@[k].title@,
                snapshot@[k].requester@,
            ),
{
    let mut lines: Vec<String> = Vec::new();
    let mut i: usize = 0;
    while i < snapshot.len()
        invariant
            snapshot@.len() <= u64::MAX,
            i <= snapshot@.len(),
            lines@.len() == i,
            forall|k: int|
                0 <= k < i ==> lines@[k]@ == spec_display_line(
                    k + 1,
                    snapshot@[k].title@,
                    snapshot@[k].requester@,
                ),
        decreases snapshot@.len() - i,
    {
        let t = &snapshot[i];
        lines.push(display_line((i as u64) + 1, t.title.as_str(), t.requester.as_str()));
        i = i + 1;
    }
    lines
}

/// The views of a sequence of strings.
pub open spec fn spec_line_views(lines: Seq<String>) -> Seq<Seq<char>> {
    lines.map_values(|s: String| s@)
}

/// The text of page `p` (0-based) when `lines` are accumulated into pages of
/// `threshold + 1` lines: the concatenation of that page's chunk of lines.
pub open spec fn spec_page_text(lines: Seq<Seq<char>>, p: int, threshold: int) -> Seq<char> {
    let chunk = threshold + 1;
    let lo = p * chunk;
    let hi = if (p + 1) * chunk <= lines.len() {
        (p + 1) * chunk
    } else {
        lines.len() as int
    };
    if 0 <= lo <= hi <= lines.len() {
        spec_concat_all(lines.subrange(lo, hi))
    } else {
        Seq::empty()
    }
}

/// Accumulates display lines into pages: a new page starts once the current
/// one already holds more than `threshold` lines, so every page but the last
/// holds exactly `threshold + 1` lines. An empty snapshot still yields one
/// (empty) page.
pub fn paginate(lines: &Vec<String>, threshold: usize) -> (pages: Vec<String>)
    requires
        threshold < usize::MAX,
    ensures
        lines@.len() == 0 ==> pages@.len() == 1,
        lines@.len() > 0 ==> 1 <= pages@.len() && (pages@.len() - 1) * (threshold + 1)
            < lines@.len() <= pages@.len() * (threshold + 1),
        forall|p: int|
            0 <= p < pages@.len() ==> pages@[p]@ == spec_page_text(
                spec_line_views(lines@),
                p,
                threshold as int,
            ),
{
    let chunk = threshold + 1;
    let ghost views = spec_line_views(lines@);
    let n = lines.len();
    let mut pages: Vec<String> = Vec::new();
    let mut description = String::new();
    let mut count: usize = 0;
    let mut i: usize = 0;
    proof {
        lemma_mul_steps(0, chunk as int);
        assert(views.subrange(0, 0) =~= Seq::<Seq<char>>::empty());
    }
    while i < n
        invariant
            n == lines@.len(),
            views == spec_line_views(lines@),
            chunk == threshold + 1,
            threshold < usize::MAX,
            count < chunk,
            i <= n,
            i == pages@.len() * chunk + count,
            description@ == spec_concat_all(views.subrange(i - count, i as int)),
            forall|p: int|
                0 <= p < pages@.len() ==> pages@[p]@ == spec_page_text(
                    views,
                    p,
                    threshold as int,
                ),
        decreases n - i,
    {
        let ghost old_pages_len = pages@.len() as int;
        let ghost old_i = i as int;
        let ghost old_count = count as int;
        description.append(lines[i].as_str());
        count = count + 1;
        i = i + 1;
        proof {
            assert(views[old_i] == lines@[old_i]@);
            lemma_concat_all_push(views.subrange(old_i - old_count, old_i), views[old_i]);
            assert(views.subrange(i - count, i as int) =~= views.subrange(
                old_i - old_count,
                old_i,
            ).push(views[old_i]));
        }
        if count > threshold {
            let ghost p = pages@.len() as int;
            proof {
                lemma_mul_steps(p, chunk as int);
                assert(description@ == spec_page_text(views, p, threshold as int));
            }
            pages.push(description);
            description = String::new();
            count = 0;
            proof {
                assert(views.subrange(i as int, i as int) =~= Seq::<Seq<char>>::empty());
            }
        }
    }
    let ghost p_old = pages@.len() as int;
    proof {
        lemma_mul_steps(p_old, chunk as int);
    }
    if pages.len() == 0 || count > 0 {
        proof {
            if n == 0 {
                assert(views.subrange(0, 0) =~= Seq::<Seq<char>>::empty());
            }
            assert(description@ == spec_page_text(views, p_old, threshold as int));
        }
        pages.push(description);
    }
    proof {
        lemma_mul_steps(pages@.len() as int, chunk as int);
    }
    pages
}

/// The value of a decimal digit character; 10 for any other character.
pub open spec fn spec_digit_val(c: char) -> int {
    if c == '0' {
        0
    } else if c == '1' {
        1
    } else if c == '2' {
        2
    } else if c == '3' {
        3
    } else if c == '4' {
        4
    } else if c == '5' {
        5
    } else if c == '6' {
        6
    } else if c == '7' {
        7
    } else if c == '8' {
        8
    } else if c == '9' {
        9
    } else {
        10
    }
}

/// `c` is a decimal digit.
pub open spec fn spec_is_digit(c: char) -> bool {
    spec_digit_val(c) < 10
}

/// The number a digit string denotes, most significant digit first.
pub open spec fn spec_digits_value(s: Seq<char>) -> int
    decreases s.len(),
{
    if s.len() == 0 {
        0
    } else {
        spec_digits_value(s.drop_last()) * 10 + spec_digit_val(s.last())
    }
}

/// A digit string never denotes a negative number.
pub proof fn lemma_digits_value_nonneg(s: Seq<char>)
    ensures
        spec_digits_value(s) >= 0,
    decreases s.len(),
{
    if s.len() > 0 {
        lemma_digits_value_nonneg(s.drop_last());
    }
}

/// Every character of `s` is a decimal digit.
pub open spec fn spec_all_digits(s: Seq<char>) -> bool {
    forall|k: int| 0 <= k < s.len() ==> spec_is_digit(s[k])
}

/// What a page argument parses to: an optional sign followed by at least one
/// digit and nothing else, with a value a 32-bit integer can hold; any other
/// argument is non-numeric.
pub open spec fn spec_parse_page(s: Seq<char>) -> Option<int> {
    let signed = s.len() > 0 && (s[0] == '-' || s[0] == '+');
    let neg = s.len() > 0 && s[0] == '-';
    let body = if signed {
        s.drop_first()
    } else {
        s
    };
    if body.len() == 0 {
        None
    } else if !spec_all_digits(body) {
        None
    } else {
        let v = if neg {
            -spec_digits_value(body)
        } else {
            spec_digits_value(body)
        };
        if i32::MIN <= v <= i32::MAX {
            Some(v)
        } else {
            None
        }
    }
}

/// The value of one decimal digit character; 10 when it is no digit.
fn digit_val(c: char) -> (d: u64)
    ensures
        d as int == spec_digit_val(c),
{
    if c == '0' {
        0
    } else if c == '1' {
        1
    } else if c == '2' {
        2
    } else if c == '3' {
        3
    } else if c == '4' {
        4
    } else if c == '5' {
        5
    } else if c == '6' {
        6
    } else if c == '7' {
        7
    } else if c == '8' {
        8
    } else if c == '9' {
        9
    } else {
        10
    }
}

/// Parses a page argument as a 32-bit number: an optional sign followed by
/// digits. `None` for anything non-numeric, an empty argument or a value out
/// of the 32-bit range.
pub fn parse_page_arg(s: &str) -> (r: Option<i32>)
    ensures
        match r {
            Some(v) => spec_parse_page(s@) == Some(v as int),
            None => spec_parse_page(s@) is None,
        },
{
    let len = s.unicode_len();
    if len == 0 {
        return None;
    }
    let first = s.get_char(0);
    let neg = first == '-';
    let start: usize = if first == '-' || first == '+' {
        1
    } else {
        0
    };
    if start == len {
        return None;
    }
    let ghost body = if start == 1 {
        s@.drop_first()
    } else {
        s@
    };
    proof {
        assert(body =~= s@.subrange(start as int, len as int));
    }
    // Magnitudes are capped just above the largest one a 32-bit number can
    // carry, so the accumulator never overflows however long the argument is.
    let sat: u64 = 2147483649;
    let mut acc: u64 = 0;
    let mut i = start;
    while i < len
        invariant
            len == s@.len(),
            len > 0,
            start <= i <= len,
            start < len,
            start <= 1,
            (start == 1) == (s@[0] == '-' || s@[0] == '+'),
            neg == (s@[0] == '-'),
            body == s@.subrange(start as int, len as int),
            sat == 2147483649,
            forall|k: int| start <= k < i ==> spec_is_digit(s@[k]),
            acc <= sat,
            ({
                let v = spec_digits_value(s@.subrange(start as int, i as int));
                if v < sat {
                    acc == v
                } else {
                    acc == sat
                }
            }),
        decreases len - i,
    {
        let c = s.get_char(i);
        let d = digit_val(c);
        if d == 10 {
            proof {
                assert(s@.drop_first() =~= s@.subrange(1, len as int));
                assert(s@.subrange(0, len as int) =~= s@);
                assert(body[i - start] == s@[i as int]);
                assert(!spec_is_digit(body[i - start]));
                assert(!spec_all_digits(body));
                assert(spec_parse_page(s@) is None);
            }
            return None;
        }
        let ghost prefix = s@.subrange(start as int, i as int);
        let ghost v = spec_digits_value(prefix);
        proof {
            lemma_digits_value_nonneg(prefix);
            assert(s@.subrange(start as int, i + 1).drop_last() =~= prefix);
            assert(s@.subrange(start as int, i + 1).last() == s@[i as int]);
        }
        if acc < sat {
            let raw = acc * 10 + d;
            if raw >= sat {
                acc = sat;
            } else {
                acc = raw;
            }
        } else {
            // The value already exceeds every 32-bit magnitude; it only grows.
        }
        i = i + 1;
    }
    proof {
        assert(s@.subrange(start as int, len as int) == body);
        lemma_digits_value_nonneg(body);
    }
    if neg {
        if acc > 2147483648 {
            None
        } else if acc == 2147483648 {
            Some(i32::MIN)
        } else {
            Some(-(acc as i32))
        }
    } else {
        if acc > 2147483647 {
            None
        } else {
            Some(acc as i32)
        }
    }
}

/// A date token escaped for display: when it holds at least 8 characters,
/// two backslashes are laid in after the year and after the month; a shorter
/// token stays as it is.
pub open spec fn spec_escaped_date(d: Seq<char>) -> Seq<char> {
    if d.len() >= 8 {
        d.subrange(0, 4) + seq!['\\', '\\'] + d.subrange(4, 6) + seq!['\\', '\\'] + d.subrange(
            6,
            d.len() as int,
        )
    } else {
        d
    }
}

/// Escapes a fixed-width date token for display.
pub fn escape_date(date: &str) -> (r: String)
    ensures
        r@ == spec_escaped_date(date@),
{
    let len = date.unicode_len();
    if len < 8 {
        return date.to_owned();
    }
    let year = date.substring_char(0, 4);
    let month = date.substring_char(4, 6);
    let day = date.substring_char(6, len);
    proof {
        reveal_strlit("\\\\");
    }
    let r = year.to_owned().concat("\\\\").concat(month).concat("\\\\").concat(day);
    proof {
        assert(r@ =~= spec_escaped_date(date@));
    }
    r
}

/// A requested page number clamped into the valid range: values at most 0
/// become 1, values above the page count become the page count.
pub open spec fn spec_clamp_page(requested: int, total: int) -> int {
    if requested <= 0 {
        1
    } else if requested > total {
        total
    } else {
        requested
    }
}

/// Clamps a requested 1-based page number into `1 ..= total`.
pub fn clamp_page(requested: i32, total: usize) -> (page: usize)
    requires
        1 <= total,
    ensures
        page as int == spec_clamp_page(requested as int, total as int),
        1 <= page <= total,
{
    if requested <= 0 {
        1
    } else {
        let r = requested as u64;
        if r > total as u64 {
            total
        } else {
            r as usize
        }
    }
}

} // verus!

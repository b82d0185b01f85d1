//! Small verified string utilities the formatter and the query classifier
//! are built on: first-occurrence search, substring containment, decimal
//! rendering of a number, and removal of the first delimited span.

use vstd::prelude::*;

verus! {

/// The first index at or after `from` where `c` occurs in `s`, or -1 when it
/// does not occur there.
pub open spec fn spec_index_of(s: Seq<char>, c: char, from: int) -> int
    decreases s.len() - from,
{
    if from < 0 || from >= s.len() {
        -1
    } else if s[from] == c {
        from
    } else {
        spec_index_of(s, c, from + 1)
    }
}

/// Finds the first occurrence of `c` in `s` at or after index `from`.
pub fn find_char_from(s: &str, c: char, from: usize) -> (r: Option<usize>)
    ensures
        match r {
            Some(i) => i as int == spec_index_of(s@, c, from as int),
            None => spec_index_of(s@, c, from as int) == -1,
        },
{
    let len = s.unicode_len();
    let mut i = from;
    while i < len
        invariant
            len == s@.len(),
            from <= i,
            spec_index_of(s@, c, from as int) == spec_index_of(s@, c, i as int),
        decreases len - i,
    {
        if s.get_char(i) == c {
            return Some(i);
        }
        i = i + 1;
    }
    None
}

/// `n` stands at position `i` of `h`.
pub open spec fn spec_matches_at(h: Seq<char>, n: Seq<char>, i: int) -> bool {
    0 <= i && i + n.len() <= h.len() && h.subrange(i, i + n.len()) == n
}

/// `n` occurs somewhere in `h`.
pub open spec fn spec_contains_seq(h: Seq<char>, n: Seq<char>) -> bool {
    exists|i: int| spec_matches_at(h, n, i)
}

/// Compares `n` against the characters of `h` starting at position `i`.
pub fn matches_at(h: &str, n: &str, i: usize) -> (r: bool)
    requires
        i + n@.len() <= h@.len(),
        h@.len() <= usize::MAX,
    ensures
        r == spec_matches_at(h@, n@, i as int),
{
    let nl = n.unicode_len();
    let mut k: usize = 0;
    while k < nl
        invariant
            nl == n@.len(),
            i + nl <= h@.len(),
            h@.len() <= usize::MAX,
            k <= nl,
            forall|j: int| 0 <= j < k ==> h@[i + j] == n@[j],
        decreases nl - k,
    {
        if h.get_char(i + k) != n.get_char(k) {
            proof {
                assert(h@.subrange(i as int, i + n@.len())[k as int] == h@[i + k]);
            }
            return false;
        }
        k = k + 1;
    }
    proof {
        assert(h@.subrange(i as int, i + n@.len()) =~= n@);
    }
    true
}

/// Whether `h` contains `n` as a contiguous substring.
pub fn str_contains(h: &str, n: &str) -> (r: bool)
    ensures
        r == spec_contains_seq(h@, n@),
{
    let hl = h.unicode_len();
    let nl = n.unicode_len();
    if nl > hl {
        return false;
    }
    let bound = hl - nl;
    let mut i: usize = 0;
    loop
        invariant
            hl == h@.len(),
            nl == n@.len(),
            nl <= hl,
            bound == hl - nl,
            i <= bound,
            forall|j: int| 0 <= j < i ==> !spec_matches_at(h@, n@, j),
        decreases bound - i,
    {
        if matches_at(h, n, i) {
            return true;
        }
        if i == bound {
            proof {
                assert forall|j: int| !spec_matches_at(h@, n@, j) by {
                    if 0 <= j && j + n@.len() <= h@.len() && j < i {
                        assert(!spec_matches_at(h@, n@, j));
                    }
                }
            }
            return false;
        }
        i = i + 1;
    }
}

/// The character that renders the decimal digit `d`.
pub open spec fn spec_digit_char(d: int) -> char
    recommends
        0 <= d < 10,
{
    if d == 0 {
        '0'
    } else if d == 1 {
        '1'
    } else if d == 2 {
        '2'
    } else if d == 3 {
        '3'
    } else if d == 4 {
        '4'
    } else if d == 5 {
        '5'
    } else if d == 6 {
        '6'
    } else if d == 7 {
        '7'
    } else if d == 8 {
        '8'
    } else {
        '9'
    }
}

/// The decimal rendering of `n`, most significant digit first, no sign and
/// no leading zero.
pub open spec fn spec_u64_string(n: int) -> Seq<char>
    recommends
        n >= 0,
    decreases n,
{
    if n < 10 {
        seq![spec_digit_char(n)]
    } else {
        spec_u64_string(n / 10) + seq![spec_digit_char(n % 10)]
    }
}

/// Renders one decimal digit.
fn digit_string(d: u64) -> (r: String)
    requires
        d < 10,
    ensures
        r@ == seq![spec_digit_char(d as int)],
{
    let digits = "0123456789";
    proof {
        reveal_strlit("0123456789");
    }
    let s = digits.substring_char(d as usize, d as usize + 1);
    proof {
        assert(s@ =~= seq![spec_digit_char(d as int)]);
    }
    s.to_owned()
}

/// Renders `n` in decimal.
pub fn u64_string(n: u64) -> (r: String)
    ensures
        r@ == spec_u64_string(n as int),
    decreases n,
{
    if n < 10 {
        digit_string(n)
    } else {
        let high = u64_string(n / 10);
        let low = digit_string(n % 10);
        high.concat(low.as_str())
    }
}

/// `s` with the first span removed that starts at the first occurrence of
/// `open` and ends at the first occurrence of `close` after it, both
/// delimiters included. When either delimiter is missing, `s` unchanged.
pub open spec fn spec_strip_between(s: Seq<char>, open_c: char, close_c: char) -> Seq<char> {
    let i = spec_index_of(s, open_c, 0);
    if i < 0 {
        s
    } else {
        let j = spec_index_of(s, close_c, i + 1);
        if j < 0 {
            s
        } else {
            s.subrange(0, i) + s.subrange(j + 1, s.len() as int)
        }
    }
}

/// Removes the first `open_c ... close_c` span, delimiters included; a
/// missing delimiter pair leaves the string unchanged.
pub fn strip_between(s: &str, open_c: char, close_c: char) -> (r: String)
    ensures
        r@ == spec_strip_between(s@, open_c, close_c),
{
    let len = s.unicode_len();
    proof {
        lemma_index_of_in_range(s@, open_c, 0);
    }
    match find_char_from(s, open_c, 0) {
        None => s.to_owned(),
        Some(i) => {
            proof {
                lemma_index_of_in_range(s@, close_c, i + 1);
            }
            match find_char_from(s, close_c, i + 1) {
                None => s.to_owned(),
                Some(j) => {
                    let head = s.substring_char(0, i);
                    let tail = s.substring_char(j + 1, len);
                    head.to_owned().concat(tail)
                },
            }
        },
    }
}

/// The concatenation of a sequence of character sequences, in order.
pub open spec fn spec_concat_all(ls: Seq<Seq<char>>) -> Seq<char>
    decreases ls.len(),
{
    if ls.len() == 0 {
        Seq::empty()
    } else {
        ls[0] + spec_concat_all(ls.drop_first())
    }
}

/// Appending one more piece extends the concatenation at its end.
pub proof fn lemma_concat_all_push(ls: Seq<Seq<char>>, x: Seq<char>)
    ensures
        spec_concat_all(ls.push(x)) == spec_concat_all(ls) + x,
    decreases ls.len(),
{
    if ls.len() == 0 {
        assert(ls.push(x).drop_first() =~= Seq::<Seq<char>>::empty());
        assert(ls.push(x)[0] == x);
        assert(spec_concat_all(ls.push(x)) == x + spec_concat_all(Seq::<Seq<char>>::empty()));
        assert(spec_concat_all(ls.push(x)) =~= spec_concat_all(ls) + x);
    } else {
        lemma_concat_all_push(ls.drop_first(), x);
        assert(ls.push(x).drop_first() =~= ls.drop_first().push(x));
        assert(ls.push(x)[0] == ls[0]);
        assert(spec_concat_all(ls.push(x)) == ls[0] + spec_concat_all(ls.drop_first().push(x)));
        assert(spec_concat_all(ls.push(x)) =~= spec_concat_all(ls) + x);
    }
}

/// Products with a factor moved by one, and with a zero factor.
pub proof fn lemma_mul_steps(a: int, c: int)
    ensures
        (a + 1) * c == a * c + c,
        (a - 1) * c == a * c - c,
        0 * c == 0,
{
    assert((a + 1) * c == a * c + c && (a - 1) * c == a * c - c && 0 * c == 0)
        by (nonlinear_arith);
}

/// A found index lies within the string, at or after the starting point.
pub proof fn lemma_index_of_in_range(s: Seq<char>, c: char, from: int)
    requires
        0 <= from,
    ensures
        spec_index_of(s, c, from) == -1 || (from <= spec_index_of(s, c, from) < s.len()
            && s[spec_index_of(s, c, from)] == c),
    decreases s.len() - from,
{
    if from >= s.len() {
    } else if s[from] == c {
    } else {
        lemma_index_of_in_range(s, c, from + 1);
    }
}

} // verus!

//! Character-level text helpers.
//!
//! The configuration reader and the store-path hash extraction both work
//! on plain text. The helpers here give them verified finding, splitting,
//! trimming and line-breaking over `&str`, each specified against a direct
//! model on the string's character sequence.

use vstd::prelude::*;

verus! {

use vstd::string::StrSliceExecFns;

/// Index of the first occurrence of `c` in `s`, if any.
pub open spec fn first_index_of(s: Seq<char>, c: char) -> Option<int>
    decreases s.len(),
{
    if s.len() == 0 {
        None
    } else if s[0] == c {
        Some(0)
    } else {
        match first_index_of(s.drop_first(), c) {
            Some(i) => Some(i + 1),
            None => None,
        }
    }
}

/// `first_index_of` finds an occurrence and nothing before it, or there is
/// no occurrence at all.
pub proof fn lemma_first_index_of(s: Seq<char>, c: char)
    ensures
        match first_index_of(s, c) {
            Some(i) => {
                &&& 0 <= i < s.len()
                &&& s[i] == c
                &&& forall|j: int| 0 <= j < i ==> s[j] != c
            },
            None => forall|j: int| 0 <= j < s.len() ==> s[j] != c,
        },
    decreases s.len(),
{
    if s.len() > 0 && s[0] != c {
        let rest = s.drop_first();
        lemma_first_index_of(rest, c);
        assert(forall|j: int| 1 <= j < s.len() ==> #[trigger] s[j] == rest[j - 1]);
    }
}

/// Find the first occurrence of a character.
pub fn find_char(s: &str, c: char) -> (r: Option<usize>)
    ensures
        match r {
            Some(i) => first_index_of(s@, c) == Some(i as int),
            None => first_index_of(s@, c) is None,
        },
{
    let n = s.unicode_len();
    let mut i: usize = 0;
    while i < n
        invariant
            n == s@.len(),
            i <= n,
            forall|j: int| 0 <= j < i ==> s@[j] != c,
        decreases n - i,
    {
        if s.get_char(i) == c {
            proof {
                lemma_first_index_of(s@, c);
            }
            return Some(i);
        }
        i = i + 1;
    }
    proof {
        lemma_first_index_of(s@, c);
    }
    None
}

/// The text before and after the first occurrence of `c`, or `None` when
/// `c` does not occur.
pub open spec fn split_once_spec(s: Seq<char>, c: char) -> Option<(Seq<char>, Seq<char>)> {
    match first_index_of(s, c) {
        None => None,
        Some(i) => Some((s.take(i), s.skip(i + 1))),
    }
}

/// Split at the first occurrence of `c`, dropping the separator.
pub fn split_once_char<'a>(s: &'a str, c: char) -> (r: Option<(&'a str, &'a str)>)
    ensures
        match r {
            Some((before, after)) => split_once_spec(s@, c) == Some((before@, after@)),
            None => split_once_spec(s@, c) is None,
        },
{
    let n = s.unicode_len();
    match find_char(s, c) {
        None => None,
        Some(i) => {
            proof {
                lemma_first_index_of(s@, c);
            }
            let before = s.substring_char(0, i);
            let after = s.substring_char(i + 1, n);
            proof {
                assert(before@ =~= s@.take(i as int));
                assert(after@ =~= s@.skip(i as int + 1));
            }
            Some((before, after))
        },
    }
}

/// Whether `c` counts as whitespace for trimming: the Unicode
/// `White_Space` set.
pub open spec fn is_space_char(c: char) -> bool {
    let v = c as u32;
    v == 0x20 || (0x09 <= v && v <= 0x0D) || v == 0x85 || v == 0xA0 || v == 0x1680 || (0x2000 <= v
        && v <= 0x200A) || v == 0x2028 || v == 0x2029 || v == 0x202F || v == 0x205F || v == 0x3000
}

/// Test a character for whitespace.
pub fn is_space(c: char) -> (r: bool)
    ensures
        r == is_space_char(c),
{
    let v = c as u32;
    v == 0x20 || (0x09 <= v && v <= 0x0D) || v == 0x85 || v == 0xA0 || v == 0x1680 || (0x2000 <= v
        && v <= 0x200A) || v == 0x2028 || v == 0x2029 || v == 0x202F || v == 0x205F || v == 0x3000
}

/// `s` without its leading whitespace.
pub open spec fn trim_start_spec(s: Seq<char>) -> Seq<char>
    decreases s.len(),
{
    if s.len() > 0 && is_space_char(s[0]) {
        trim_start_spec(s.drop_first())
    } else {
        s
    }
}

/// `s` without its trailing whitespace.
pub open spec fn trim_end_spec(s: Seq<char>) -> Seq<char>
    decreases s.len(),
{
    if s.len() > 0 && is_space_char(s.last()) {
        trim_end_spec(s.drop_last())
    } else {
        s
    }
}

/// `s` without leading and trailing whitespace.
pub open spec fn trim_spec(s: Seq<char>) -> Seq<char> {
    trim_end_spec(trim_start_spec(s))
}

/// Dropping a whitespace prefix: if everything before `a` is whitespace
/// and `a` is the length or a non-whitespace position, the trim starts at
/// `a`.
proof fn lemma_trim_start_at(s: Seq<char>, a: int)
    requires
        0 <= a <= s.len(),
        forall|j: int| 0 <= j < a ==> is_space_char(s[j]),
        a < s.len() ==> !is_space_char(s[a]),
    ensures
        trim_start_spec(s) == s.skip(a),
    decreases a,
{
    if a == 0 {
        assert(s.skip(0) =~= s);
    } else {
        lemma_trim_start_at(s.drop_first(), a - 1);
        assert(s.drop_first().skip(a - 1) =~= s.skip(a));
    }
}

/// Dropping a whitespace suffix: if everything after `b` is whitespace and
/// `b` is before a non-whitespace position (or `-1`), the trim ends there.
proof fn lemma_trim_end_at(s: Seq<char>, b: int)
    requires
        -1 <= b < s.len(),
        forall|j: int| b < j < s.len() ==> is_space_char(s[j]),
        b >= 0 ==> !is_space_char(s[b]),
    ensures
        trim_end_spec(s) == s.take(b + 1),
    decreases s.len(),
{
    if b + 1 == s.len() {
        assert(s.take(b + 1) =~= s);
    } else {
        lemma_trim_end_at(s.drop_last(), b);
        assert(s.drop_last().take(b + 1) =~= s.take(b + 1));
    }
}

/// Trim leading and trailing whitespace.
pub fn trim<'a>(s: &'a str) -> (r: &'a str)
    ensures
        r@ == trim_spec(s@),
{
    let n = s.unicode_len();
    let mut start: usize = 0;
    while start < n && is_space(s.get_char(start))
        invariant
            n == s@.len(),
            start <= n,
            forall|j: int| 0 <= j < start ==> is_space_char(s@[j]),
        decreases n - start,
    {
        start = start + 1;
    }
    proof {
        lemma_trim_start_at(s@, start as int);
    }
    if start == n {
        let r = s.substring_char(n, n);
        proof {
            assert(r@ =~= s@.skip(start as int));
        }
        return r;
    }
    let mut end: usize = n - 1;
    while start < end && is_space(s.get_char(end))
        invariant
            n == s@.len(),
            start <= end < n,
            forall|j: int| end < j < n ==> is_space_char(s@[j]),
            !is_space_char(s@[start as int]),
        decreases end,
    {
        end = end - 1;
    }
    let r = s.substring_char(start, end + 1);
    proof {
        let t = s@.skip(start as int);
        lemma_trim_end_at(t, end - start as int);
        assert(t.take(end + 1 - start as int) =~= s@.subrange(start as int, end as int + 1));
        assert(r@ == trim_spec(s@));
    }
    r
}

/// Whether `p` is a prefix of `s`.
pub open spec fn has_prefix(s: Seq<char>, p: Seq<char>) -> bool {
    s.len() >= p.len() && s.take(p.len() as int) == p
}

/// The text after the prefix `p`, or `None` when `s` does not start with
/// `p`.
pub fn strip_prefix_str<'a>(s: &'a str, p: &str) -> (r: Option<&'a str>)
    ensures
        r is Some <==> has_prefix(s@, p@),
        match r {
            Some(rest) => rest@ == s@.skip(p@.len() as int),
            None => true,
        },
{
    let n = s.unicode_len();
    let m = p.unicode_len();
    if n < m {
        proof {
            assert(!has_prefix(s@, p@));
        }
        return None;
    }
    let mut i: usize = 0;
    while i < m
        invariant
            n == s@.len(),
            m == p@.len(),
            m <= n,
            i <= m,
            forall|j: int| 0 <= j < i ==> s@[j] == p@[j],
        decreases m - i,
    {
        if s.get_char(i) != p.get_char(i) {
            proof {
                assert(s@.take(m as int)[i as int] != p@[i as int]);
            }
            return None;
        }
        i = i + 1;
    }
    let rest = s.substring_char(m, n);
    proof {
        assert(s@.take(m as int) =~= p@);
        assert(rest@ =~= s@.skip(m as int));
    }
    Some(rest)
}

/// Character-for-character string equality.
pub fn str_eq(a: &str, b: &str) -> (r: bool)
    ensures
        r == (a@ == b@),
{
    let n = a.unicode_len();
    let m = b.unicode_len();
    if n != m {
        return false;
    }
    let mut i: usize = 0;
    while i < n
        invariant
            n == a@.len(),
            n == b@.len(),
            i <= n,
            forall|j: int| 0 <= j < i ==> a@[j] == b@[j],
        decreases n - i,
    {
        if a.get_char(i) != b.get_char(i) {
            return false;
        }
        i = i + 1;
    }
    proof {
        assert(a@ =~= b@);
    }
    true
}

/// A line with a trailing carriage return dropped, as the line iterator
/// of the standard library yields it.
pub open spec fn strip_cr_spec(s: Seq<char>) -> Seq<char> {
    if s.len() > 0 && s.last() == '\r' {
        s.drop_last()
    } else {
        s
    }
}

/// The lines of `s`: split on `'\n'`, each line's trailing `'\r'` dropped,
/// and no empty final line for text that ends with a newline.
pub open spec fn lines_spec(s: Seq<char>) -> Seq<Seq<char>>
    decreases s.len(),
    via lines_spec_decreases
{
    if s.len() == 0 {
        Seq::empty()
    } else {
        match first_index_of(s, '\n') {
            None => seq![strip_cr_spec(s)],
            Some(i) => seq![strip_cr_spec(s.take(i))] + lines_spec(s.skip(i + 1)),
        }
    }
}

#[via_fn]
proof fn lines_spec_decreases(s: Seq<char>) {
    lemma_first_index_of(s, '\n');
}

/// The views of a vector of owned strings.
pub open spec fn string_views(v: Seq<String>) -> Seq<Seq<char>> {
    v.map_values(|s: String| s@)
}

/// Drop a trailing carriage return and take ownership of the line.
fn strip_cr_owned(s: &str) -> (r: String)
    ensures
        r@ == strip_cr_spec(s@),
{
    let n = s.unicode_len();
    if n > 0 && s.get_char(n - 1) == '\r' {
        let r = s.substring_char(0, n - 1);
        proof {
            assert(r@ =~= s@.drop_last());
        }
        r.to_owned()
    } else {
        s.to_owned()
    }
}

/// Break text into lines, like the standard library's line iterator: a
/// `'\n'` ends each line, a `'\r'` before it is dropped, and text ending
/// in a newline has no empty final line.
pub fn split_lines(s: &str) -> (r: Vec<String>)
    ensures
        string_views(r@) == lines_spec(s@),
{
    let mut out: Vec<String> = Vec::new();
    let mut rest: &str = s;
    let mut rest_len = s.unicode_len();
    while rest_len > 0
        invariant
            rest_len == rest@.len(),
            lines_spec(s@) == string_views(out@) + lines_spec(rest@),
        decreases rest_len,
    {
        let ghost prev_out = out@;
        let ghost prev_rest = rest@;
        match find_char(rest, '\n') {
            None => {
                let line = strip_cr_owned(rest);
                out.push(line);
                rest = rest.substring_char(rest_len, rest_len);
                proof {
                    assert(rest@ =~= Seq::<char>::empty());
                }
                rest_len = 0;
            },
            Some(i) => {
                proof {
                    lemma_first_index_of(prev_rest, '\n');
                }
                let head = rest.substring_char(0, i);
                let line = strip_cr_owned(head);
                out.push(line);
                rest = rest.substring_char(i + 1, rest_len);
                rest_len = rest_len - i - 1;
            },
        }
        proof {
            assert(string_views(out@) =~= string_views(prev_out).push(out@.last()@));
            assert(string_views(out@) + lines_spec(rest@) =~= string_views(prev_out)
                + (seq![out@.last()@] + lines_spec(rest@)));
            assert(seq![out@.last()@] + lines_spec(rest@) =~= lines_spec(prev_rest));
        }
    }
    proof {
        assert(lines_spec(rest@) =~= Seq::<Seq<char>>::empty());
        assert(string_views(out@) =~= lines_spec(s@));
    }
    out
}

} // verus!

//! Extraction of content hashes from store paths.
//!
//! The artifact list arrives as newline-separated store paths, one per
//! requisite of the build closure. Each path is cut down to its
//! content-hash prefix: the fourth `/`-separated field of the path, then
//! everything before the first `-`. The semantics follow the classic
//! field-cutting tool: a line without the delimiter passes through whole,
//! a line with it yields the requested field or nothing.

use vstd::prelude::*;

verus! {

use vstd::string::StrSliceExecFns;
use crate::text::{
    first_index_of, lemma_first_index_of, lines_spec, split_lines, string_views,
};

/// The `delim`-separated segments of `s`, empties kept: text without the
/// delimiter is one segment.
pub open spec fn split_all_spec(s: Seq<char>, delim: char) -> Seq<Seq<char>>
    decreases s.len(),
    via split_all_spec_decreases
{
    match first_index_of(s, delim) {
        None => seq![s],
        Some(i) => seq![s.take(i)] + split_all_spec(s.skip(i + 1), delim),
    }
}

#[via_fn]
proof fn split_all_spec_decreases(s: Seq<char>, delim: char) {
    lemma_first_index_of(s, delim);
}

/// Field number `k` (counting from zero) of `s` under delimiter `delim`,
/// as the field-cutting tool selects it: the whole text when the
/// delimiter does not occur, the `k`-th segment when it exists, and
/// nothing when the text has fewer segments.
pub open spec fn cut_field_spec(s: Seq<char>, delim: char, k: int) -> Seq<char> {
    let segments = split_all_spec(s, delim);
    if segments.len() == 1 {
        s
    } else if 0 <= k < segments.len() {
        segments[k]
    } else {
        Seq::empty()
    }
}

/// A split has at least one segment.
proof fn lemma_split_all_len(s: Seq<char>, delim: char)
    ensures
        split_all_spec(s, delim).len() >= 1,
    decreases s.len(),
{
    lemma_first_index_of(s, delim);
    match first_index_of(s, delim) {
        Some(i) => lemma_split_all_len(s.skip(i + 1), delim),
        None => {},
    }
}

/// Select one delimiter-separated field of `s`.
pub fn cut_field(s: &str, delim: char, k: usize) -> (r: String)
    ensures
        r@ == cut_field_spec(s@, delim, k as int),
{
    match crate::text::find_char(s, delim) {
        None => {
            return s.to_owned();
        },
        Some(_) => {},
    }
    let ghost segments = split_all_spec(s@, delim);
    proof {
        lemma_first_index_of(s@, delim);
        lemma_split_all_len(s@.skip(first_index_of(s@, delim).unwrap() + 1), delim);
        assert(segments.len() > 1);
    }
    let mut rest: &str = s;
    let mut rest_len = s.unicode_len();
    let mut j: usize = 0;
    let ghost mut done: Seq<Seq<char>> = Seq::empty();
    proof {
        assert(segments =~= done + split_all_spec(rest@, delim));
    }
    loop
        invariant
            rest_len == rest@.len(),
            j <= k,
            done.len() == j,
            segments.len() > 1,
            segments == split_all_spec(s@, delim),
            segments == done + split_all_spec(rest@, delim),
        decreases rest_len,
    {
        let ghost rest_segments = split_all_spec(rest@, delim);
        match crate::text::find_char(rest, delim) {
            Some(i) => {
                proof {
                    lemma_first_index_of(rest@, delim);
                    lemma_split_all_len(rest@.skip(i as int + 1), delim);
                }
                if j == k {
                    let field = rest.substring_char(0, i);
                    proof {
                        assert(field@ =~= rest@.take(i as int));
                        assert(segments[k as int] == rest_segments[0]);
                    }
                    return field.to_owned();
                }
                let next = rest.substring_char(i + 1, rest_len);
                proof {
                    assert(next@ =~= rest@.skip(i as int + 1));
                    done = done.push(rest@.take(i as int));
                    assert(segments =~= done + split_all_spec(next@, delim));
                }
                rest = next;
                rest_len = rest_len - i - 1;
                j = j + 1;
            },
            None => {
                if j == k {
                    proof {
                        assert(segments[k as int] == rest_segments[0]);
                        assert(rest_segments[0] == rest@);
                    }
                    return rest.to_owned();
                } else {
                    proof {
                        assert(segments.len() == j + 1);
                    }
                    return String::new();
                }
            },
        }
    }
}

/// The content hash of one store path line: the fourth `/`-separated
/// field, cut at the first `-`.
pub open spec fn store_hash_spec(line: Seq<char>) -> Seq<char> {
    cut_field_spec(cut_field_spec(line, '/', 3), '-', 0)
}

/// Extract the content-hash prefix from one store path.
pub fn store_path_to_hash(line: &str) -> (r: String)
    ensures
        r@ == store_hash_spec(line@),
{
    let base_name = cut_field(line, '/', 3);
    cut_field(base_name.as_str(), '-', 0)
}

/// Turn newline-separated store paths into their content hashes, one per
/// line, in order.
pub fn requisites_to_hashes(requisites: &str) -> (r: Vec<String>)
    ensures
        r@.len() == lines_spec(requisites@).len(),
        forall|i: int|
            0 <= i < r@.len() ==> r@[i]@ == store_hash_spec(lines_spec(requisites@)[i]),
{
    let lines = split_lines(requisites);
    let mut hashes: Vec<String> = Vec::new();
    let mut i: usize = 0;
    while i < lines.len()
        invariant
            string_views(lines@) == lines_spec(requisites@),
            i <= lines@.len(),
            hashes@.len() == i,
            forall|j: int|
                0 <= j < i ==> hashes@[j]@ == store_hash_spec(lines_spec(requisites@)[j]),
        decreases lines@.len() - i,
    {
        let hash = store_path_to_hash(lines[i].as_str());
        proof {
            assert(string_views(lines@)[i as int] == lines@[i as int]@);
        }
        hashes.push(hash);
        i = i + 1;
    }
    hashes
}

} // verus!

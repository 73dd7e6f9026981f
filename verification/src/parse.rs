//! Parses the raw text of one evaluator run into a `Listing`: one entry per
//! line that holds exactly two whitespace-separated tokens; any other line
//! is skipped and affects nothing else.

use vstd::prelude::*;

use crate::listing::{views_of, Listing};
use crate::model::{
    is_space, lemma_insert_keys_distinct, lemma_token_end, line_end, lines_from, listing_after,
    malformed_of, malformed_upto, parse_spec, keys_distinct, token_end, tokens_from, tokens_of,
};

verus! {

/// Whether `c` separates tokens within a line: Unicode White_Space, less
/// the line break.
fn is_space_char(c: char) -> (b: bool)
    ensures
        b == is_space(c),
{
    let u: u32 = c as u32;
    u == 0x09 || u == 0x0B || u == 0x0C || u == 0x0D || u == 0x20 || u == 0x85 || u == 0xA0
        || u == 0x1680 || (0x2000 <= u && u <= 0x200A) || u == 0x2028 || u == 0x2029 || u == 0x202F
        || u == 0x205F || u == 0x3000
}

/// End of the token starting at position `i`.
fn token_end_at(line: &str, i: usize) -> (j: usize)
    requires
        i <= line@.len(),
    ensures
        j == token_end(line@, i as int),
        i <= j <= line@.len(),
{
    let n = line.unicode_len();
    let mut j: usize = i;
    while j < n && !is_space_char(line.get_char(j))
        invariant
            i <= j <= n,
            n == line@.len(),
            token_end(line@, i as int) == token_end(line@, j as int),
        decreases n - j,
    {
        j += 1;
    }
    j
}

/// Position of the line break at or after position `i`, or the end.
fn line_end_at(s: &str, i: usize) -> (j: usize)
    requires
        i <= s@.len(),
    ensures
        j == line_end(s@, i as int),
        i <= j <= s@.len(),
{
    let n = s.unicode_len();
    let mut j: usize = i;
    while j < n && s.get_char(j) != '\n'
        invariant
            i <= j <= n,
            n == s@.len(),
            line_end(s@, i as int) == line_end(s@, j as int),
        decreases n - j,
    {
        j += 1;
    }
    j
}

/// The whitespace-separated tokens of one line.
pub fn tokenize(line: &str) -> (v: Vec<String>)
    ensures
        views_of(v@) == tokens_of(line@),
{
    let n = line.unicode_len();
    let mut v: Vec<String> = Vec::new();
    let mut i: usize = 0;
    while i < n
        invariant
            i <= n,
            n == line@.len(),
            tokens_from(line@, 0) == views_of(v@) + tokens_from(line@, i as int),
        decreases n - i,
    {
        let c = line.get_char(i);
        if is_space_char(c) {
            i += 1;
        } else {
            let j = token_end_at(line, i);
            proof {
                lemma_token_end(line@, i as int);
            }
            let ghost v0 = v@;
            let t = line.substring_char(i, j).to_owned();
            v.push(t);
            proof {
                assert(views_of(v@) =~= views_of(v0).push(line@.subrange(i as int, j as int)));
                assert(views_of(v0).push(line@.subrange(i as int, j as int)) + tokens_from(
                    line@,
                    j as int,
                ) =~= views_of(v0) + tokens_from(line@, i as int));
            }
            i = j;
        }
    }
    proof {
        assert(views_of(v@) =~= views_of(v@) + tokens_from(line@, n as int));
    }
    v
}

/// The lines of the text, split at line breaks.
pub fn split_lines(s: &str) -> (v: Vec<String>)
    ensures
        views_of(v@) == lines_from(s@, 0),
{
    let n = s.unicode_len();
    let mut v: Vec<String> = Vec::new();
    let mut i: usize = 0;
    while i < n
        invariant
            i <= n,
            n == s@.len(),
            lines_from(s@, 0) == views_of(v@) + lines_from(s@, i as int),
        decreases n - i,
    {
        let e = line_end_at(s, i);
        let ghost v0 = v@;
        let t = s.substring_char(i, e).to_owned();
        v.push(t);
        proof {
            assert(views_of(v@) =~= views_of(v0).push(s@.subrange(i as int, e as int)));
            assert(views_of(v0).push(s@.subrange(i as int, e as int)) + lines_from(s@, e + 1)
                =~= views_of(v0) + lines_from(s@, i as int));
        }
        if e < n {
            i = e + 1;
        } else {
            proof {
                assert(lines_from(s@, e + 1) =~= lines_from(s@, n as int));
            }
            i = n;
        }
    }
    proof {
        assert(views_of(v@) =~= views_of(v@) + lines_from(s@, n as int));
    }
    v
}

/// Parses one evaluator output into a listing: lines with exactly two
/// tokens become entries, first token the name, second the output path;
/// a later line with an already-seen name overwrites its path.
pub fn parse(output: &str) -> (r: Listing)
    ensures
        r@ == parse_spec(output@),
        keys_distinct(r@),
{
    let lines = split_lines(output);
    let ghost lv = views_of(lines@);
    let mut result = Listing::new();
    let m = lines.len();
    let mut i: usize = 0;
    while i < m
        invariant
            i <= m,
            m == lines@.len(),
            lv == views_of(lines@),
            lv == lines_from(output@, 0),
            result@ == listing_after(lv, i as int),
            keys_distinct(result@),
        decreases m - i,
    {
        proof {
            assert(lv[i as int] == lines@[i as int]@);
        }
        let toks = tokenize(lines[i].as_str());
        if toks.len() == 2 {
            let ghost tv = views_of(toks@);
            let first = toks[0].clone();
            let second = toks[1].clone();
            proof {
                assert(tv[0] == toks@[0]@);
                assert(tv[1] == toks@[1]@);
                lemma_insert_keys_distinct(result@, first@, second@);
            }
            result.insert(first, second);
        }
        i += 1;
    }
    result
}

/// The views of a sequence of token vectors.
pub open spec fn token_list_views(v: Seq<Vec<String>>) -> Seq<Seq<Seq<char>>> {
    v.map_values(|t: Vec<String>| views_of(t@))
}

/// The token lists of the lines that produce no entry, in input order: one
/// warning is owed per discarded line, carrying its tokens, and the caller
/// that can log is the one to emit it.
pub fn malformed_lines(output: &str) -> (v: Vec<Vec<String>>)
    ensures
        token_list_views(v@) == malformed_of(output@),
{
    let lines = split_lines(output);
    let ghost lv = views_of(lines@);
    let mut v: Vec<Vec<String>> = Vec::new();
    let m = lines.len();
    let mut i: usize = 0;
    while i < m
        invariant
            i <= m,
            m == lines@.len(),
            lv == views_of(lines@),
            lv == lines_from(output@, 0),
            token_list_views(v@) == malformed_upto(lv, i as int),
        decreases m - i,
    {
        proof {
            assert(lv[i as int] == lines@[i as int]@);
        }
        let toks = tokenize(lines[i].as_str());
        if toks.len() != 2 {
            let ghost v0 = v@;
            let ghost tv = views_of(toks@);
            v.push(toks);
            proof {
                assert(token_list_views(v@) =~= token_list_views(v0).push(tv));
            }
        }
        i += 1;
    }
    v
}

} // verus!

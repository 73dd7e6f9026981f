//! The mathematical model: what a raw evaluator output means as a listing,
//! and what the before/after comparison returns.
//!
//! A listing is modelled as a sequence of (name, path) entries in insertion
//! order; `lookup` finds the first entry with a given name, and `insert_entry`
//! overwrites that entry's path or appends a new entry.

use vstd::prelude::*;

verus! {

/// One listing entry: a symbolic name and its output path.
pub type EntryModel = (Seq<char>, Seq<char>);

/// Whitespace that separates tokens within one line: the Unicode
/// White_Space characters, less the line break the line splitter owns.
pub open spec fn is_space(c: char) -> bool {
    let u = c as u32;
    u == 0x09 || u == 0x0B || u == 0x0C || u == 0x0D || u == 0x20 || u == 0x85 || u == 0xA0
        || u == 0x1680 || (0x2000 <= u && u <= 0x200A) || u == 0x2028 || u == 0x2029 || u == 0x202F
        || u == 0x205F || u == 0x3000
}

/// Index of the line break at or after position `i`, or the end of the text.
pub open spec fn line_end(s: Seq<char>, i: int) -> int
    decreases s.len() - i,
{
    if i < 0 || i >= s.len() {
        s.len() as int
    } else if s[i] == '\n' {
        i
    } else {
        line_end(s, i + 1)
    }
}

pub proof fn lemma_line_end(s: Seq<char>, i: int)
    requires
        0 <= i <= s.len(),
    ensures
        i <= line_end(s, i) <= s.len(),
    decreases s.len() - i,
{
    if i < s.len() && s[i] != '\n' {
        lemma_line_end(s, i + 1);
    }
}

/// The lines of the text, split at line breaks; a trailing line break does
/// not open a final empty line.
pub open spec fn lines_from(s: Seq<char>, i: int) -> Seq<Seq<char>>
    decreases s.len() + 1 - i,
    via lines_from_decreases
{
    if i < 0 || i >= s.len() {
        Seq::empty()
    } else {
        seq![s.subrange(i, line_end(s, i))] + lines_from(s, line_end(s, i) + 1)
    }
}

#[via_fn]
proof fn lines_from_decreases(s: Seq<char>, i: int) {
    if 0 <= i && i < s.len() {
        lemma_line_end(s, i);
    }
}

/// End of the token that starts at position `i`: the first position at or
/// after `i` holding whitespace, or the end of the line.
pub open spec fn token_end(s: Seq<char>, i: int) -> int
    decreases s.len() - i,
{
    if i < 0 || i >= s.len() || is_space(s[i]) {
        i
    } else {
        token_end(s, i + 1)
    }
}

pub proof fn lemma_token_end(s: Seq<char>, i: int)
    requires
        0 <= i <= s.len(),
    ensures
        i <= token_end(s, i) <= s.len(),
    decreases s.len() - i,
{
    if i < s.len() && !is_space(s[i]) {
        lemma_token_end(s, i + 1);
    }
}

/// The whitespace-separated tokens of the line, scanning from position `i`.
pub open spec fn tokens_from(s: Seq<char>, i: int) -> Seq<Seq<char>>
    decreases s.len() - i,
    via tokens_from_decreases
{
    if i < 0 || i >= s.len() {
        Seq::empty()
    } else if is_space(s[i]) {
        tokens_from(s, i + 1)
    } else {
        seq![s.subrange(i, token_end(s, i))] + tokens_from(s, token_end(s, i))
    }
}

#[via_fn]
proof fn tokens_from_decreases(s: Seq<char>, i: int) {
    if 0 <= i && i < s.len() && !is_space(s[i]) {
        lemma_token_end(s, i + 1);
    }
}

/// The whitespace-separated tokens of one line.
pub open spec fn tokens_of(line: Seq<char>) -> Seq<Seq<char>> {
    tokens_from(line, 0)
}

/// Index of the first entry named `k`, scanning from position `i`;
/// `e.len()` when no such entry exists.
pub open spec fn key_index_from(e: Seq<EntryModel>, k: Seq<char>, i: int) -> int
    decreases e.len() - i,
{
    if i < 0 || i >= e.len() {
        e.len() as int
    } else if e[i].0 == k {
        i
    } else {
        key_index_from(e, k, i + 1)
    }
}

/// Index of the first entry named `k`, or `e.len()` when absent.
pub open spec fn key_index(e: Seq<EntryModel>, k: Seq<char>) -> int {
    key_index_from(e, k, 0)
}

/// Whether some entry is named `k`.
pub open spec fn has_key(e: Seq<EntryModel>, k: Seq<char>) -> bool {
    key_index(e, k) < e.len()
}

/// The path recorded for name `k`, if any.
pub open spec fn lookup(e: Seq<EntryModel>, k: Seq<char>) -> Option<Seq<char>> {
    if has_key(e, k) {
        Some(e[key_index(e, k)].1)
    } else {
        None
    }
}

/// Insertion with overwrite: an existing entry named `k` keeps its position
/// and gets the new path; otherwise the entry is appended.
pub open spec fn insert_entry(e: Seq<EntryModel>, k: Seq<char>, v: Seq<char>) -> Seq<EntryModel> {
    if has_key(e, k) {
        e.update(key_index(e, k), (k, v))
    } else {
        e.push((k, v))
    }
}

/// No two entries share a name.
pub open spec fn keys_distinct(e: Seq<EntryModel>) -> bool {
    forall|i: int, j: int| 0 <= i < j < e.len() ==> e[i].0 != e[j].0
}

pub proof fn lemma_key_index_from(e: Seq<EntryModel>, k: Seq<char>, i: int)
    requires
        0 <= i <= e.len(),
    ensures
        i <= key_index_from(e, k, i) <= e.len(),
        key_index_from(e, k, i) < e.len() ==> e[key_index_from(e, k, i)].0 == k,
        forall|j: int| i <= j < key_index_from(e, k, i) ==> e[j].0 != k,
        key_index_from(e, k, i) == e.len() ==> forall|j: int| i <= j < e.len() ==> e[j].0 != k,
    decreases e.len() - i,
{
    if i < e.len() && e[i].0 != k {
        lemma_key_index_from(e, k, i + 1);
    }
}

/// A name standing at any position is found by `lookup`.
pub proof fn lemma_at_index_has_key(e: Seq<EntryModel>, j: int)
    requires
        0 <= j < e.len(),
    ensures
        has_key(e, e[j].0),
{
    lemma_key_index_from(e, e[j].0, 0);
}

/// Two entry sequences with the same names at the same positions give
/// `key_index_from` the same answer.
proof fn lemma_key_index_same_names(e1: Seq<EntryModel>, e2: Seq<EntryModel>, k: Seq<char>, i: int)
    requires
        e1.len() == e2.len(),
        forall|j: int| 0 <= j < e1.len() ==> e1[j].0 == e2[j].0,
    ensures
        key_index_from(e1, k, i) == key_index_from(e2, k, i),
    decreases e1.len() - i,
{
    if 0 <= i && i < e1.len() && e1[i].0 != k {
        lemma_key_index_same_names(e1, e2, k, i + 1);
    }
}

/// Appending an entry leaves the index of every other name alone and puts a
/// new name at the end.
proof fn lemma_key_index_push(e: Seq<EntryModel>, x: EntryModel, k: Seq<char>, i: int)
    requires
        0 <= i <= e.len(),
    ensures
        key_index_from(e, k, i) < e.len() ==> key_index_from(e.push(x), k, i) == key_index_from(
            e,
            k,
            i,
        ),
        key_index_from(e, k, i) == e.len() && x.0 == k ==> key_index_from(e.push(x), k, i)
            == e.len(),
        key_index_from(e, k, i) == e.len() && x.0 != k ==> key_index_from(e.push(x), k, i) == e.len()
            + 1,
    decreases e.len() - i,
{
    if i < e.len() && e[i].0 != k {
        lemma_key_index_push(e, x, k, i + 1);
    }
    if i == e.len() && x.0 != k {
        assert(key_index_from(e.push(x), k, i + 1) == e.len() + 1);
    }
}

/// What `lookup` returns after an insertion: the inserted name maps to the
/// inserted path, every other name is untouched.
pub proof fn lemma_lookup_insert(e: Seq<EntryModel>, k: Seq<char>, v: Seq<char>, k2: Seq<char>)
    ensures
        lookup(insert_entry(e, k, v), k2) == (if k2 == k {
            Some(v)
        } else {
            lookup(e, k2)
        }),
{
    lemma_key_index_from(e, k, 0);
    lemma_key_index_from(e, k2, 0);
    if has_key(e, k) {
        let idx = key_index(e, k);
        let e2 = e.update(idx, (k, v));
        assert(forall|j: int| 0 <= j < e.len() ==> e[j].0 == e2[j].0);
        lemma_key_index_same_names(e, e2, k2, 0);
        lemma_key_index_from(e2, k2, 0);
    } else {
        let e2 = e.push((k, v));
        lemma_key_index_push(e, (k, v), k2, 0);
        lemma_key_index_from(e2, k2, 0);
    }
}

/// Insertion keeps names unique.
pub proof fn lemma_insert_keys_distinct(e: Seq<EntryModel>, k: Seq<char>, v: Seq<char>)
    requires
        keys_distinct(e),
    ensures
        keys_distinct(insert_entry(e, k, v)),
{
    lemma_key_index_from(e, k, 0);
    if has_key(e, k) {
        let idx = key_index(e, k);
        let e2 = e.update(idx, (k, v));
        assert(forall|j: int| 0 <= j < e.len() ==> e[j].0 == e2[j].0);
    }
}

/// One parse step: a line with exactly two tokens adds an entry, any other
/// line adds nothing.
pub open spec fn parse_step(e: Seq<EntryModel>, line: Seq<char>) -> Seq<EntryModel> {
    if tokens_of(line).len() == 2 {
        insert_entry(e, tokens_of(line)[0], tokens_of(line)[1])
    } else {
        e
    }
}

/// The listing built from the first `n` lines.
pub open spec fn listing_after(lines: Seq<Seq<char>>, n: int) -> Seq<EntryModel>
    decreases n,
{
    if n <= 0 {
        Seq::empty()
    } else {
        parse_step(listing_after(lines, n - 1), lines[n - 1])
    }
}

/// The listing that one raw evaluator output denotes.
pub open spec fn parse_spec(s: Seq<char>) -> Seq<EntryModel> {
    listing_after(lines_from(s, 0), lines_from(s, 0).len() as int)
}

/// The token lists of the lines among the first `n` that produce no entry
/// (a token count other than two), in input order.
pub open spec fn malformed_upto(lines: Seq<Seq<char>>, n: int) -> Seq<Seq<Seq<char>>>
    decreases n,
{
    if n <= 0 {
        Seq::empty()
    } else if tokens_of(lines[n - 1]).len() != 2 {
        malformed_upto(lines, n - 1).push(tokens_of(lines[n - 1]))
    } else {
        malformed_upto(lines, n - 1)
    }
}

/// The token lists of the discarded lines of one raw evaluator output:
/// what the warning owed per discarded line carries.
pub open spec fn malformed_of(s: Seq<char>) -> Seq<Seq<Seq<char>>> {
    malformed_upto(lines_from(s, 0), lines_from(s, 0).len() as int)
}

/// Whether the entry `(k, v)` counts as changed against the before-listing:
/// the name is absent there, or recorded with another path.
pub open spec fn path_differs(orig: Seq<EntryModel>, k: Seq<char>, v: Seq<char>) -> bool {
    lookup(orig, k) != Some(v)
}

/// The names of the first `n` after-entries whose path changed, in order.
pub open spec fn rebuild_upto(orig: Seq<EntryModel>, cur: Seq<EntryModel>, n: int) -> Seq<
    Seq<char>,
>
    decreases n,
{
    if n <= 0 {
        Seq::empty()
    } else if path_differs(orig, cur[n - 1].0, cur[n - 1].1) {
        rebuild_upto(orig, cur, n - 1).push(cur[n - 1].0)
    } else {
        rebuild_upto(orig, cur, n - 1)
    }
}

/// The rebuild set: names of the after-listing whose path differs from the
/// before-listing, in the after-listing's order.
pub open spec fn rebuild_of(orig: Seq<EntryModel>, cur: Seq<EntryModel>) -> Seq<Seq<char>> {
    rebuild_upto(orig, cur, cur.len() as int)
}

/// The path carried for name `k` by the last entry-producing line among the
/// first `n` lines, if any.
pub open spec fn last_path_for(lines: Seq<Seq<char>>, k: Seq<char>, n: int) -> Option<Seq<char>>
    decreases n,
{
    if n <= 0 {
        None
    } else if tokens_of(lines[n - 1]).len() == 2 && tokens_of(lines[n - 1])[0] == k {
        Some(tokens_of(lines[n - 1])[1])
    } else {
        last_path_for(lines, k, n - 1)
    }
}

/// Parsing keys each entry by its line's first token with the second token
/// as path, and a later line with an already-seen name overwrites the
/// earlier path: each name ends up at the path of the last line carrying it.
pub proof fn lemma_parse_last_line_wins(lines: Seq<Seq<char>>, k: Seq<char>, n: int)
    requires
        0 <= n <= lines.len(),
    ensures
        lookup(listing_after(lines, n), k) == last_path_for(lines, k, n),
    decreases n,
{
    if n > 0 {
        lemma_parse_last_line_wins(lines, k, n - 1);
        let line = lines[n - 1];
        if tokens_of(line).len() == 2 {
            lemma_lookup_insert(listing_after(lines, n - 1), tokens_of(line)[0], tokens_of(line)[1], k);
        }
    }
}

/// The same, over one raw evaluator output: `parse_spec` maps each name to
/// the path of the last line of the text that carries it.
pub proof fn lemma_parse_spec_last_line_wins(s: Seq<char>, k: Seq<char>)
    ensures
        lookup(parse_spec(s), k) == last_path_for(
            lines_from(s, 0),
            k,
            lines_from(s, 0).len() as int,
        ),
{
    lemma_parse_last_line_wins(lines_from(s, 0), k, lines_from(s, 0).len() as int);
}

/// Two line sequences that agree on their first `n` lines parse alike.
proof fn lemma_listing_after_prefix(l1: Seq<Seq<char>>, l2: Seq<Seq<char>>, n: int)
    requires
        0 <= n <= l1.len(),
        n <= l2.len(),
        forall|j: int| 0 <= j < n ==> l1[j] == l2[j],
    ensures
        listing_after(l1, n) == listing_after(l2, n),
    decreases n,
{
    if n > 0 {
        lemma_listing_after_prefix(l1, l2, n - 1);
    }
}

/// A line with other than two tokens produces no entry and leaves the
/// parsing of every other line alone: dropping it parses to the same
/// listing.
pub proof fn lemma_malformed_line_ignored(lines: Seq<Seq<char>>, i: int, n: int)
    requires
        0 <= i < n <= lines.len(),
        tokens_of(lines[i]).len() != 2,
    ensures
        listing_after(lines, n) == listing_after(lines.remove(i), n - 1),
    decreases n,
{
    if n - 1 == i {
        lemma_listing_after_prefix(lines.remove(i), lines, i);
    } else {
        lemma_malformed_line_ignored(lines, i, n - 1);
        assert(lines.remove(i)[n - 2] == lines[n - 1]);
    }
}

/// Membership in the rebuild names of the first `n` after-entries.
proof fn lemma_rebuild_upto_contains(
    orig: Seq<EntryModel>,
    cur: Seq<EntryModel>,
    n: int,
    k: Seq<char>,
)
    requires
        0 <= n <= cur.len(),
    ensures
        rebuild_upto(orig, cur, n).contains(k) <==> exists|j: int|
            0 <= j < n && cur[j].0 == k && path_differs(orig, k, cur[j].1),
    decreases n,
{
    if n > 0 {
        lemma_rebuild_upto_contains(orig, cur, n - 1, k);
        let prev = rebuild_upto(orig, cur, n - 1);
        if path_differs(orig, cur[n - 1].0, cur[n - 1].1) {
            let r2 = prev.push(cur[n - 1].0);
            assert(rebuild_upto(orig, cur, n) == r2);
            assert(r2[prev.len() as int] == cur[n - 1].0);
            if r2.contains(k) {
                let m = choose|m: int| 0 <= m < r2.len() && r2[m] == k;
                if m < prev.len() {
                    assert(prev[m] == k);
                    assert(prev.contains(k));
                } else {
                    assert(cur[n - 1].0 == k);
                }
            }
            if exists|j: int| 0 <= j < n && cur[j].0 == k && path_differs(orig, k, cur[j].1) {
                let j = choose|j: int|
                    0 <= j < n && cur[j].0 == k && path_differs(orig, k, cur[j].1);
                if j == n - 1 {
                    assert(r2.contains(k));
                } else {
                    assert(prev.contains(k));
                    let m = choose|m: int| 0 <= m < prev.len() && prev[m] == k;
                    assert(r2[m] == k);
                    assert(r2.contains(k));
                }
            }
        }
    }
}

/// The rebuild set holds exactly the names of the after-listing whose
/// recorded path differs from the before-listing's; a name absent from the
/// before-listing counts as differing, and a name standing only in the
/// before-listing is never reported.
pub proof fn lemma_rebuild_is_changed_names(orig: Seq<EntryModel>, cur: Seq<EntryModel>)
    requires
        keys_distinct(cur),
    ensures
        forall|k: Seq<char>| #[trigger] rebuild_of(orig, cur).contains(k) <==> (has_key(cur, k)
            && lookup(cur, k) != lookup(orig, k)),
{
    assert forall|k: Seq<char>| #[trigger] rebuild_of(orig, cur).contains(k) <==> (has_key(cur, k)
        && lookup(cur, k) != lookup(orig, k)) by {
        lemma_rebuild_upto_contains(orig, cur, cur.len() as int, k);
        lemma_key_index_from(cur, k, 0);
        if exists|j: int| 0 <= j < cur.len() && cur[j].0 == k && path_differs(orig, k, cur[j].1) {
            let j = choose|j: int|
                0 <= j < cur.len() && cur[j].0 == k && path_differs(orig, k, cur[j].1);
            lemma_at_index_has_key(cur, j);
            assert(key_index(cur, k) == j);
        }
        if has_key(cur, k) && lookup(cur, k) != lookup(orig, k) {
            let j = key_index(cur, k);
            assert(cur[j].0 == k && path_differs(orig, k, cur[j].1));
        }
    }
}

/// Removing one entry whose name is not `k` leaves `lookup` at `k` alone.
proof fn lemma_lookup_remove(e: Seq<EntryModel>, i: int, k: Seq<char>)
    requires
        0 <= i < e.len(),
        e[i].0 != k,
    ensures
        lookup(e.remove(i), k) == lookup(e, k),
{
    let e2 = e.remove(i);
    lemma_key_index_from(e, k, 0);
    lemma_key_index_from(e2, k, 0);
    let r = key_index(e, k);
    let r2 = key_index(e2, k);
    assert(forall|j: int| 0 <= j < i ==> e2[j] == e[j]);
    assert(forall|j: int| i <= j < e2.len() ==> e2[j] == e[j + 1]);
    if r < e.len() {
        if r < i {
            assert(e2[r].0 == k);
            if r2 < r {
                assert(e2[r2].0 == k && e[r2].0 != k);
                assert(false);
            }
            if r2 > r {
                assert(e2[r].0 != k);
                assert(false);
            }
        } else {
            assert(r != i);
            assert(e2[r - 1] == e[r]);
            if r2 < r - 1 {
                assert(e2[r2].0 == k);
                if r2 < i {
                    assert(e[r2].0 != k);
                } else {
                    assert(e[r2 + 1].0 != k);
                }
                assert(false);
            }
            if r2 > r - 1 {
                assert(e2[r - 1].0 != k);
                assert(false);
            }
        }
    } else {
        if r2 < e2.len() {
            assert(e2[r2].0 == k);
            if r2 < i {
                assert(e[r2].0 != k);
            } else {
                assert(e[r2 + 1].0 != k);
            }
            assert(false);
        }
    }
}

/// Rebuild names of the first `n` after-entries are blind to a before-only
/// entry.
proof fn lemma_rebuild_upto_remove(orig: Seq<EntryModel>, cur: Seq<EntryModel>, i: int, n: int)
    requires
        0 <= i < orig.len(),
        !has_key(cur, orig[i].0),
        0 <= n <= cur.len(),
    ensures
        rebuild_upto(orig.remove(i), cur, n) == rebuild_upto(orig, cur, n),
    decreases n,
{
    if n > 0 {
        lemma_rebuild_upto_remove(orig, cur, i, n - 1);
        lemma_at_index_has_key(cur, n - 1);
        lemma_lookup_remove(orig, i, cur[n - 1].0);
    }
}

/// The comparison is blind to names that stand only in the before-listing:
/// dropping such an entry from the before-listing leaves the rebuild set
/// unchanged.
pub proof fn lemma_before_only_entry_irrelevant(
    orig: Seq<EntryModel>,
    cur: Seq<EntryModel>,
    i: int,
)
    requires
        0 <= i < orig.len(),
        !has_key(cur, orig[i].0),
    ensures
        rebuild_of(orig.remove(i), cur) == rebuild_of(orig, cur),
{
    lemma_rebuild_upto_remove(orig, cur, i, cur.len() as int);
}

} // verus!

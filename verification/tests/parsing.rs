//! Tests of the listing parser: which lines produce entries, which are
//! skipped, and how duplicate names are resolved.

use outpathdiff::listing::Listing;
use outpathdiff::parse::{malformed_lines, parse, split_lines, tokenize};

#[test]
fn two_token_lines_build_one_entry_each() {
    let l = parse("pkgA /nix/store/aaa\npkgB /nix/store/bbb\npkgC /nix/store/ccc");
    assert_eq!(l.len(), 3);
    assert_eq!(l.get("pkgA"), Some(String::from("/nix/store/aaa")));
    assert_eq!(l.get("pkgB"), Some(String::from("/nix/store/bbb")));
    assert_eq!(l.get("pkgC"), Some(String::from("/nix/store/ccc")));
    assert_eq!(l.get("pkgD"), None);
}

#[test]
fn later_duplicate_name_overwrites_earlier() {
    let l = parse("pkgA /out/1\npkgB /out/2\npkgA /out/3");
    assert_eq!(l.len(), 2);
    assert_eq!(l.get("pkgA"), Some(String::from("/out/3")));
    assert_eq!(l.get("pkgB"), Some(String::from("/out/2")));
    // The overwritten entry keeps its original position.
    assert_eq!(l.name_at(0), String::from("pkgA"));
    assert_eq!(l.name_at(1), String::from("pkgB"));
}

#[test]
fn lines_with_other_token_counts_are_skipped() {
    // 0, 1 and 3 tokens produce no entry and do not disturb the others.
    let l = parse("\npkgA\npkgB /out/2\none two three\npkgC /out/4\n   ");
    assert_eq!(l.len(), 2);
    assert_eq!(l.get("pkgA"), None);
    assert_eq!(l.get("pkgB"), Some(String::from("/out/2")));
    assert_eq!(l.get("one"), None);
    assert_eq!(l.get("pkgC"), Some(String::from("/out/4")));
}

#[test]
fn empty_input_gives_empty_listing() {
    let l = parse("");
    assert_eq!(l.len(), 0);
    assert_eq!(l.get("anything"), None);
}

#[test]
fn whitespace_runs_and_carriage_returns_separate_tokens() {
    let l = parse("pkgA \t  /out/1\r\npkgB\t/out/2");
    assert_eq!(l.len(), 2);
    assert_eq!(l.get("pkgA"), Some(String::from("/out/1")));
    assert_eq!(l.get("pkgB"), Some(String::from("/out/2")));
}

#[test]
fn tokenize_splits_on_whitespace_runs() {
    let t = tokenize("  one \t two  three ");
    assert_eq!(
        t,
        vec![String::from("one"), String::from("two"), String::from("three")]
    );
    assert_eq!(tokenize(""), Vec::<String>::new());
    assert_eq!(tokenize(" \t "), Vec::<String>::new());
}

#[test]
fn split_lines_drops_no_content_and_no_trailing_empty_line() {
    assert_eq!(
        split_lines("a\nb\nc"),
        vec![String::from("a"), String::from("b"), String::from("c")]
    );
    assert_eq!(
        split_lines("a\nb\n"),
        vec![String::from("a"), String::from("b")]
    );
    assert_eq!(split_lines("\n"), vec![String::from("")]);
    assert_eq!(split_lines(""), Vec::<String>::new());
}

#[test]
fn unicode_whitespace_separates_tokens() {
    // Form feed, vertical tab, no-break space, em space and ideographic
    // space all separate tokens, as any Unicode whitespace does.
    let l = parse("pkgA\u{000C}/out/1\npkgB\u{00A0}/out/2\npkgC\u{2003}/out/3\npkgD\u{3000}\u{000B}/out/4");
    assert_eq!(l.len(), 4);
    assert_eq!(l.get("pkgA"), Some(String::from("/out/1")));
    assert_eq!(l.get("pkgB"), Some(String::from("/out/2")));
    assert_eq!(l.get("pkgC"), Some(String::from("/out/3")));
    assert_eq!(l.get("pkgD"), Some(String::from("/out/4")));
}

#[test]
fn unicode_whitespace_counts_toward_the_token_count() {
    // Three tokens once the form feed separates the first two: no entry.
    let l = parse("a\u{000C}b c");
    assert_eq!(l.len(), 0);
    assert_eq!(l.get("a"), None);
    assert_eq!(l.get("a\u{000C}b"), None);
}

#[test]
fn malformed_lines_hand_back_their_token_lists() {
    let skipped = malformed_lines("\npkgA\npkgB /out/2\none two three\n \t ");
    assert_eq!(
        skipped,
        vec![
            Vec::<String>::new(),
            vec![String::from("pkgA")],
            vec![
                String::from("one"),
                String::from("two"),
                String::from("three")
            ],
            Vec::<String>::new(),
        ]
    );
    assert_eq!(malformed_lines("pkgA /out/1"), Vec::<Vec<String>>::new());
}

#[test]
fn listing_insert_and_get_roundtrip() {
    let mut l = Listing::new();
    assert_eq!(l.len(), 0);
    l.insert(String::from("a"), String::from("/1"));
    l.insert(String::from("b"), String::from("/2"));
    l.insert(String::from("a"), String::from("/3"));
    assert_eq!(l.len(), 2);
    assert_eq!(l.get("a"), Some(String::from("/3")));
    assert_eq!(l.get("b"), Some(String::from("/2")));
    assert_eq!(l.path_at(0), String::from("/3"));
}

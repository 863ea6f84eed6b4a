use filetool::search::find_matches;
use filetool::textops::{
    clean_string, conditional_return, count_words, first_word, first_word_elided,
    first_word_slice, is_palindrome, longest, longest_explicit, longest_of_three,
    reverse_string, safe_slice, split_by_comma, word_count, find_longest_line,
};
use filetool::textstats::count_stats;

#[test]
fn count_stats_reports_lines_chars_words() {
    let s = count_stats("hello world\nsecond line\nthird");
    assert_eq!(s.line_count, 3);
    assert_eq!(s.char_count, 29);
    assert_eq!(s.word_count, 5);
}

#[test]
fn count_stats_counts_terminators_plus_one() {
    assert_eq!(count_stats("a\nb\nc").line_count, 3);
    assert_eq!(count_stats("a\nb\n").line_count, 3);
    assert_eq!(count_stats("").line_count, 1);
    assert_eq!(count_stats("\n").line_count, 2);
}

#[test]
fn count_stats_counts_scalar_values_not_bytes() {
    let s = count_stats("héllo");
    assert_eq!(s.char_count, 5);
}

#[test]
fn find_matches_reports_all_occurrences() {
    let m = find_matches("foo bar\nbaz\n  foo again  ", "foo");
    assert_eq!(m.len(), 2);
    assert_eq!(m[0].line_number, 1);
    assert_eq!(m[0].text, "foo bar");
    assert_eq!(m[1].line_number, 3);
    assert_eq!(m[1].text, "foo again");
}

#[test]
fn find_matches_reports_none_when_absent() {
    let m = find_matches("alpha\nbeta", "gamma");
    assert_eq!(m.len(), 0);
}

#[test]
fn find_matches_empty_pattern_matches_every_line() {
    let m = find_matches("a\nb", "");
    assert_eq!(m.len(), 2);
    assert_eq!(m[0].line_number, 1);
    assert_eq!(m[1].line_number, 2);
}

#[test]
fn first_word_stops_at_space() {
    assert_eq!(first_word("hello world"), "hello");
    assert_eq!(first_word("single"), "single");
    assert_eq!(first_word(""), "");
    assert_eq!(first_word(" leading"), "");
    assert_eq!(first_word_slice("ab cd"), "ab");
    assert_eq!(first_word_elided("ab cd"), "ab");
}

#[test]
fn word_count_counts_whitespace_runs() {
    assert_eq!(word_count("one two  three"), 3);
    assert_eq!(word_count(""), 0);
    assert_eq!(word_count("   "), 0);
    assert_eq!(count_words("  a\tb\nc  "), 3);
}

#[test]
fn palindromes_are_recognized() {
    assert!(is_palindrome("racecar"));
    assert!(is_palindrome(""));
    assert!(is_palindrome("aa"));
    assert!(!is_palindrome("rust"));
    assert!(!is_palindrome("ab"));
}

#[test]
fn safe_slice_checks_bounds() {
    assert_eq!(safe_slice("hello", 1, 3), Some("el"));
    assert_eq!(safe_slice("hello", 0, 5), Some("hello"));
    assert_eq!(safe_slice("hello", 3, 2), None);
    assert_eq!(safe_slice("hello", 0, 6), None);
}

#[test]
fn reverse_string_reverses_characters() {
    assert_eq!(reverse_string("abc"), "cba");
    assert_eq!(reverse_string(""), "");
    assert_eq!(reverse_string("héllo"), "olléh");
}

#[test]
fn clean_string_trims_and_lowercases() {
    assert_eq!(clean_string("  Hello, Rust World!  "), "hello, rust world!");
    assert_eq!(clean_string("ABC"), "abc");
    assert_eq!(clean_string("   "), "");
}

#[test]
fn longest_picks_the_longer_string() {
    assert_eq!(longest("short", "longer one"), "longer one");
    assert_eq!(longest("longer one", "short"), "longer one");
    assert_eq!(longest("tie", "tie"), "tie");
}

#[test]
fn longest_of_three_picks_the_longest() {
    assert_eq!(longest_of_three("a", "bbb", "cc"), "bbb");
    assert_eq!(longest_of_three("aaaa", "b", "cc"), "aaaa");
    assert_eq!(longest_of_three("a", "bb", "ccc"), "ccc");
}

#[test]
fn longest_explicit_returns_first() {
    assert_eq!(longest_explicit("first", "much longer second"), "first");
}

#[test]
fn conditional_return_follows_condition() {
    assert_eq!(conditional_return(true, "x", "y"), "x");
    assert_eq!(conditional_return(false, "x", "y"), "y");
}

#[test]
fn split_by_comma_keeps_empty_pieces() {
    assert_eq!(split_by_comma("a,b,c"), vec!["a", "b", "c"]);
    assert_eq!(split_by_comma(""), vec![""]);
    assert_eq!(split_by_comma("a,,b,"), vec!["a", "", "b", ""]);
}

#[test]
fn extract_words_splits_on_whitespace() {
    assert_eq!(
        filetool::textops::extract_words("Hello, Rust world!"),
        vec!["Hello,", "Rust", "world!"]
    );
    assert_eq!(filetool::textops::extract_words("  spaced\tout \n"), vec!["spaced", "out"]);
    assert!(filetool::textops::extract_words("   ").is_empty());
    assert!(filetool::textops::extract_words("").is_empty());
}

#[test]
fn append_text_appends() {
    let mut s = "hello world".to_string();
    filetool::textops::append_text(&mut s, "!");
    assert_eq!(s, "hello world!");
}

#[test]
fn create_closure_captures_the_string() {
    let text = "captured";
    let f = filetool::textops::create_closure(text);
    assert_eq!(f(), "captured");
    assert_eq!(f(), "captured");
}

#[test]
fn ownership_helpers() {
    assert_eq!(filetool::ownership::gives_ownership(), "hello");
    assert_eq!(filetool::ownership::no_dangle(), "hello");
    assert_eq!(
        filetool::ownership::takes_and_gives_back("carry".to_string()),
        "carry"
    );
    assert_eq!(filetool::ownership::calculate_length(&"hello".to_string()), 5);
    let mut s = "hello".to_string();
    filetool::ownership::change(&mut s);
    assert_eq!(s, "hello, world");
}

#[test]
fn find_longest_line_prefers_later_ties() {
    let lines = vec!["aa".to_string(), "bbbb".to_string(), "cccc".to_string(), "d".to_string()];
    assert_eq!(find_longest_line(&lines), Some("cccc"));
    let empty: Vec<String> = Vec::new();
    assert_eq!(find_longest_line(&empty), None);
}

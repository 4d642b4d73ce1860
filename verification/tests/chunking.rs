use openrouter_local::providers::split_text_by_char_count;

#[test]
fn keeps_unicode_characters_intact_when_chunking() {
    let chunks = split_text_by_char_count("thầm thơ", 3);
    assert_eq!(chunks, vec!["thầ", "m t", "hơ"]);
    assert_eq!(chunks.concat(), "thầm thơ");
}

#[test]
fn zero_piece_size_gives_no_pieces() {
    assert!(split_text_by_char_count("hello", 0).is_empty());
}

#[test]
fn empty_text_gives_no_pieces() {
    assert!(split_text_by_char_count("", 4).is_empty());
}

#[test]
fn pieces_are_full_except_the_last() {
    let chunks = split_text_by_char_count("abcdefghij", 4);
    assert_eq!(chunks, vec!["abcd", "efgh", "ij"]);
    let exact = split_text_by_char_count("abcdefgh", 4);
    assert_eq!(exact, vec!["abcd", "efgh"]);
}

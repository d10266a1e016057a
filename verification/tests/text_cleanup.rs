use maity::cleanup::{
    clean_transcription, dedupe_consecutive_phrases, dedupe_consecutive_words,
    normalize_whitespace, strip_special_tokens,
};
use maity::text::{is_whitespace, parse_usize, split_words};

#[test]
fn strips_blank_token() {
    assert_eq!(strip_special_tokens("hello [blank] world"), "hello  world");
}

#[test]
fn strips_unk_and_sentencepiece() {
    let cleaned = strip_special_tokens("<unk>▁hola▁mundo");
    assert!(cleaned.contains("hola"));
    assert!(cleaned.contains("mundo"));
    assert!(!cleaned.contains('▁'));
    assert!(!cleaned.contains("<unk>"));
}

#[test]
fn strips_case_insensitive() {
    assert_eq!(strip_special_tokens("[BLANK]hola"), "hola");
    assert_eq!(strip_special_tokens("[Music]"), "");
}

#[test]
fn dedupe_consecutive_collapses_long_runs() {
    let out = dedupe_consecutive_words("the the the the world");
    assert_eq!(out, "the the world");
}

#[test]
fn dedupe_consecutive_preserves_legitimate_repetition() {
    let out = dedupe_consecutive_words("muy muy bueno");
    assert_eq!(out, "muy muy bueno");
}

#[test]
fn dedupe_consecutive_is_case_insensitive() {
    let out = dedupe_consecutive_words("The the THE the hello");
    assert_eq!(out, "The the hello");
}

#[test]
fn dedupe_phrases_collapses_thank_you_loop() {
    let out = dedupe_consecutive_phrases("thank you thank you thank you thank you");
    assert_eq!(out, "thank you");
}

#[test]
fn dedupe_phrases_preserves_normal_text() {
    let out = dedupe_consecutive_phrases("hola como estas hoy");
    assert_eq!(out, "hola como estas hoy");
}

#[test]
fn normalize_collapses_whitespace() {
    assert_eq!(normalize_whitespace("hola   \n\t mundo"), "hola mundo");
}

#[test]
fn full_chain_cleans_hallucination() {
    let raw = "[blank] the the the the thank you thank you thank you thank you <unk>";
    let cleaned = clean_transcription(raw);
    assert!(cleaned.contains("thank you"));
    assert!(!cleaned.contains("[blank]"));
    assert!(!cleaned.contains("<unk>"));
    let the_count = cleaned
        .split_whitespace()
        .filter(|w| w.eq_ignore_ascii_case("the"))
        .count();
    assert!(the_count <= 2, "too many 'the' left: {:?}", cleaned);
}

#[test]
fn full_chain_empty_on_pure_noise() {
    assert_eq!(clean_transcription("[blank][blank]<unk>"), "");
    assert_eq!(clean_transcription("   "), "");
}

#[test]
fn full_chain_preserves_spanish_accents() {
    let out = clean_transcription("holá cómo estás");
    assert_eq!(out, "holá cómo estás");
}

#[test]
fn whitespace_matches_std_for_every_char() {
    for u in 0u32..=0x10FFFF {
        if let Some(c) = char::from_u32(u) {
            assert_eq!(is_whitespace(c), c.is_whitespace(), "U+{:04X}", u);
        }
    }
}

#[test]
fn split_words_matches_std() {
    let text = "  uno\tdos\u{3000}tres \n cuatro\u{a0}";
    let mine = split_words(text);
    let std_words: Vec<String> = text.split_whitespace().map(|w| w.to_string()).collect();
    assert_eq!(mine, std_words);
}

#[test]
fn dedupe_phrases_short_text_is_returned_verbatim() {
    assert_eq!(dedupe_consecutive_phrases("  a  b  c "), "  a  b  c ");
}

#[test]
fn dedupe_phrases_prefers_longest_window() {
    let out = dedupe_consecutive_phrases("a b c a b c a b c d");
    assert_eq!(out, "a b c d");
}

#[test]
fn dedupe_phrases_keeps_two_copies() {
    let out = dedupe_consecutive_phrases("hi there hi there bye");
    assert_eq!(out, "hi there hi there bye");
}

#[test]
fn dedupe_phrases_is_case_insensitive_and_keeps_first_casing() {
    let out = dedupe_consecutive_phrases("Thank You thank you THANK YOU");
    assert_eq!(out, "Thank You");
}

#[test]
fn strip_removes_every_listed_token() {
    let raw = "a[pad]b[unk]c[applause]d[laughter]e[noise]f[silence]g<blank>h<pad>i<s>j</s>k<|endoftext|>l<|startoftranscript|>m";
    assert_eq!(strip_special_tokens(raw), "abcdefghijklm");
}

#[test]
fn normalized_text_is_a_fixpoint() {
    let once = normalize_whitespace("  a \t b\n\nc  ");
    assert_eq!(once, "a b c");
    assert_eq!(normalize_whitespace(&once), once);
}

#[test]
fn dedupe_words_never_leaves_three_in_a_row() {
    let out = dedupe_consecutive_words("x X x x y y Y y");
    assert_eq!(out, "x X y y");
}

#[test]
fn normalized_text_keeps_the_words_with_single_spaces() {
    let raw = "\t hola \u{3000}  mundo\n\n adiós  ";
    let out = normalize_whitespace(raw);
    assert_eq!(out, "hola mundo adiós");
    assert_eq!(
        out.split_whitespace().collect::<Vec<_>>(),
        raw.split_whitespace().collect::<Vec<_>>()
    );
    assert_eq!(normalize_whitespace(&out), out);
    assert_eq!(normalize_whitespace(" \n\t "), "");
}

#[test]
fn usize_parsing_agrees_with_std() {
    let big = format!("{}0", usize::MAX);
    let max = usize::MAX.to_string();
    let cases = [
        "", "+", "-", "0", "+7", "007", "-1", "12a", " 1", "1 ", "18446744073709551615",
        "18446744073709551616", "4294967295", "4294967296", "٣", "++1", big.as_str(), max.as_str(),
    ];
    for c in cases {
        assert_eq!(parse_usize(c), c.parse::<usize>().ok(), "input {:?}", c);
    }
}

#[test]
fn tokens_joined_by_a_removal_are_removed_too() {
    assert_eq!(strip_special_tokens("[bl[blank]ank]"), "");
    assert_eq!(strip_special_tokens("<<s>unk>"), "");
    assert_eq!(strip_special_tokens("a [BL[Blank]ANK] b"), "a  b");
    assert_eq!(strip_special_tokens("<<S>/s>x"), "x");
}

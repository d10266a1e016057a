use maity::tokenizer::{strip_bos, tokens_to_text, MoonshineError, SimpleTokenizer};

fn sample() -> SimpleTokenizer {
    let vocab = vec![
        ("<s>".to_string(), Some(1)),
        ("</s>".to_string(), Some(2)),
        ("Ġhola".to_string(), Some(10)),
        ("▁mundo".to_string(), Some(11)),
        ("Ċ".to_string(), Some(12)),
        ("skipped".to_string(), None),
    ];
    let added = vec![(Some(3), Some("<|endoftext|>".to_string())), (Some(4), None)];
    SimpleTokenizer::from_entries(vocab, added).ok().unwrap()
}

#[test]
fn vocabulary_holds_entries_with_ids() {
    let t = sample();
    assert_eq!(t.vocab_size(), 6);
}

#[test]
fn decode_reads_markers_and_skips_specials() {
    let t = sample();
    assert_eq!(t.decode(&[1, 10, 11, 12, 2], true).ok().unwrap(), " hola mundo\n");
    assert_eq!(t.decode(&[1, 10, 99, 3], false).ok().unwrap(), "<s> hola<|endoftext|>");
    assert_eq!(t.decode(&[], true).ok().unwrap(), "");
}

#[test]
fn later_entries_replace_earlier_ones() {
    let vocab = vec![("a".to_string(), Some(5)), ("b".to_string(), Some(5))];
    let t = SimpleTokenizer::from_entries(vocab, vec![(Some(5), Some("c".to_string()))])
        .ok()
        .unwrap();
    assert_eq!(t.vocab_size(), 1);
    assert_eq!(t.decode(&[5], false).ok().unwrap(), "c");
}

#[test]
fn empty_vocabulary_is_an_error() {
    match SimpleTokenizer::from_entries(vec![("x".to_string(), None)], vec![]) {
        Err(MoonshineError::Tokenizer(m)) => {
            assert_eq!(m, "No vocabulary found in tokenizer.json");
            assert_eq!(
                MoonshineError::Tokenizer(m).message(),
                "Tokenizer error: No vocabulary found in tokenizer.json"
            );
        }
        _ => panic!("expected a tokenizer error"),
    }
}

#[test]
fn utterance_text_is_trimmed() {
    let t = sample();
    let ids = strip_bos(vec![1, 10, 11, 2]);
    assert_eq!(ids, vec![10, 11, 2]);
    assert_eq!(strip_bos(vec![10]), vec![10]);
    assert_eq!(tokens_to_text(&t, &ids).ok().unwrap(), "hola mundo");
}

#[test]
fn decoding_is_token_by_token() {
    let t = sample();
    let whole = t.decode(&[10, 1, 11, 12], true).ok().unwrap();
    let first = t.decode(&[10, 1], true).ok().unwrap();
    let second = t.decode(&[11, 12], true).ok().unwrap();
    assert_eq!(whole, format!("{}{}", first, second));
}

#[test]
fn a_tokenizer_is_read_from_its_json_description() {
    let json = r#"{
        "model": {"vocab": {"<s>": 1, "</s>": 2, "Ġhola": 10, "▁mundo": 11, "odd": -3, "f": 1.5}},
        "added_tokens": [{"id": 3, "content": "<|endoftext|>"}, {"id": 4}, {"content": "x"}]
    }"#;
    let t = SimpleTokenizer::from_json(json).ok().unwrap();
    assert_eq!(t.vocab_size(), 5);
    assert_eq!(t.decode(&[1, 10, 11, 3, 2], true).ok().unwrap(), " hola mundo");
    match SimpleTokenizer::from_json("{not json") {
        Err(MoonshineError::JsonParse(m)) => {
            assert!(m.starts_with("Failed to parse tokenizer JSON: "), "{}", m);
            assert!(m.len() > "Failed to parse tokenizer JSON: ".len());
        }
        _ => panic!("bad JSON is a parse error"),
    }
    match SimpleTokenizer::from_json(r#"{"model": {"vocab": {}}}"#) {
        Err(MoonshineError::Tokenizer(m)) => assert_eq!(m, "No vocabulary found in tokenizer.json"),
        _ => panic!("an empty vocabulary is refused"),
    }
}

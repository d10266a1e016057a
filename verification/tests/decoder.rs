use maity::decoder::{
    cache_input_name, cache_sources, check_past_inputs, decimal_chars, decoder_input,
    decoder_step, encoder_output_index, logits_output_index, logits_vocab_size,
    present_output_name, CacheSource, ModelPart, CACHE_SLOTS, DECODER_NUM_LAYERS,
};
use maity::tokenizer::{strip_bos, BOS_TOKEN_ID, EOS_TOKEN_ID};

fn names(v: &[&str]) -> Vec<String> {
    v.iter().map(|s| s.to_string()).collect()
}

#[test]
fn sessions_load_their_onnx_files() {
    assert_eq!(ModelPart::Encoder.file_name(), "encoder_model.onnx");
    assert_eq!(ModelPart::DecoderFirst.file_name(), "decoder_model.onnx");
    assert_eq!(ModelPart::DecoderWithPast.file_name(), "decoder_with_past_model.onnx");
}

#[test]
fn encoder_output_prefers_named_hidden_states() {
    assert_eq!(
        encoder_output_index(&names(&["x", "hidden_states", "last_hidden_state"])).unwrap(),
        2
    );
    assert_eq!(encoder_output_index(&names(&["x", "hidden_states"])).unwrap(), 1);
    assert_eq!(encoder_output_index(&names(&["x", "y"])).unwrap(), 0);
    match encoder_output_index(&Vec::new()) {
        Err(e) => assert_eq!(e.message(), "Model output not found: hidden_states"),
        Ok(_) => panic!("no outputs to read"),
    }
}

#[test]
fn decoder_output_prefers_logits() {
    assert_eq!(logits_output_index(&names(&["present.0.decoder.key", "logits"])).unwrap(), 1);
    assert_eq!(logits_output_index(&names(&["out"])).unwrap(), 0);
    match logits_output_index(&Vec::new()) {
        Err(e) => assert_eq!(e.message(), "Model output not found: logits"),
        Ok(_) => panic!("no outputs to read"),
    }
}

#[test]
fn cache_slots_are_named_by_layer_module_and_kind() {
    assert_eq!(CACHE_SLOTS, DECODER_NUM_LAYERS * 4);
    assert_eq!(cache_input_name(0), "past_key_values.0.decoder.key");
    assert_eq!(cache_input_name(1), "past_key_values.0.decoder.value");
    assert_eq!(cache_input_name(2), "past_key_values.0.encoder.key");
    assert_eq!(cache_input_name(3), "past_key_values.0.encoder.value");
    assert_eq!(cache_input_name(4), "past_key_values.1.decoder.key");
    assert_eq!(cache_input_name(31), "past_key_values.7.encoder.value");
    assert_eq!(present_output_name(0), "present.0.decoder.key");
    assert_eq!(present_output_name(30), "present.7.encoder.key");
    let mut expected = Vec::new();
    for layer in 0..DECODER_NUM_LAYERS {
        for module in ["decoder", "encoder"] {
            for kv in ["key", "value"] {
                expected.push(format!("past_key_values.{}.{}.{}", layer, module, kv));
            }
        }
    }
    let got: Vec<String> = (0..CACHE_SLOTS).map(cache_input_name).collect();
    assert_eq!(got, expected);
}

#[test]
fn decimal_writes_numbers() {
    let s: String = decimal_chars(0).into_iter().collect();
    assert_eq!(s, "0");
    let s: String = decimal_chars(1207).into_iter().collect();
    assert_eq!(s, "1207");
}

#[test]
fn a_step_keeps_its_own_cache_or_the_one_it_was_given() {
    let got = cache_sources(&vec![true, false, false], &vec![true, true, false]);
    assert_eq!(got, vec![CacheSource::Present, CacheSource::Previous, CacheSource::Missing]);
    let first = cache_sources(&vec![true, false], &vec![false, false]);
    assert_eq!(first, vec![CacheSource::Present, CacheSource::Missing]);
}

#[test]
fn later_steps_need_the_whole_cache() {
    assert!(check_past_inputs(&vec![true; CACHE_SLOTS]).is_ok());
    let mut given = vec![true; CACHE_SLOTS];
    given[5] = false;
    given[9] = false;
    match check_past_inputs(&given) {
        Err(e) => assert_eq!(e.message(), "Model input not found: past_key_values.1.decoder.value"),
        Ok(()) => panic!("slot 5 is missing"),
    }
}

#[test]
fn the_first_step_reads_all_tokens_and_later_ones_the_last() {
    let tokens = vec![BOS_TOKEN_ID, 40, 41];
    let (part, ids) = decoder_input(0, &tokens);
    assert_eq!(part, ModelPart::DecoderFirst);
    assert_eq!(ids, tokens);
    let (part, ids) = decoder_input(3, &tokens);
    assert_eq!(part, ModelPart::DecoderWithPast);
    assert_eq!(ids, vec![41]);
}

#[test]
fn vocab_size_comes_from_the_last_logits_dimension() {
    assert_eq!(logits_vocab_size(&[1, 4, 32768]).unwrap(), 32768);
    assert_eq!(logits_vocab_size(&[1, 1, 7, 9]).unwrap(), 7);
    assert_eq!(logits_vocab_size(&[3, 500]).unwrap(), 500);
    match logits_vocab_size(&[500]) {
        Err(e) => assert_eq!(
            e.message(),
            "Model output not found: Could not determine vocab size from logits"
        ),
        Ok(_) => panic!("a one-dimensional shape has no vocabulary size"),
    }
    assert!(logits_vocab_size(&[]).is_err());
}

#[test]
fn decoding_stops_at_the_end_of_sequence_token() {
    let mut tokens = vec![BOS_TOKEN_ID];
    assert!(decoder_step(&mut tokens, 42));
    assert!(decoder_step(&mut tokens, BOS_TOKEN_ID));
    assert!(!decoder_step(&mut tokens, EOS_TOKEN_ID));
    assert_eq!(tokens, vec![BOS_TOKEN_ID, 42, BOS_TOKEN_ID]);
    assert_eq!(strip_bos(tokens), vec![42, BOS_TOKEN_ID]);
}

//! The plan of the speech model's inference around its three ONNX sessions:
//! the files they load, which outputs are read, the names of the key-value
//! cache and how each decoding step forms it, and the decisions of greedy
//! decoding. The sessions run outside the library: the caller reports which
//! names they offer and what they chose, and carries out the plan.
use vstd::prelude::*;
use crate::text::{copy_str, from_chars, push_str, str_eq, views};
use crate::tokenizer::{MoonshineError, EOS_TOKEN_ID};

verus! {

/// The layers of the decoder, each with a decoder and an encoder cache.
pub const DECODER_NUM_LAYERS: usize = 8;

/// The cache tensors: a key and a value for each module of each layer.
pub const CACHE_SLOTS: usize = 32;

/// The three sessions of the model.
#[derive(Debug, Clone, Copy, PartialEq, Eq, Structural)]
pub enum ModelPart {
    /// Audio to hidden states.
    Encoder,
    /// The first decoding step, without a cache.
    DecoderFirst,
    /// The later decoding steps, with the cache of the step before.
    DecoderWithPast,
}

/// The name of a session's model.
pub open spec fn part_stem(p: ModelPart) -> Seq<char> {
    match p {
        ModelPart::Encoder => "encoder_model"@,
        ModelPart::DecoderFirst => "decoder_model"@,
        ModelPart::DecoderWithPast => "decoder_with_past_model"@,
    }
}

impl ModelPart {
    /// The name of the session's model.
    pub fn stem(&self) -> (r: &'static str)
        ensures
            r@ == part_stem(*self),
    {
        match self {
            ModelPart::Encoder => "encoder_model",
            ModelPart::DecoderFirst => "decoder_model",
            ModelPart::DecoderWithPast => "decoder_with_past_model",
        }
    }

    /// The file the session loads: the model's name with `.onnx`.
    pub fn file_name(&self) -> (r: String)
        ensures
            r@ == part_stem(*self) + ".onnx"@,
    {
        let mut r = copy_str(self.stem());
        push_str(&mut r, ".onnx");
        r
    }
}

/// The position of `name` among `names`.
fn position_of(names: &Vec<String>, name: &str) -> (r: Option<usize>)
    ensures
        match r {
            Some(i) => i < names@.len() && names@[i as int]@ == name@,
            None => !views(names@).contains(name@),
        },
{
    let mut i: usize = 0;
    while i < names.len()
        invariant
            i <= names@.len(),
            forall|k: int| 0 <= k < i ==> views(names@)[k] != name@,
        decreases names@.len() - i,
    {
        if str_eq(names[i].as_str(), name) {
            return Some(i);
        }
        i += 1;
    }
    None
}

/// The encoder output to read among the outputs named `names`: the one
/// named `last_hidden_state`, else the one named `hidden_states`, else the
/// first; an error where there is none.
pub fn encoder_output_index(names: &Vec<String>) -> (r: Result<usize, MoonshineError>)
    ensures
        match r {
            Ok(i) => i < names@.len() && if views(names@).contains("last_hidden_state"@) {
                names@[i as int]@ == "last_hidden_state"@
            } else if views(names@).contains("hidden_states"@) {
                names@[i as int]@ == "hidden_states"@
            } else {
                i == 0
            },
            Err(e) => names@.len() == 0 && (e matches MoonshineError::OutputNotFound(m) && m@
                == "hidden_states"@),
        },
{
    match position_of(names, "last_hidden_state") {
        Some(i) => {
            assert(views(names@)[i as int] == names@[i as int]@);
            return Ok(i);
        },
        None => {},
    }
    match position_of(names, "hidden_states") {
        Some(i) => {
            assert(views(names@)[i as int] == names@[i as int]@);
            return Ok(i);
        },
        None => {},
    }
    if names.len() > 0 {
        Ok(0)
    } else {
        Err(MoonshineError::OutputNotFound(copy_str("hidden_states")))
    }
}

/// The decoder output to read among the outputs named `names`: the one
/// named `logits`, else the first; an error where there is none.
pub fn logits_output_index(names: &Vec<String>) -> (r: Result<usize, MoonshineError>)
    ensures
        match r {
            Ok(i) => i < names@.len() && if views(names@).contains("logits"@) {
                names@[i as int]@ == "logits"@
            } else {
                i == 0
            },
            Err(e) => names@.len() == 0 && (e matches MoonshineError::OutputNotFound(m) && m@
                == "logits"@),
        },
{
    match position_of(names, "logits") {
        Some(i) => {
            assert(views(names@)[i as int] == names@[i as int]@);
            return Ok(i);
        },
        None => {},
    }
    if names.len() > 0 {
        Ok(0)
    } else {
        Err(MoonshineError::OutputNotFound(copy_str("logits")))
    }
}

/// The decimal digit `d`.
pub open spec fn digit(d: nat) -> char {
    if d == 0 {
        '0'
    } else if d == 1 {
        '1'
    } else if d == 2 {
        '2'
    } else if d == 3 {
        '3'
    } else if d == 4 {
        '4'
    } else if d == 5 {
        '5'
    } else if d == 6 {
        '6'
    } else if d == 7 {
        '7'
    } else if d == 8 {
        '8'
    } else {
        '9'
    }
}

/// `n` written in decimal.
pub open spec fn decimal(n: nat) -> Seq<char>
    decreases n,
{
    if n < 10 {
        seq![digit(n)]
    } else {
        decimal(n / 10).push(digit(n % 10))
    }
}

/// The character of the decimal digit `d`.
fn digit_char(d: usize) -> (c: char)
    requires
        d < 10,
    ensures
        c == digit(d as nat),
{
    if d == 0 {
        '0'
    } else if d == 1 {
        '1'
    } else if d == 2 {
        '2'
    } else if d == 3 {
        '3'
    } else if d == 4 {
        '4'
    } else if d == 5 {
        '5'
    } else if d == 6 {
        '6'
    } else if d == 7 {
        '7'
    } else if d == 8 {
        '8'
    } else {
        '9'
    }
}

/// The characters of `n` written in decimal.
pub fn decimal_chars(n: usize) -> (r: Vec<char>)
    ensures
        r@ == decimal(n as nat),
    decreases n,
{
    if n < 10 {
        let mut v: Vec<char> = Vec::new();
        v.push(digit_char(n));
        assert(v@ =~= seq![digit(n as nat)]);
        v
    } else {
        let mut v = decimal_chars(n / 10);
        v.push(digit_char(n % 10));
        v
    }
}

/// The layer of cache slot `i`.
pub open spec fn slot_layer(i: int) -> int {
    i / 4
}

/// The module of cache slot `i`: in each layer the decoder's slots come
/// before the encoder's.
pub open spec fn slot_module(i: int) -> Seq<char> {
    if (i / 2) % 2 == 0 {
        "decoder"@
    } else {
        "encoder"@
    }
}

/// The kind of cache slot `i`: in each module the key comes before the
/// value.
pub open spec fn slot_kind(i: int) -> Seq<char> {
    if i % 2 == 0 {
        "key"@
    } else {
        "value"@
    }
}

/// The part of a cache slot's names after their prefix.
pub open spec fn slot_suffix(i: int) -> Seq<char> {
    decimal(slot_layer(i) as nat) + "."@ + slot_module(i) + "."@ + slot_kind(i)
}

/// The name of cache slot `i` as an input of the later decoding steps.
pub open spec fn cache_name(i: int) -> Seq<char> {
    "past_key_values."@ + slot_suffix(i)
}

/// The name of cache slot `i` as an output of a decoding step.
pub open spec fn present_name(i: int) -> Seq<char> {
    "present."@ + slot_suffix(i)
}

/// The part of cache slot `slot`'s names after their prefix.
fn slot_suffix_text(slot: usize) -> (r: String)
    requires
        slot < CACHE_SLOTS,
    ensures
        r@ == slot_suffix(slot as int),
{
    let layer = decimal_chars(slot / 4);
    let mut r = from_chars(&layer);
    push_str(&mut r, ".");
    if (slot / 2) % 2 == 0 {
        push_str(&mut r, "decoder");
    } else {
        push_str(&mut r, "encoder");
    }
    push_str(&mut r, ".");
    if slot % 2 == 0 {
        push_str(&mut r, "key");
    } else {
        push_str(&mut r, "value");
    }
    r
}

/// The name of cache slot `slot` as an input of the later decoding steps.
pub fn cache_input_name(slot: usize) -> (r: String)
    requires
        slot < CACHE_SLOTS,
    ensures
        r@ == cache_name(slot as int),
{
    let mut r = copy_str("past_key_values.");
    let suffix = slot_suffix_text(slot);
    push_str(&mut r, suffix.as_str());
    r
}

/// The name of cache slot `slot` as an output of a decoding step.
pub fn present_output_name(slot: usize) -> (r: String)
    requires
        slot < CACHE_SLOTS,
    ensures
        r@ == present_name(slot as int),
{
    let mut r = copy_str("present.");
    let suffix = slot_suffix_text(slot);
    push_str(&mut r, suffix.as_str());
    r
}

/// Where a decoding step takes a cache slot from.
#[derive(Debug, Clone, Copy, PartialEq, Eq, Structural)]
pub enum CacheSource {
    /// The step's own output.
    Present,
    /// The value the step was given.
    Previous,
    /// Nowhere: the slot stays empty.
    Missing,
}

/// The source of a slot: the step's own output where it produced one, else
/// the value it was given where there was one.
pub open spec fn slot_source(present: bool, previous: bool) -> CacheSource {
    if present {
        CacheSource::Present
    } else if previous {
        CacheSource::Previous
    } else {
        CacheSource::Missing
    }
}

/// The sources of the cache after a step, given which slots the step
/// produced and which it was given (none, for the first step).
pub fn cache_sources(present: &Vec<bool>, previous: &Vec<bool>) -> (r: Vec<CacheSource>)
    requires
        present@.len() == previous@.len(),
    ensures
        r@.len() == present@.len(),
        forall|i: int| 0 <= i < r@.len() ==> #[trigger] r@[i] == slot_source(present@[i], previous@[i]),
{
    let mut r: Vec<CacheSource> = Vec::new();
    let mut i: usize = 0;
    while i < present.len()
        invariant
            present@.len() == previous@.len(),
            i <= present@.len(),
            r@.len() == i,
            forall|k: int| 0 <= k < i ==> #[trigger] r@[k] == slot_source(present@[k], previous@[k]),
        decreases present@.len() - i,
    {
        let s = if present[i] {
            CacheSource::Present
        } else if previous[i] {
            CacheSource::Previous
        } else {
            CacheSource::Missing
        };
        r.push(s);
        i += 1;
    }
    r
}

/// A later decoding step needs every cache slot: the error names the first
/// slot, in order, that the step before left empty.
pub fn check_past_inputs(previous: &Vec<bool>) -> (r: Result<(), MoonshineError>)
    requires
        previous@.len() <= CACHE_SLOTS,
    ensures
        match r {
            Ok(()) => forall|i: int| 0 <= i < previous@.len() ==> #[trigger] previous@[i],
            Err(e) => exists|i: int|
                0 <= i < previous@.len() && !previous@[i] && (forall|j: int|
                    0 <= j < i ==> #[trigger] previous@[j]) && (e matches MoonshineError::InputNotFound(
                    m,
                ) && m@ == cache_name(i)),
        },
{
    let mut i: usize = 0;
    while i < previous.len()
        invariant
            previous@.len() <= CACHE_SLOTS,
            i <= previous@.len(),
            forall|k: int| 0 <= k < i ==> #[trigger] previous@[k],
        decreases previous@.len() - i,
    {
        if !previous[i] {
            let name = cache_input_name(i);
            let e = MoonshineError::InputNotFound(name);
            assert(!previous@[i as int]);
            return Err(e);
        }
        i += 1;
    }
    Ok(())
}

/// The session and the token ids that decoding step `step` runs: the first
/// step reads every token so far, a later one only the last.
pub fn decoder_input(step: usize, tokens: &Vec<i64>) -> (r: (ModelPart, Vec<i64>))
    requires
        tokens@.len() > 0,
    ensures
        step == 0 ==> r.0 == ModelPart::DecoderFirst && r.1@ == tokens@,
        step > 0 ==> r.0 == ModelPart::DecoderWithPast && r.1@ == seq![tokens@.last()],
{
    if step == 0 {
        let mut ids: Vec<i64> = Vec::new();
        let mut i: usize = 0;
        while i < tokens.len()
            invariant
                i <= tokens@.len(),
                ids@ == tokens@.take(i as int),
            decreases tokens@.len() - i,
        {
            ids.push(tokens[i]);
            assert(tokens@.take(i + 1) =~= tokens@.take(i as int).push(tokens@[i as int]));
            i += 1;
        }
        assert(tokens@.take(tokens@.len() as int) =~= tokens@);
        (ModelPart::DecoderFirst, ids)
    } else {
        let mut ids: Vec<i64> = Vec::new();
        ids.push(tokens[tokens.len() - 1]);
        assert(ids@ =~= seq![tokens@.last()]);
        (ModelPart::DecoderWithPast, ids)
    }
}

/// The vocabulary size of logits of shape `shape`: the third dimension, or
/// the second where there are two.
pub open spec fn vocab_size_of(shape: Seq<usize>) -> Option<usize> {
    if shape.len() >= 3 {
        Some(shape[2])
    } else if shape.len() == 2 {
        Some(shape[1])
    } else {
        None
    }
}

/// The vocabulary size of logits of shape `shape`, or the error that the
/// shape tells none.
pub fn logits_vocab_size(shape: &[usize]) -> (r: Result<usize, MoonshineError>)
    ensures
        match vocab_size_of(shape@) {
            Some(v) => r matches Ok(x) && x == v,
            None => r matches Err(MoonshineError::OutputNotFound(m)) && m@
                == "Could not determine vocab size from logits"@,
        },
{
    if shape.len() >= 3 {
        Ok(shape[2])
    } else if shape.len() == 2 {
        Ok(shape[1])
    } else {
        Err(MoonshineError::OutputNotFound(copy_str("Could not determine vocab size from logits")))
    }
}

/// One decoding step after the model chose `next`: the end-of-sequence
/// token stops decoding; any other token is appended and decoding goes on.
pub fn decoder_step(tokens: &mut Vec<i64>, next: i64) -> (more: bool)
    ensures
        more == (next != EOS_TOKEN_ID),
        more ==> final(tokens)@ == old(tokens)@.push(next),
        !more ==> final(tokens)@ == old(tokens)@,
{
    if next == EOS_TOKEN_ID {
        false
    } else {
        tokens.push(next);
        true
    }
}

} // verus!

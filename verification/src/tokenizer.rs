//! The speech model's tokenizer: the vocabulary read from a tokenizer
//! description, and the decoding of token ids back into text.
use vstd::prelude::*;
use std::collections::HashMap;
use crate::text::{copy_str, from_chars, push_char, push_str, to_chars, trim, trim_chars};

verus! {

broadcast use vstd::std_specs::hash::group_hash_axioms;

/// Errors of the speech model; the texts are those its messages show.
#[derive(Debug)]
pub enum MoonshineError {
    Ort(String),
    Io(String),
    Shape(String),
    Tokenizer(String),
    InputNotFound(String),
    OutputNotFound(String),
    JsonParse(String),
}

/// The message of an error.
pub open spec fn error_message(e: MoonshineError) -> Seq<char> {
    match e {
        MoonshineError::Ort(m) => "ORT error: "@ + m@,
        MoonshineError::Io(_) => "I/O error"@,
        MoonshineError::Shape(_) => "ndarray shape error"@,
        MoonshineError::Tokenizer(m) => "Tokenizer error: "@ + m@,
        MoonshineError::InputNotFound(m) => "Model input not found: "@ + m@,
        MoonshineError::OutputNotFound(m) => "Model output not found: "@ + m@,
        MoonshineError::JsonParse(m) => "JSON parse error: "@ + m@,
    }
}

impl MoonshineError {
    /// The message of the error.
    pub fn message(&self) -> (r: String)
        ensures
            r@ == error_message(*self),
    {
        let (prefix, detail) = match self {
            MoonshineError::Ort(m) => ("ORT error: ", Some(m)),
            MoonshineError::Io(_) => ("I/O error", None),
            MoonshineError::Shape(_) => ("ndarray shape error", None),
            MoonshineError::Tokenizer(m) => ("Tokenizer error: ", Some(m)),
            MoonshineError::InputNotFound(m) => ("Model input not found: ", Some(m)),
            MoonshineError::OutputNotFound(m) => ("Model output not found: ", Some(m)),
            MoonshineError::JsonParse(m) => ("JSON parse error: ", Some(m)),
        };
        let mut r = copy_str(prefix);
        match detail {
            Some(m) => push_str(&mut r, m.as_str()),
            None => {},
        }
        r
    }
}

/// The vocabulary after the `vocab` entries, in order, that carry an id
/// (ids are taken modulo 2^32; a later entry replaces an earlier one).
pub open spec fn with_vocab(m: Map<u32, Seq<char>>, vocab: Seq<(Seq<char>, Option<u64>)>) -> Map<
    u32,
    Seq<char>,
>
    decreases vocab.len(),
{
    if vocab.len() == 0 {
        m
    } else {
        let prev = with_vocab(m, vocab.drop_last());
        match vocab.last().1 {
            Some(id) => prev.insert(id as u32, vocab.last().0),
            None => prev,
        }
    }
}

/// The vocabulary after the added tokens, in order, that carry both an id
/// and a content.
pub open spec fn with_added(m: Map<u32, Seq<char>>, added: Seq<(Option<u64>, Option<Seq<char>>)>) -> Map<
    u32,
    Seq<char>,
>
    decreases added.len(),
{
    if added.len() == 0 {
        m
    } else {
        let prev = with_added(m, added.drop_last());
        match (added.last().0, added.last().1) {
            (Some(id), Some(t)) => prev.insert(id as u32, t),
            _ => prev,
        }
    }
}

/// The plain view of vocabulary entries.
pub open spec fn vocab_view(v: Seq<(String, Option<u64>)>) -> Seq<(Seq<char>, Option<u64>)> {
    v.map_values(|e: (String, Option<u64>)| (e.0@, e.1))
}

/// The plain view of added tokens.
pub open spec fn added_view(v: Seq<(Option<u64>, Option<String>)>) -> Seq<
    (Option<u64>, Option<Seq<char>>),
> {
    v.map_values(
        |e: (Option<u64>, Option<String>)|
            (
                e.0,
                match e.1 {
                    Some(s) => Some(s@),
                    None => None,
                },
            ),
    )
}

/// The vocabulary a tokenizer description gives: the model's vocabulary,
/// then the added tokens.
pub open spec fn vocabulary(
    vocab: Seq<(Seq<char>, Option<u64>)>,
    added: Seq<(Option<u64>, Option<Seq<char>>)>,
) -> Map<u32, Seq<char>> {
    with_added(with_vocab(Map::empty(), vocab), added)
}

/// The tokens skipped when special tokens are not wanted.
pub open spec fn is_special(t: Seq<char>) -> bool {
    ||| t == "<s>"@
    ||| t == "</s>"@
    ||| t == "<pad>"@
    ||| t == "<unk>"@
    ||| t == "[CLS]"@
    ||| t == "[SEP]"@
    ||| t == "[PAD]"@
    ||| t == "[UNK]"@
    ||| t == "<|endoftext|>"@
}

/// A token's character with the byte-level markers read: `Ġ` and `▁` are
/// spaces, `Ċ` a newline.
pub open spec fn unmark(c: char) -> char {
    if c == 'Ġ' || c == '▁' {
        ' '
    } else if c == 'Ċ' {
        '\n'
    } else {
        c
    }
}

/// The text of a token.
pub open spec fn token_text(t: Seq<char>) -> Seq<char> {
    t.map_values(|c: char| unmark(c))
}

/// The text of a sequence of token ids: each known id's text in order,
/// unknown ids left out, and special tokens left out when `skip` is set.
pub open spec fn decoded(vocab: Map<u32, Seq<char>>, ids: Seq<u32>, skip: bool) -> Seq<char>
    decreases ids.len(),
{
    if ids.len() == 0 {
        Seq::empty()
    } else {
        let prev = decoded(vocab, ids.drop_last(), skip);
        let id = ids.last();
        if vocab.contains_key(id) && !(skip && is_special(vocab[id])) {
            prev + token_text(vocab[id])
        } else {
            prev
        }
    }
}

/// Decoding is done token by token: the text of two sequences of ids one
/// after the other is the text of the first followed by that of the second.
pub proof fn decoding_distributes_over_concatenation(
    vocab: Map<u32, Seq<char>>,
    a: Seq<u32>,
    b: Seq<u32>,
    skip: bool,
)
    ensures
        decoded(vocab, a + b, skip) == decoded(vocab, a, skip) + decoded(vocab, b, skip),
    decreases b.len(),
{
    if b.len() == 0 {
        assert(a + b =~= a);
        assert(decoded(vocab, a, skip) + Seq::<char>::empty() =~= decoded(vocab, a, skip));
    } else {
        decoding_distributes_over_concatenation(vocab, a, b.drop_last(), skip);
        assert((a + b).drop_last() =~= a + b.drop_last());
        assert((a + b).last() == b.last());
        let id = b.last();
        if vocab.contains_key(id) && !(skip && is_special(vocab[id])) {
            assert(decoded(vocab, a, skip) + decoded(vocab, b.drop_last(), skip) + token_text(
                vocab[id],
            ) =~= decoded(vocab, a, skip) + (decoded(vocab, b.drop_last(), skip) + token_text(
                vocab[id],
            )));
        }
    }
}

/// A tokenizer that maps token ids to their text and back.
pub struct SimpleTokenizer {
    id_to_token: HashMap<u32, String>,
    token_to_id: HashMap<String, u32>,
}

impl View for SimpleTokenizer {
    type V = Map<u32, Seq<char>>;

    /// The text of each known token id.
    closed spec fn view(&self) -> Map<u32, Seq<char>> {
        self.id_to_token@.map_values(|s: String| s@)
    }
}

fn is_special_token(t: &str) -> (r: bool)
    ensures
        r == is_special(t@),
{
    crate::text::str_eq(t, "<s>") || crate::text::str_eq(t, "</s>") || crate::text::str_eq(
        t,
        "<pad>",
    ) || crate::text::str_eq(t, "<unk>") || crate::text::str_eq(t, "[CLS]")
        || crate::text::str_eq(t, "[SEP]") || crate::text::str_eq(t, "[PAD]")
        || crate::text::str_eq(t, "[UNK]") || crate::text::str_eq(t, "<|endoftext|>")
}

impl SimpleTokenizer {
    /// Builds the tokenizer from a tokenizer description's model vocabulary
    /// (token and id, when the id is a number) and added tokens (id and
    /// content, when present); an empty vocabulary is an error.
    pub fn from_entries(
        vocab: Vec<(String, Option<u64>)>,
        added: Vec<(Option<u64>, Option<String>)>,
    ) -> (r: Result<Self, MoonshineError>)
        ensures
            vocabulary(vocab_view(vocab@), added_view(added@)).is_empty() ==> (r matches Err(
                MoonshineError::Tokenizer(m),
            ) && m@ == "No vocabulary found in tokenizer.json"@),
            !vocabulary(vocab_view(vocab@), added_view(added@)).is_empty() ==> (r matches Ok(t)
                && t@ == vocabulary(vocab_view(vocab@), added_view(added@))),
    {
        let mut id_to_token: HashMap<u32, String> = HashMap::new();
        let mut token_to_id: HashMap<String, u32> = HashMap::new();
        let ghost vv = vocab_view(vocab@);
        let ghost av = added_view(added@);
        let mut i: usize = 0;
        while i < vocab.len()
            invariant
                vv == vocab_view(vocab@),
                i <= vocab.len(),
                id_to_token@.map_values(|s: String| s@) == with_vocab(Map::empty(), vv.take(i as int)),
            decreases vocab.len() - i,
        {
            assert(vv.take(i + 1).drop_last() =~= vv.take(i as int));
            assert(vv.take(i + 1).last() == vv[i as int]);
            let (token, id) = (&vocab[i].0, vocab[i].1);
            match id {
                Some(n) => {
                    #[verifier::truncate]
                    let id32 = n as u32;
                    id_to_token.insert(id32, token.clone());
                    token_to_id.insert(token.clone(), id32);
                    assert(id_to_token@.map_values(|s: String| s@) =~= with_vocab(
                        Map::empty(),
                        vv.take(i + 1),
                    ));
                },
                None => {},
            }
            i += 1;
        }
        assert(vv.take(vocab.len() as int) =~= vv);
        let mut j: usize = 0;
        while j < added.len()
            invariant
                vv == vocab_view(vocab@),
                av == added_view(added@),
                j <= added.len(),
                id_to_token@.map_values(|s: String| s@) == with_added(
                    with_vocab(Map::empty(), vv),
                    av.take(j as int),
                ),
            decreases added.len() - j,
        {
            assert(av.take(j + 1).drop_last() =~= av.take(j as int));
            assert(av.take(j + 1).last() == av[j as int]);
            match (&added[j].0, &added[j].1) {
                (Some(n), Some(content)) => {
                    #[verifier::truncate]
                    let id32 = *n as u32;
                    id_to_token.insert(id32, content.clone());
                    token_to_id.insert(content.clone(), id32);
                    assert(id_to_token@.map_values(|s: String| s@) =~= with_added(
                        with_vocab(Map::empty(), vv),
                        av.take(j + 1),
                    ));
                },
                _ => {},
            }
            j += 1;
        }
        assert(av.take(added.len() as int) =~= av);
        if id_to_token.is_empty() {
            assert(id_to_token@.map_values(|s: String| s@).dom() =~= id_to_token@.dom());
            return Err(MoonshineError::Tokenizer(copy_str("No vocabulary found in tokenizer.json")));
        }
        proof {
            let k = id_to_token@.dom().choose();
            assert(id_to_token@.dom().contains(k));
            assert(id_to_token@.map_values(|s: String| s@).dom().contains(k));
        }
        Ok(SimpleTokenizer { id_to_token, token_to_id })
    }

    /// The text of the token ids: known ids in order with their markers
    /// read, unknown ids left out, special tokens left out on request.
    pub fn decode(&self, token_ids: &[u32], skip_special_tokens: bool) -> (r: Result<
        String,
        MoonshineError,
    >)
        ensures
            r matches Ok(s) && s@ == decoded(self@, token_ids@, skip_special_tokens),
    {
        let mut result = String::new();
        let mut i: usize = 0;
        while i < token_ids.len()
            invariant
                i <= token_ids.len(),
                result@ == decoded(self@, token_ids@.take(i as int), skip_special_tokens),
            decreases token_ids.len() - i,
        {
            let id = token_ids[i];
            let ghost t = token_ids@.take(i + 1);
            assert(t.drop_last() =~= token_ids@.take(i as int));
            assert(t.last() == id);
            match self.id_to_token.get(&id) {
                Some(token) => {
                    assert(self@.contains_key(id) && self@[id] == token@);
                    if !(skip_special_tokens && is_special_token(token.as_str())) {
                        let cs = to_chars(token.as_str());
                        let mut k: usize = 0;
                        let ghost before = result@;
                        while k < cs.len()
                            invariant
                                cs@ == token@,
                                k <= cs.len(),
                                result@ == before + token_text(cs@).take(k as int),
                            decreases cs.len() - k,
                        {
                            let c = cs[k];
                            let d = if c == 'Ġ' || c == '▁' {
                                ' '
                            } else if c == 'Ċ' {
                                '\n'
                            } else {
                                c
                            };
                            push_char(&mut result, d);
                            assert(token_text(cs@).take(k + 1) =~= token_text(cs@).take(
                                k as int,
                            ).push(d));
                            k += 1;
                        }
                        assert(token_text(cs@).take(cs.len() as int) =~= token_text(cs@));
                    }
                },
                None => {
                    assert(!self@.contains_key(id));
                },
            }
            i += 1;
        }
        assert(token_ids@.take(token_ids.len() as int) =~= token_ids@);
        Ok(result)
    }

    /// The number of known token ids.
    pub fn vocab_size(&self) -> (r: usize)
        ensures
            r == self@.len(),
    {
        assert(self.id_to_token@.map_values(|s: String| s@).dom() =~= self.id_to_token@.dom());
        self.id_to_token.len()
    }

    /// Builds the tokenizer from the text of a tokenizer description: its
    /// model vocabulary and added tokens, as `from_entries` takes them; text
    /// that is not JSON is a `JsonParse` error carrying the parser's message.
    pub fn from_json(content: &str) -> (r: Result<Self, MoonshineError>)
        ensures
            match tokenizer_json(content@) {
                Err(e) => r matches Err(MoonshineError::JsonParse(m)) && m@
                    == "Failed to parse tokenizer JSON: "@ + e,
                Ok(entries) => {
                    &&& vocabulary(entries.0, entries.1).is_empty() ==> (r matches Err(
                        MoonshineError::Tokenizer(m),
                    ) && m@ == "No vocabulary found in tokenizer.json"@)
                    &&& !vocabulary(entries.0, entries.1).is_empty() ==> (r matches Ok(t) && t@
                        == vocabulary(entries.0, entries.1))
                },
            },
    {
        match parse_tokenizer_json(content) {
            Err(e) => {
                let mut m = copy_str("Failed to parse tokenizer JSON: ");
                push_str(&mut m, e.as_str());
                Err(MoonshineError::JsonParse(m))
            },
            Ok((vocab, added)) => Self::from_entries(vocab, added),
        }
    }
}

/// What the entries read from a tokenizer description are: the model
/// vocabulary (token, and id where it is an unsigned integer) in key order,
/// and the added tokens (id and content where present) in order; or the
/// JSON parser's error message.
pub uninterp spec fn tokenizer_json(content: Seq<char>) -> Result<
    (Seq<(Seq<char>, Option<u64>)>, Seq<(Option<u64>, Option<Seq<char>>)>),
    Seq<char>,
>;

/// The plain values of the wrapper's result.
pub open spec fn entries_view(
    r: Result<(Vec<(String, Option<u64>)>, Vec<(Option<u64>, Option<String>)>), String>,
) -> Result<(Seq<(Seq<char>, Option<u64>)>, Seq<(Option<u64>, Option<Seq<char>>)>), Seq<char>> {
    match r {
        Ok(p) => Ok((vocab_view(p.0@), added_view(p.1@))),
        Err(e) => Err(e@),
    }
}

/// Calls `serde_json::from_str` into a JSON value and picks out
/// `model.vocab` (each key with its value as an unsigned integer, if it is
/// one) and `added_tokens` (each item's `id` and `content`), a missing or
/// mistyped part giving no entries; a parse error becomes its message. The
/// contract only names the result.
#[verifier::external_body]
fn parse_tokenizer_json(content: &str) -> (r: Result<
    (Vec<(String, Option<u64>)>, Vec<(Option<u64>, Option<String>)>),
    String,
>)
    ensures
        entries_view(r) == tokenizer_json(content@),
{
    let json: serde_json::Value = serde_json::from_str(content).map_err(|e| e.to_string())?;
    let vocab = json["model"]["vocab"].as_object().map(|o| o.iter().map(|(t, id)| (t.clone(), id.as_u64())).collect());
    let added = json["added_tokens"].as_array().map(|a| a.iter().map(|t| (t["id"].as_u64(), t["content"].as_str().map(String::from))).collect());
    Ok((vocab.unwrap_or_default(), added.unwrap_or_default()))
}

/// The beginning-of-sequence token id.
pub const BOS_TOKEN_ID: i64 = 1;

/// The end-of-sequence token id.
pub const EOS_TOKEN_ID: i64 = 2;

/// The largest number of tokens decoded for one utterance.
pub const MAX_TOKENS: usize = 1024;

/// The token ids of a decoded utterance: the leading beginning-of-sequence
/// token removed.
pub fn strip_bos(tokens: Vec<i64>) -> (r: Vec<i64>)
    ensures
        tokens@.len() > 0 && tokens@[0] == BOS_TOKEN_ID ==> r@ == tokens@.drop_first(),
        !(tokens@.len() > 0 && tokens@[0] == BOS_TOKEN_ID) ==> r@ == tokens@,
{
    let mut t = tokens;
    if t.len() > 0 && t[0] == BOS_TOKEN_ID {
        t.remove(0);
    }
    t
}

/// The text of decoded token ids (each id taken modulo 2^32), special
/// tokens left out and surrounding whitespace trimmed.
pub fn tokens_to_text(tokenizer: &SimpleTokenizer, tokens: &Vec<i64>) -> (r: Result<
    String,
    MoonshineError,
>)
    ensures
        r matches Ok(s) && s@ == trim(
            decoded(tokenizer@, tokens@.map_values(|t: i64| t as u32), true),
        ),
{
    let mut ids: Vec<u32> = Vec::new();
    let mut i: usize = 0;
    while i < tokens.len()
        invariant
            i <= tokens.len(),
            ids@ == tokens@.take(i as int).map_values(|t: i64| t as u32),
        decreases tokens.len() - i,
    {
        #[verifier::truncate]
        let id = tokens[i] as u32;
        ids.push(id);
        assert(ids@ =~= tokens@.take(i + 1).map_values(|t: i64| t as u32));
        i += 1;
    }
    assert(tokens@.take(tokens.len() as int) =~= tokens@);
    let text = match tokenizer.decode(ids.as_slice(), true) {
        Ok(t) => t,
        Err(e) => {
            return Err(e);
        },
    };
    let cs = to_chars(text.as_str());
    let trimmed = trim_chars(&cs);
    Ok(from_chars(&trimmed))
}

} // verus!

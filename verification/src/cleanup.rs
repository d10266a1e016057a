//! Cleanup of raw speech-recognition transcripts: special tokens stripped,
//! stuttered words and looping phrases collapsed, whitespace normalized.
use vstd::prelude::*;
use crate::text::{
    chars_eq, char_lowercase, char_to_lowercase, copy_str, from_chars, is_whitespace, is_ws, join,
    join_strings, lowercase, normalized, push_char, space, split_words, to_chars, to_lowercase,
    views, words, normalized_is_idempotent, normalized_keeps_words_single_spaced, single_spaced,
    is_word, lemma_words_are_words, lemma_words_of_join,
};

verus! {

/// Collapses whitespace runs to single spaces and trims both ends.
pub fn normalize_whitespace(text: &str) -> (r: String)
    ensures
        r@ == normalized(text@),
        words(r@) == words(text@),
        single_spaced(r@),
{
    proof {
        normalized_keeps_words_single_spaced(text@);
    }
    let ws = split_words(text);
    let sep = " ";
    proof {
        reveal_strlit(" ");
        assert(sep@ =~= space());
    }
    join_strings(&ws, sep)
}

/// The lowercase form of each word.
pub open spec fn lowered(ws: Seq<Seq<char>>) -> Seq<Seq<char>> {
    ws.map_values(|w: Seq<char>| lowercase(w))
}

/// Longest run a repeated word may have and survive whole.
pub const MAX_CONSECUTIVE_WORD_RUN: usize = 2;

/// How many words end at index `i` in a run of words whose lowercase forms
/// are all equal (the word at `i` counts).
pub open spec fn run_len(low: Seq<Seq<char>>, i: int) -> nat
    decreases i,
{
    if i <= 0 {
        1
    } else if low[i - 1] == low[i] {
        run_len(low, i - 1) + 1
    } else {
        1
    }
}

/// The first `n` words of `ws` without those that stand past the second
/// place of a run of case-insensitively equal words.
pub open spec fn dedupe_words_prefix(ws: Seq<Seq<char>>, n: int) -> Seq<Seq<char>>
    decreases n,
{
    if n <= 0 {
        Seq::empty()
    } else {
        let p = dedupe_words_prefix(ws, n - 1);
        if run_len(lowered(ws), n - 1) <= MAX_CONSECUTIVE_WORD_RUN {
            p.push(ws[n - 1])
        } else {
            p
        }
    }
}

/// The words that `dedupe_consecutive_words` keeps.
pub open spec fn dedupe_words_seq(ws: Seq<Seq<char>>) -> Seq<Seq<char>> {
    dedupe_words_prefix(ws, ws.len() as int)
}

/// What `dedupe_consecutive_words` returns.
pub open spec fn dedupe_words_spec(text: Seq<char>) -> Seq<char> {
    join(dedupe_words_seq(words(text)), space())
}

/// Collapses every run of more than two case-insensitively equal words to
/// its first two; the words come out joined by single spaces.
pub fn dedupe_consecutive_words(text: &str) -> (r: String)
    ensures
        r@ == dedupe_words_spec(text@),
{
    let ws = split_words(text);
    let ghost wv = views(ws@);
    let ghost low = lowered(wv);
    let mut kept: Vec<String> = Vec::new();
    let mut run: usize = 0;
    let mut prev_lower = String::new();
    let mut i: usize = 0;
    while i < ws.len()
        invariant
            wv == views(ws@),
            low == lowered(wv),
            i <= ws.len(),
            views(kept@) == dedupe_words_prefix(wv, i as int),
            i == 0 ==> run == 0 && prev_lower@ == Seq::<char>::empty(),
            i > 0 ==> run == run_len(low, i - 1) && prev_lower@ == low[i - 1],
            run <= i,
        decreases ws.len() - i,
    {
        let lower = to_lowercase(ws[i].as_str());
        assert(low[i as int] == lower@);
        if lower == prev_lower {
            run += 1;
            if run <= MAX_CONSECUTIVE_WORD_RUN {
                kept.push(ws[i].clone());
            }
        } else {
            kept.push(ws[i].clone());
            run = 1;
            prev_lower = lower;
        }
        assert(views(kept@) =~= dedupe_words_prefix(wv, i + 1));
        i += 1;
    }
    let sep = " ";
    proof {
        reveal_strlit(" ");
        assert(sep@ =~= space());
    }
    join_strings(&kept, sep)
}

/// Longest run a repeated phrase may have before it is collapsed.
pub const MAX_CONSECUTIVE_PHRASE_RUN: usize = 2;

/// Longest phrase, in words, that is looked for.
pub const MAX_PHRASE_WINDOW: usize = 5;

/// Where the run of copies of the window `low[i..i+w]` that continues at `j`
/// ends: `j` advances by `w` while the next `w` words equal the window.
pub open spec fn copies_end(low: Seq<Seq<char>>, i: int, w: int, j: int) -> int
    decreases low.len() - j,
{
    if w > 0 && 0 <= j && j + w <= low.len() && low.subrange(j, j + w) == low.subrange(i, i + w) {
        copies_end(low, i, w, j + w)
    } else {
        j
    }
}

/// The largest window size from `w` down to 2 whose phrase at `i` is
/// followed by at least two more copies (more than
/// `MAX_CONSECUTIVE_PHRASE_RUN` copies in all).
pub open spec fn collapse_window(low: Seq<Seq<char>>, i: int, w: int) -> Option<int>
    decreases w,
{
    if w < 2 {
        None
    } else if copies_end(low, i, w, i + w) >= i + 3 * w {
        Some(w)
    } else {
        collapse_window(low, i, w - 1)
    }
}

/// The largest window tried at `i` among `n` words.
pub open spec fn max_window(n: int, i: int) -> int {
    if (n - i) / 2 < MAX_PHRASE_WINDOW {
        (n - i) / 2
    } else {
        MAX_PHRASE_WINDOW as int
    }
}

/// The end of the copies of a window lies between where the scan starts and the end of the words.
pub proof fn lemma_copies_end_bounds(low: Seq<Seq<char>>, i: int, w: int, j: int)
    requires
        0 <= j <= low.len(),
    ensures
        j <= copies_end(low, i, w, j) <= low.len(),
    decreases low.len() - j,
{
    if w > 0 && 0 <= j && j + w <= low.len() && low.subrange(j, j + w) == low.subrange(i, i + w) {
        lemma_copies_end_bounds(low, i, w, j + w);
    }
}

/// A window that collapses spans between two words and `w`.
pub proof fn lemma_collapse_window_range(low: Seq<Seq<char>>, i: int, w: int)
    ensures
        collapse_window(low, i, w) matches Some(v) ==> 2 <= v <= w,
    decreases w,
{
    if w >= 2 && !(copies_end(low, i, w, i + w) >= i + 3 * w) {
        lemma_collapse_window_range(low, i, w - 1);
    }
}

/// The greedy pass from word `i` on: where a phrase of 2 to 5 words starting
/// at `i` repeats more than twice in a row, one copy stays and the pass
/// resumes after the last copy; otherwise word `i` stays.
pub open spec fn phrase_pass(ws: Seq<Seq<char>>, i: int) -> Seq<Seq<char>>
    decreases ws.len() - i,
{
    if i < 0 || i >= ws.len() {
        Seq::empty()
    } else {
        let low = lowered(ws);
        let m = max_window(ws.len() as int, i);
        match collapse_window(low, i, m) {
            Some(w) => {
                proof {
                    lemma_collapse_window_range(low, i, m);
                    lemma_copies_end_bounds(low, i, w, i + w);
                }
                ws.subrange(i, i + w) + phrase_pass(ws, copies_end(low, i, w, i + w))
            },
            None => seq![ws[i]] + phrase_pass(ws, i + 1),
        }
    }
}

/// What `dedupe_consecutive_phrases` returns: the text unchanged when it has
/// fewer than four words, else the words of the greedy pass joined by single
/// spaces.
pub open spec fn dedupe_phrases_spec(text: Seq<char>) -> Seq<char> {
    if words(text).len() < 4 {
        text
    } else {
        join(phrase_pass(words(text), 0), space())
    }
}

fn window_eq(lows: &Vec<String>, i: usize, j: usize, w: usize) -> (r: bool)
    requires
        i + w <= lows.len(),
        j + w <= lows.len(),
    ensures
        r == (views(lows@).subrange(j as int, j + w) == views(lows@).subrange(i as int, i + w)),
{
    let ghost v = views(lows@);
    let mut k: usize = 0;
    while k < w
        invariant
            v == views(lows@),
            i + w <= lows.len(),
            j + w <= lows.len(),
            k <= w,
            v.subrange(j as int, j + k) == v.subrange(i as int, i + k),
        decreases w - k,
    {
        if lows[j + k] != lows[i + k] {
            assert(v.subrange(j as int, j + w)[k as int] != v.subrange(i as int, i + w)[k as int]);
            return false;
        }
        assert(v.subrange(j as int, j + k + 1) =~= v.subrange(j as int, j + k).push(v[j + k]));
        assert(v.subrange(i as int, i + k + 1) =~= v.subrange(i as int, i + k).push(v[i + k]));
        k += 1;
    }
    assert(v.subrange(j as int, j + w) =~= v.subrange(i as int, i + w));
    true
}

fn copies_end_exec(lows: &Vec<String>, i: usize, w: usize) -> (r: usize)
    requires
        w > 0,
        i + w <= lows.len(),
    ensures
        r == copies_end(views(lows@), i as int, w as int, i + w),
        i + w <= r <= lows.len(),
{
    let ghost v = views(lows@);
    let mut j = i + w;
    while w <= lows.len() - j && window_eq(lows, i, j, w)
        invariant
            v == views(lows@),
            w > 0,
            i + w <= j <= lows.len(),
            copies_end(v, i as int, w as int, i + w) == copies_end(v, i as int, w as int, j as int),
        decreases lows.len() - j,
    {
        j += w;
    }
    j
}

fn find_collapse(lows: &Vec<String>, i: usize) -> (r: Option<(usize, usize)>)
    requires
        i < lows.len(),
    ensures
        ({
            let v = views(lows@);
            match collapse_window(v, i as int, max_window(lows.len() as int, i as int)) {
                Some(w) => r == Some((w as usize, copies_end(v, i as int, w, i + w) as usize)),
                None => r is None,
            }
        }),
{
    let ghost v = views(lows@);
    let n = lows.len();
    let maxw = if (n - i) / 2 < MAX_PHRASE_WINDOW {
        (n - i) / 2
    } else {
        MAX_PHRASE_WINDOW
    };
    assert(maxw as int == max_window(n as int, i as int));
    let mut w = maxw;
    while w >= 2
        invariant
            v == views(lows@),
            n == lows.len(),
            i < n,
            w <= maxw,
            maxw <= MAX_PHRASE_WINDOW,
            maxw as int == max_window(n as int, i as int),
            i + 2 * maxw <= n,
            collapse_window(v, i as int, maxw as int) == collapse_window(v, i as int, w as int),
        decreases w,
    {
        let e = copies_end_exec(lows, i, w);
        if e - i >= 3 * w {
            return Some((w, e));
        }
        w -= 1;
    }
    None
}

/// Collapses a phrase of 2 to 5 words that repeats more than twice in a row
/// to one copy, scanning greedily from the left and preferring the longest
/// phrase. Text of fewer than four words comes back unchanged; otherwise the
/// words come out joined by single spaces.
pub fn dedupe_consecutive_phrases(text: &str) -> (r: String)
    ensures
        r@ == dedupe_phrases_spec(text@),
{
    let ws = split_words(text);
    if ws.len() < 4 {
        return copy_str(text);
    }
    let ghost wv = views(ws@);
    let n = ws.len();
    let mut lows: Vec<String> = Vec::new();
    let mut k: usize = 0;
    while k < n
        invariant
            n == ws.len(),
            wv == views(ws@),
            k <= n,
            views(lows@) =~= lowered(wv).take(k as int),
        decreases n - k,
    {
        let l = to_lowercase(ws[k].as_str());
        assert(lowered(wv)[k as int] == lowercase(wv[k as int]));
        assert(wv[k as int] == ws@[k as int]@);
        let ghost prev = views(lows@);
        lows.push(l);
        assert(views(lows@) =~= prev.push(lowered(wv)[k as int]));
        assert(views(lows@) =~= lowered(wv).take(k + 1));
        k += 1;
    }
    assert(lowered(wv).take(n as int) =~= lowered(wv));
    let ghost low = lowered(wv);
    let mut result: Vec<String> = Vec::new();
    let mut i: usize = 0;
    while i < n
        invariant
            n == ws.len(),
            n == lows.len(),
            wv == views(ws@),
            low == lowered(wv),
            views(lows@) == low,
            i <= n,
            views(result@) + phrase_pass(wv, i as int) == phrase_pass(wv, 0),
        decreases n - i,
    {
        let ghost before = views(result@);
        match find_collapse(&lows, i) {
            Some((w, e)) => {
                proof {
                    lemma_collapse_window_range(low, i as int, max_window(n as int, i as int));
                    lemma_copies_end_bounds(low, i as int, w as int, i + w);
                    assert(phrase_pass(wv, i as int) == wv.subrange(i as int, i + w) + phrase_pass(
                        wv,
                        e as int,
                    ));
                }
                let mut m: usize = 0;
                while m < w
                    invariant
                        n == ws.len(),
                        wv == views(ws@),
                        i + w <= n,
                        m <= w,
                        views(result@) == before + wv.subrange(i as int, i + m),
                    decreases w - m,
                {
                    let ghost prev = views(result@);
                    let x = ws[i + m].clone();
                    result.push(x);
                    assert(views(result@) =~= prev.push(wv[i + m]));
                    assert(wv.subrange(i as int, i + m + 1) =~= wv.subrange(i as int, i + m).push(
                        wv[i + m],
                    ));
                    assert(views(result@) =~= before + wv.subrange(i as int, i + m + 1));
                    m += 1;
                }
                assert(views(result@) + phrase_pass(wv, e as int) =~= before + phrase_pass(
                    wv,
                    i as int,
                ));
                i = e;
            },
            None => {
                assert(phrase_pass(wv, i as int) == seq![wv[i as int]] + phrase_pass(wv, i + 1));
                let x = ws[i].clone();
                result.push(x);
                assert(views(result@) =~= before.push(wv[i as int]));
                assert(views(result@) + phrase_pass(wv, i + 1) =~= before + phrase_pass(
                    wv,
                    i as int,
                ));
                i += 1;
            },
        }
    }
    assert(views(result@) =~= phrase_pass(wv, 0));
    let sep = " ";
    proof {
        reveal_strlit(" ");
        assert(sep@ =~= space());
    }
    join_strings(&result, sep)
}

/// The SentencePiece word marker `▁` (U+2581).
pub open spec fn is_marker(c: char) -> bool {
    c == '\u{2581}'
}

/// `s` with every SentencePiece word marker replaced by a space.
pub open spec fn markers_to_spaces(s: Seq<char>) -> Seq<char> {
    s.map_values(|c: char| if is_marker(c) { ' ' } else { c })
}

/// `a` and `b` are equal position by position once each character is
/// lowercased on its own.
pub open spec fn ci_eq(a: Seq<char>, b: Seq<char>) -> bool {
    a.len() == b.len() && forall|k: int|
        0 <= k < a.len() ==> #[trigger] char_lowercase(a[k]) == char_lowercase(b[k])
}

/// `s` with every case-insensitive occurrence of `tok` removed, scanning
/// from the left and resuming after each removed occurrence.
pub open spec fn remove_ci(s: Seq<char>, tok: Seq<char>) -> Seq<char>
    decreases s.len(),
{
    if s.len() == 0 {
        s
    } else if 0 < tok.len() <= s.len() && ci_eq(s.take(tok.len() as int), tok) {
        remove_ci(s.skip(tok.len() as int), tok)
    } else {
        seq![s[0]] + remove_ci(s.drop_first(), tok)
    }
}

/// `remove_ci` with each token of `toks` in turn.
pub open spec fn remove_all_ci(s: Seq<char>, toks: Seq<Seq<char>>) -> Seq<char>
    decreases toks.len(),
{
    if toks.len() == 0 {
        s
    } else {
        remove_all_ci(remove_ci(s, toks[0]), toks.drop_first())
    }
}

/// The meta tokens that leak out of the recognizers' vocabularies.
pub open spec fn special_tokens_spec() -> Seq<Seq<char>> {
    seq![
        "[blank]"@,
        "[pad]"@,
        "[unk]"@,
        "[music]"@,
        "[applause]"@,
        "[laughter]"@,
        "[noise]"@,
        "[silence]"@,
        "<blank>"@,
        "<pad>"@,
        "<unk>"@,
        "<s>"@,
        "</s>"@,
        "<|endoftext|>"@,
        "<|startoftranscript|>"@,
    ]
}

/// One pass over the special tokens, each removed in turn.
pub open spec fn strip_pass(s: Seq<char>) -> Seq<char> {
    remove_all_ci(s, special_tokens_spec())
}

/// Passes repeated until one removes nothing, so that no token spliced
/// together by an inner removal survives.
pub open spec fn strip_fix(s: Seq<char>) -> Seq<char>
    decreases s.len(),
{
    let t = strip_pass(s);
    if t.len() < s.len() {
        strip_fix(t)
    } else {
        s
    }
}

/// What `strip_special_tokens` returns.
pub open spec fn strip_spec(text: Seq<char>) -> Seq<char> {
    strip_fix(markers_to_spaces(text))
}

/// `tok` occurs in `s`, ignoring case character by character.
pub open spec fn contains_ci(s: Seq<char>, tok: Seq<char>) -> bool {
    exists|i: int|
        0 <= i && i + tok.len() <= s.len() && #[trigger] ci_eq(s.subrange(i, i + tok.len()), tok)
}

proof fn lemma_remove_ci_len(s: Seq<char>, tok: Seq<char>)
    ensures
        remove_ci(s, tok).len() <= s.len(),
        remove_ci(s, tok).len() == s.len() ==> remove_ci(s, tok) == s,
        remove_ci(s, tok).len() == s.len() && tok.len() > 0 ==> !contains_ci(s, tok),
    decreases s.len(),
{
    if s.len() > 0 {
        if 0 < tok.len() <= s.len() && ci_eq(s.take(tok.len() as int), tok) {
            lemma_remove_ci_len(s.skip(tok.len() as int), tok);
        } else {
            let r = s.drop_first();
            lemma_remove_ci_len(r, tok);
            let out = seq![s[0]] + remove_ci(r, tok);
            if out.len() == s.len() {
                assert(remove_ci(r, tok) == r);
                assert(out =~= s);
                if tok.len() > 0 {
                    assert forall|i: int|
                        0 <= i && i + tok.len() <= s.len() implies !#[trigger] ci_eq(
                        s.subrange(i, i + tok.len()),
                        tok,
                    ) by {
                        if i == 0 {
                            assert(s.subrange(0, tok.len() as int) =~= s.take(tok.len() as int));
                        } else {
                            assert(s.subrange(i, i + tok.len()) =~= r.subrange(
                                i - 1,
                                i - 1 + tok.len(),
                            ));
                            assert(!contains_ci(r, tok));
                        }
                    }
                }
            }
        }
    } else {
        if tok.len() > 0 {
            assert forall|i: int|
                0 <= i && i + tok.len() <= s.len() implies !#[trigger] ci_eq(
                s.subrange(i, i + tok.len()),
                tok,
            ) by {}
        }
    }
}

proof fn lemma_remove_all_ci_len(s: Seq<char>, toks: Seq<Seq<char>>)
    requires
        forall|k: int| 0 <= k < toks.len() ==> #[trigger] toks[k].len() > 0,
    ensures
        remove_all_ci(s, toks).len() <= s.len(),
        remove_all_ci(s, toks).len() == s.len() ==> remove_all_ci(s, toks) == s && forall|k: int|
            0 <= k < toks.len() ==> !contains_ci(s, #[trigger] toks[k]),
    decreases toks.len(),
{
    if toks.len() > 0 {
        let s1 = remove_ci(s, toks[0]);
        lemma_remove_ci_len(s, toks[0]);
        let rest = toks.drop_first();
        assert forall|k: int| 0 <= k < rest.len() implies #[trigger] rest[k].len() > 0 by {
            assert(rest[k] == toks[k + 1]);
        }
        lemma_remove_all_ci_len(s1, rest);
        if remove_all_ci(s, toks).len() == s.len() {
            assert(s1 == s);
            assert forall|k: int| 0 <= k < toks.len() implies !contains_ci(s, #[trigger] toks[k]) by {
                if k > 0 {
                    assert(toks[k] == rest[k - 1]);
                }
            }
        }
    }
}

proof fn lemma_special_tokens_nonempty()
    ensures
        forall|k: int|
            0 <= k < special_tokens_spec().len() ==> #[trigger] special_tokens_spec()[k].len() > 0,
{
    reveal_strlit("[blank]");
    reveal_strlit("[pad]");
    reveal_strlit("[unk]");
    reveal_strlit("[music]");
    reveal_strlit("[applause]");
    reveal_strlit("[laughter]");
    reveal_strlit("[noise]");
    reveal_strlit("[silence]");
    reveal_strlit("<blank>");
    reveal_strlit("<pad>");
    reveal_strlit("<unk>");
    reveal_strlit("<s>");
    reveal_strlit("</s>");
    reveal_strlit("<|endoftext|>");
    reveal_strlit("<|startoftranscript|>");
}

/// A pass never lengthens the text, and one that keeps its length leaves it
/// unchanged with no special token in it.
proof fn lemma_strip_pass(s: Seq<char>)
    ensures
        strip_pass(s).len() <= s.len(),
        strip_pass(s).len() == s.len() ==> strip_pass(s) == s && forall|k: int|
            0 <= k < special_tokens_spec().len() ==> !contains_ci(
                s,
                #[trigger] special_tokens_spec()[k],
            ),
{
    lemma_special_tokens_nonempty();
    lemma_remove_all_ci_len(s, special_tokens_spec());
}

/// After stripping, no special token is left, ignoring case.
pub proof fn strip_leaves_no_token(text: Seq<char>)
    ensures
        forall|k: int|
            0 <= k < special_tokens_spec().len() ==> !contains_ci(
                strip_spec(text),
                #[trigger] special_tokens_spec()[k],
            ),
{
    lemma_strip_fix_no_token(markers_to_spaces(text));
}

proof fn lemma_strip_fix_no_token(s: Seq<char>)
    ensures
        forall|k: int|
            0 <= k < special_tokens_spec().len() ==> !contains_ci(
                strip_fix(s),
                #[trigger] special_tokens_spec()[k],
            ),
    decreases s.len(),
{
    lemma_strip_pass(s);
    if strip_pass(s).len() < s.len() {
        lemma_strip_fix_no_token(strip_pass(s));
    }
}

fn special_tokens() -> (r: Vec<&'static str>)
    ensures
        r@.map_values(|t: &str| t@) == special_tokens_spec(),
{
    let mut v: Vec<&'static str> = Vec::new();
    v.push("[blank]");
    v.push("[pad]");
    v.push("[unk]");
    v.push("[music]");
    v.push("[applause]");
    v.push("[laughter]");
    v.push("[noise]");
    v.push("[silence]");
    v.push("<blank>");
    v.push("<pad>");
    v.push("<unk>");
    v.push("<s>");
    v.push("</s>");
    v.push("<|endoftext|>");
    v.push("<|startoftranscript|>");
    assert(v@.map_values(|t: &str| t@) =~= special_tokens_spec());
    v
}

/// The per-character lowercase forms of `s`.
fn lower_each(s: &Vec<char>) -> (r: Vec<Vec<char>>)
    ensures
        r.len() == s.len(),
        forall|k: int| 0 <= k < s.len() ==> #[trigger] r@[k]@ == char_lowercase(s@[k]),
{
    let mut r: Vec<Vec<char>> = Vec::new();
    let mut k: usize = 0;
    while k < s.len()
        invariant
            k <= s.len(),
            r.len() == k,
            forall|m: int| 0 <= m < k ==> #[trigger] r@[m]@ == char_lowercase(s@[m]),
        decreases s.len() - k,
    {
        r.push(char_to_lowercase(s[k]));
        k += 1;
    }
    r
}

fn ci_match_at(
    s: &Vec<char>,
    sl: &Vec<Vec<char>>,
    t: &Vec<char>,
    tl: &Vec<Vec<char>>,
    p: usize,
) -> (r: bool)
    requires
        sl.len() == s.len(),
        tl.len() == t.len(),
        forall|k: int| 0 <= k < s.len() ==> #[trigger] sl@[k]@ == char_lowercase(s@[k]),
        forall|k: int| 0 <= k < t.len() ==> #[trigger] tl@[k]@ == char_lowercase(t@[k]),
        p + t.len() <= s.len(),
    ensures
        r == ci_eq(s@.skip(p as int).take(t.len() as int), t@),
{
    let ghost seg = s@.skip(p as int).take(t.len() as int);
    let mut k: usize = 0;
    while k < t.len()
        invariant
            sl.len() == s.len(),
            tl.len() == t.len(),
            forall|k: int| 0 <= k < s.len() ==> #[trigger] sl@[k]@ == char_lowercase(s@[k]),
            forall|k: int| 0 <= k < t.len() ==> #[trigger] tl@[k]@ == char_lowercase(t@[k]),
            p + t.len() <= s.len(),
            seg == s@.skip(p as int).take(t.len() as int),
            k <= t.len(),
            forall|m: int| 0 <= m < k ==> #[trigger] char_lowercase(seg[m]) == char_lowercase(t@[m]),
        decreases t.len() - k,
    {
        assert(seg[k as int] == s@[p + k]);
        if !chars_eq(&sl[p + k], &tl[k]) {
            assert(char_lowercase(seg[k as int]) != char_lowercase(t@[k as int]));
            return false;
        }
        k += 1;
    }
    true
}

fn remove_ci_exec(s: &Vec<char>, tok: &str) -> (r: Vec<char>)
    ensures
        r@ == remove_ci(s@, tok@),
{
    let t = to_chars(tok);
    let tl = lower_each(&t);
    let sl = lower_each(s);
    let n = s.len();
    let mut out: Vec<char> = Vec::new();
    let mut p: usize = 0;
    assert(s@.skip(0) =~= s@);
    assert(out@ + remove_ci(s@, t@) =~= remove_ci(s@, t@));
    while p < n
        invariant
            n == s.len(),
            t@ == tok@,
            sl.len() == s.len(),
            tl.len() == t.len(),
            forall|k: int| 0 <= k < s.len() ==> #[trigger] sl@[k]@ == char_lowercase(s@[k]),
            forall|k: int| 0 <= k < t.len() ==> #[trigger] tl@[k]@ == char_lowercase(t@[k]),
            p <= n,
            out@ + remove_ci(s@.skip(p as int), t@) == remove_ci(s@, t@),
        decreases n - p,
    {
        let ghost rest = s@.skip(p as int);
        if t.len() > 0 && t.len() <= n - p && ci_match_at(s, &sl, &t, &tl, p) {
            assert(rest.take(t.len() as int) =~= s@.skip(p as int).take(t.len() as int));
            assert(rest.skip(t.len() as int) =~= s@.skip(p + t.len()));
            p += t.len();
        } else {
            assert(rest.drop_first() =~= s@.skip(p + 1));
            assert(rest[0] == s@[p as int]);
            let ghost before = out@;
            out.push(s[p]);
            assert(out@ + remove_ci(s@.skip(p + 1), t@) =~= before + remove_ci(rest, t@));
            p += 1;
        }
    }
    assert(s@.skip(n as int) =~= Seq::<char>::empty());
    assert(out@ + remove_ci(s@.skip(n as int), t@) =~= out@);
    out
}

/// Removes the SentencePiece word marker `▁` (replaced by a space) and every
/// case-insensitive occurrence of the special tokens (`[blank]`, `<unk>`,
/// `[music]`, ...), one token after another, repeating until a pass removes
/// nothing: no token is left, not even one that a removal joined together.
pub fn strip_special_tokens(text: &str) -> (r: String)
    ensures
        r@ == strip_spec(text@),
        no_marker(r@),
        forall|k: int|
            0 <= k < special_tokens_spec().len() ==> !contains_ci(
                r@,
                #[trigger] special_tokens_spec()[k],
            ),
{
    proof {
        strip_removes_markers(text@);
        strip_leaves_no_token(text@);
    }
    let chars = to_chars(text);
    let mut cur: Vec<char> = Vec::new();
    let mut k: usize = 0;
    while k < chars.len()
        invariant
            chars@ == text@,
            k <= chars.len(),
            cur@ == markers_to_spaces(text@).take(k as int),
        decreases chars.len() - k,
    {
        let c = chars[k];
        if c == '\u{2581}' {
            cur.push(' ');
        } else {
            cur.push(c);
        }
        assert(cur@ =~= markers_to_spaces(text@).take(k + 1));
        k += 1;
    }
    assert(markers_to_spaces(text@).take(chars.len() as int) =~= markers_to_spaces(text@));
    let toks = special_tokens();
    loop
        invariant
            toks@.map_values(|t: &str| t@) == special_tokens_spec(),
            strip_fix(cur@) == strip_spec(text@),
            no_marker(strip_spec(text@)),
            forall|k: int|
                0 <= k < special_tokens_spec().len() ==> !contains_ci(
                    strip_spec(text@),
                    #[trigger] special_tokens_spec()[k],
                ),
        decreases cur@.len(),
    {
        let next = strip_pass_exec(&cur, &toks);
        proof {
            lemma_strip_pass(cur@);
        }
        if next.len() == cur.len() {
            return from_chars(&cur);
        }
        cur = next;
    }
}

/// One pass over the special tokens.
fn strip_pass_exec(s: &Vec<char>, toks: &Vec<&'static str>) -> (r: Vec<char>)
    requires
        toks@.map_values(|t: &str| t@) == special_tokens_spec(),
    ensures
        r@ == strip_pass(s@),
{
    let ghost ts = toks@.map_values(|t: &str| t@);
    let mut cur: Vec<char> = Vec::new();
    let mut i: usize = 0;
    while i < s.len()
        invariant
            i <= s.len(),
            cur@ == s@.take(i as int),
        decreases s.len() - i,
    {
        cur.push(s[i]);
        assert(cur@ =~= s@.take(i + 1));
        i += 1;
    }
    assert(s@.take(s.len() as int) =~= s@);
    let mut j: usize = 0;
    assert(ts.skip(0) =~= ts);
    while j < toks.len()
        invariant
            ts == toks@.map_values(|t: &str| t@),
            ts == special_tokens_spec(),
            j <= toks.len(),
            remove_all_ci(cur@, ts.skip(j as int)) == strip_pass(s@),
        decreases toks.len() - j,
    {
        cur = remove_ci_exec(&cur, toks[j]);
        assert(ts.skip(j as int)[0] == toks@[j as int]@);
        assert(ts.skip(j as int).drop_first() =~= ts.skip(j + 1));
        j += 1;
    }
    assert(ts.skip(toks.len() as int) =~= Seq::<Seq<char>>::empty());
    cur
}

/// Fewest non-whitespace characters a cleaned transcript must keep to be
/// returned at all.
pub const MIN_TRANSCRIPT_CHARS: usize = 1;

/// The number of non-whitespace characters of `s`.
pub open spec fn non_ws_count(s: Seq<char>) -> nat
    decreases s.len(),
{
    if s.len() == 0 {
        0
    } else {
        non_ws_count(s.drop_last()) + if is_ws(s.last()) {
            0nat
        } else {
            1nat
        }
    }
}

/// The cleanup chain before the emptiness test.
pub open spec fn cleanup_chain(raw: Seq<char>) -> Seq<char> {
    normalized(dedupe_phrases_spec(dedupe_words_spec(strip_spec(raw))))
}

/// What `clean_transcription` returns.
pub open spec fn clean_spec(raw: Seq<char>) -> Seq<char> {
    let n = cleanup_chain(raw);
    if non_ws_count(n) < MIN_TRANSCRIPT_CHARS {
        Seq::empty()
    } else {
        n
    }
}

fn count_non_ws(s: &str) -> (r: usize)
    ensures
        r == non_ws_count(s@),
{
    let v = to_chars(s);
    let mut count: usize = 0;
    let mut k: usize = 0;
    while k < v.len()
        invariant
            v@ == s@,
            k <= v.len(),
            count == non_ws_count(v@.take(k as int)),
            count <= k,
        decreases v.len() - k,
    {
        assert(v@.take(k + 1).drop_last() =~= v@.take(k as int));
        if !is_whitespace(v[k]) {
            count += 1;
        }
        k += 1;
    }
    assert(v@.take(v.len() as int) =~= v@);
    count
}

/// The full cleanup of a raw transcript: special tokens stripped, word
/// stutters and phrase loops collapsed, whitespace normalized. Pure noise
/// (nothing but whitespace left) gives the empty string.
pub fn clean_transcription(raw: &str) -> (r: String)
    ensures
        r@ == clean_spec(raw@),
{
    let stripped = strip_special_tokens(raw);
    let deduped_words = dedupe_consecutive_words(stripped.as_str());
    let deduped_phrases = dedupe_consecutive_phrases(deduped_words.as_str());
    let norm = normalize_whitespace(deduped_phrases.as_str());
    if count_non_ws(norm.as_str()) < MIN_TRANSCRIPT_CHARS {
        return String::new();
    }
    norm
}

/// A cleaned transcript is already normalized: empty, or words separated by
/// single spaces with no whitespace at either end.
pub proof fn clean_output_is_normalized(raw: Seq<char>)
    ensures
        normalized(clean_spec(raw)) == clean_spec(raw),
{
    let n = cleanup_chain(raw);
    if non_ws_count(n) < MIN_TRANSCRIPT_CHARS {
        assert(words(Seq::<char>::empty()) =~= Seq::<Seq<char>>::empty());
    } else {
        normalized_is_idempotent(dedupe_phrases_spec(dedupe_words_spec(strip_spec(raw))));
    }
}

/// `s` holds no SentencePiece word marker.
pub open spec fn no_marker(s: Seq<char>) -> bool {
    forall|k: int| 0 <= k < s.len() ==> !is_marker(#[trigger] s[k])
}

proof fn lemma_remove_ci_keeps_no_marker(s: Seq<char>, tok: Seq<char>)
    requires
        no_marker(s),
    ensures
        no_marker(remove_ci(s, tok)),
    decreases s.len(),
{
    if s.len() > 0 {
        if 0 < tok.len() <= s.len() && ci_eq(s.take(tok.len() as int), tok) {
            let r = s.skip(tok.len() as int);
            assert forall|k: int| 0 <= k < r.len() implies !is_marker(#[trigger] r[k]) by {
                assert(r[k] == s[k + tok.len()]);
            }
            lemma_remove_ci_keeps_no_marker(r, tok);
        } else {
            let r = s.drop_first();
            assert forall|k: int| 0 <= k < r.len() implies !is_marker(#[trigger] r[k]) by {
                assert(r[k] == s[k + 1]);
            }
            lemma_remove_ci_keeps_no_marker(r, tok);
            let out = seq![s[0]] + remove_ci(r, tok);
            assert forall|k: int| 0 <= k < out.len() implies !is_marker(#[trigger] out[k]) by {
                if k > 0 {
                    assert(out[k] == remove_ci(r, tok)[k - 1]);
                }
            }
        }
    }
}

proof fn lemma_remove_all_ci_keeps_no_marker(s: Seq<char>, toks: Seq<Seq<char>>)
    requires
        no_marker(s),
    ensures
        no_marker(remove_all_ci(s, toks)),
    decreases toks.len(),
{
    if toks.len() > 0 {
        lemma_remove_ci_keeps_no_marker(s, toks[0]);
        lemma_remove_all_ci_keeps_no_marker(remove_ci(s, toks[0]), toks.drop_first());
    }
}

/// Stripping special tokens leaves no SentencePiece word marker behind.
pub proof fn strip_removes_markers(text: Seq<char>)
    ensures
        no_marker(strip_spec(text)),
{
    let m = markers_to_spaces(text);
    assert forall|k: int| 0 <= k < m.len() implies !is_marker(#[trigger] m[k]) by {}
    lemma_strip_fix_keeps_no_marker(m);
}

proof fn lemma_strip_fix_keeps_no_marker(s: Seq<char>)
    requires
        no_marker(s),
    ensures
        no_marker(strip_fix(s)),
    decreases s.len(),
{
    lemma_strip_pass(s);
    lemma_remove_all_ci_keeps_no_marker(s, special_tokens_spec());
    if strip_pass(s).len() < s.len() {
        lemma_strip_fix_keeps_no_marker(strip_pass(s));
    }
}

/// From word `p` on, `ws` holds a phrase of `w` words, 2 to 5, three times
/// in a row, words compared ignoring case.
pub open spec fn phrase_thrice_at(ws: Seq<Seq<char>>, p: int, w: int) -> bool {
    &&& 2 <= w <= 5
    &&& 0 <= p
    &&& p + 3 * w <= ws.len()
    &&& forall|k: int|
        0 <= k < w ==> lowercase(#[trigger] ws[p + k]) == lowercase(ws[p + w + k])
            && lowercase(ws[p + k]) == lowercase(ws[p + 2 * w + k])
}

proof fn lemma_collapse_window_copies(low: Seq<Seq<char>>, i: int, m: int)
    ensures
        collapse_window(low, i, m) matches Some(v) ==> copies_end(low, i, v, i + v) >= i + 3 * v,
    decreases m,
{
    if m >= 2 && !(copies_end(low, i, m, i + m) >= i + 3 * m) {
        lemma_collapse_window_copies(low, i, m - 1);
    }
}

proof fn lemma_collapse_found(low: Seq<Seq<char>>, i: int, m: int, w: int)
    requires
        2 <= w <= m,
        copies_end(low, i, w, i + w) >= i + 3 * w,
    ensures
        collapse_window(low, i, m) is Some,
    decreases m,
{
    if m > w && !(copies_end(low, i, m, i + m) >= i + 3 * m) {
        lemma_collapse_found(low, i, m - 1, w);
    }
}

proof fn lemma_thrice_copies(ws: Seq<Seq<char>>, p: int, w: int)
    requires
        phrase_thrice_at(ws, p, w),
    ensures
        copies_end(lowered(ws), p, w, p + w) >= p + 3 * w,
{
    let low = lowered(ws);
    assert(low.subrange(p + w, p + 2 * w) =~= low.subrange(p, p + w)) by {
        assert forall|k: int| 0 <= k < w implies #[trigger] low.subrange(p + w, p + 2 * w)[k]
            == low.subrange(p, p + w)[k] by {
            assert(lowercase(ws[p + k]) == lowercase(ws[p + w + k]));
        }
    }
    assert(low.subrange(p + 2 * w, p + 3 * w) =~= low.subrange(p, p + w)) by {
        assert forall|k: int| 0 <= k < w implies #[trigger] low.subrange(p + 2 * w, p + 3 * w)[k]
            == low.subrange(p, p + w)[k] by {
            assert(lowercase(ws[p + k]) == lowercase(ws[p + 2 * w + k]));
        }
    }
    assert(copies_end(low, p, w, p + w) == copies_end(low, p, w, p + 2 * w));
    assert(copies_end(low, p, w, p + 2 * w) == copies_end(low, p, w, p + 3 * w));
    lemma_copies_end_bounds(low, p, w, p + 3 * w);
}

/// The greedy pass never lengthens the words, and shortens them when a
/// phrase repeats three times in a row at or after `i`.
proof fn lemma_phrase_pass_len(ws: Seq<Seq<char>>, i: int, p: int, w: int)
    requires
        0 <= i <= ws.len(),
    ensures
        phrase_pass(ws, i).len() <= ws.len() - i,
        i <= p && phrase_thrice_at(ws, p, w) ==> phrase_pass(ws, i).len() < ws.len() - i,
    decreases ws.len() - i,
{
    if i < ws.len() {
        let low = lowered(ws);
        let m = max_window(ws.len() as int, i);
        lemma_collapse_window_range(low, i, m);
        lemma_collapse_window_copies(low, i, m);
        match collapse_window(low, i, m) {
            Some(v) => {
                let e = copies_end(low, i, v, i + v);
                lemma_copies_end_bounds(low, i, v, i + v);
                lemma_phrase_pass_len(ws, e, p, w);
            },
            None => {
                if i == p && phrase_thrice_at(ws, p, w) {
                    lemma_thrice_copies(ws, p, w);
                    lemma_collapse_found(low, i, m, w);
                }
                lemma_phrase_pass_len(ws, i + 1, p, w);
            },
        }
    }
}

/// The greedy pass keeps only words of its input.
proof fn lemma_phrase_pass_words(ws: Seq<Seq<char>>, i: int)
    requires
        0 <= i <= ws.len(),
        forall|k: int| 0 <= k < ws.len() ==> is_word(#[trigger] ws[k]),
    ensures
        forall|k: int|
            0 <= k < phrase_pass(ws, i).len() ==> is_word(#[trigger] phrase_pass(ws, i)[k]),
    decreases ws.len() - i,
{
    if i < ws.len() {
        let low = lowered(ws);
        let m = max_window(ws.len() as int, i);
        lemma_collapse_window_range(low, i, m);
        match collapse_window(low, i, m) {
            Some(v) => {
                let e = copies_end(low, i, v, i + v);
                lemma_copies_end_bounds(low, i, v, i + v);
                lemma_phrase_pass_words(ws, e);
                let out = phrase_pass(ws, i);
                assert forall|k: int| 0 <= k < out.len() implies is_word(#[trigger] out[k]) by {
                    if k < v {
                        assert(out[k] == ws[i + k]);
                    } else {
                        assert(out[k] == phrase_pass(ws, e)[k - v]);
                    }
                }
            },
            None => {
                lemma_phrase_pass_words(ws, i + 1);
                let out = phrase_pass(ws, i);
                assert forall|k: int| 0 <= k < out.len() implies is_word(#[trigger] out[k]) by {
                    if k > 0 {
                        assert(out[k] == phrase_pass(ws, i + 1)[k - 1]);
                    }
                }
            },
        }
    }
}

/// A phrase loop is collapsed: when the words that reach the phrase step
/// (special tokens stripped, word stutters collapsed) hold a phrase of 2 to
/// 5 words three times in a row, the cleaned transcript has fewer words.
pub proof fn phrase_loops_are_shortened(raw: Seq<char>, p: int, w: int)
    requires
        phrase_thrice_at(words(dedupe_words_spec(strip_spec(raw))), p, w),
    ensures
        words(clean_spec(raw)).len() < words(dedupe_words_spec(strip_spec(raw))).len(),
{
    let x = dedupe_words_spec(strip_spec(raw));
    let ws = words(x);
    lemma_words_are_words(x);
    lemma_phrase_pass_len(ws, 0, p, w);
    lemma_phrase_pass_words(ws, 0);
    let pp = phrase_pass(ws, 0);
    lemma_words_of_join(pp);
    let dp = dedupe_phrases_spec(x);
    assert(words(dp) == pp);
    normalized_keeps_words_single_spaced(dp);
    let n = cleanup_chain(raw);
    if non_ws_count(n) < MIN_TRANSCRIPT_CHARS {
        assert(words(Seq::<char>::empty()) =~= Seq::<Seq<char>>::empty());
    }
}

/// No three consecutive items of `l` are equal.
pub open spec fn no_triple(l: Seq<Seq<char>>) -> bool {
    forall|t: int| 0 <= t && t + 2 < l.len() ==> !(#[trigger] l[t] == l[t + 1] && l[t + 1] == l[t + 2])
}

proof fn lemma_dedupe_prefix_state(ws: Seq<Seq<char>>, n: int)
    requires
        0 <= n <= ws.len(),
    ensures
        ({
            let o = lowered(dedupe_words_prefix(ws, n));
            let low = lowered(ws);
            &&& no_triple(o)
            &&& n > 0 ==> o.len() > 0 && o.last() == low[n - 1]
            &&& n > 0 && run_len(low, n - 1) >= 2 ==> o.len() >= 2 && o[o.len() - 2] == low[n - 1]
            &&& n > 0 && run_len(low, n - 1) == 1 && o.len() >= 2 ==> o[o.len() - 2] != low[n - 1]
        }),
    decreases n,
{
    if n > 0 {
        lemma_dedupe_prefix_state(ws, n - 1);
        let low = lowered(ws);
        let p = dedupe_words_prefix(ws, n - 1);
        let op = lowered(p);
        let o = lowered(dedupe_words_prefix(ws, n));
        let r = run_len(low, n - 1);
        if r <= MAX_CONSECUTIVE_WORD_RUN {
            assert(o =~= op.push(low[n - 1]));
            assert forall|t: int| 0 <= t && t + 2 < o.len() implies !(#[trigger] o[t] == o[t + 1]
                && o[t + 1] == o[t + 2]) by {
                if t + 2 < op.len() {
                    assert(o[t] == op[t] && o[t + 1] == op[t + 1] && o[t + 2] == op[t + 2]);
                } else {
                    assert(t + 2 == op.len());
                    if n - 1 > 0 && low[n - 2] == low[n - 1] {
                        assert(run_len(low, n - 2) == 1);
                    }
                }
            }
        } else {
            assert(o =~= op);
            assert(low[n - 2] == low[n - 1]);
        }
    }
}

/// Among the words that `dedupe_consecutive_words` keeps, no three in a row
/// are equal ignoring case.
pub proof fn dedupe_words_leaves_no_triple(ws: Seq<Seq<char>>)
    ensures
        no_triple(lowered(dedupe_words_seq(ws))),
{
    lemma_dedupe_prefix_state(ws, ws.len() as int);
}

/// Words in runs of at most two survive: where no run is longer, every word
/// is kept.
pub proof fn dedupe_words_keeps_short_runs(ws: Seq<Seq<char>>)
    requires
        forall|i: int| 0 <= i < ws.len() ==> #[trigger] run_len(lowered(ws), i) <= MAX_CONSECUTIVE_WORD_RUN,
    ensures
        dedupe_words_seq(ws) == ws,
{
    lemma_dedupe_keeps_prefix(ws, ws.len() as int);
    assert(ws.take(ws.len() as int) =~= ws);
}

proof fn lemma_dedupe_keeps_prefix(ws: Seq<Seq<char>>, n: int)
    requires
        0 <= n <= ws.len(),
        forall|i: int| 0 <= i < ws.len() ==> #[trigger] run_len(lowered(ws), i) <= MAX_CONSECUTIVE_WORD_RUN,
    ensures
        dedupe_words_prefix(ws, n) == ws.take(n),
    decreases n,
{
    if n > 0 {
        lemma_dedupe_keeps_prefix(ws, n - 1);
        assert(run_len(lowered(ws), n - 1) <= MAX_CONSECUTIVE_WORD_RUN);
        assert(ws.take(n - 1).push(ws[n - 1]) =~= ws.take(n));
    }
}

} // verus!

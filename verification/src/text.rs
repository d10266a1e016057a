//! Text primitives shared by the transcript cleanup and the parsers:
//! Unicode whitespace, splitting into words, joining, and the string
//! operations of std that the library calls.
use vstd::prelude::*;

verus! {

/// The Unicode `White_Space` property, which `char::is_whitespace` tests.
pub open spec fn is_ws(c: char) -> bool {
    let u = c as u32;
    ||| u == 0x20
    ||| (0x09 <= u && u <= 0x0d)
    ||| u == 0x85
    ||| u == 0xa0
    ||| u == 0x1680
    ||| (0x2000 <= u && u <= 0x200a)
    ||| u == 0x2028
    ||| u == 0x2029
    ||| u == 0x202f
    ||| u == 0x205f
    ||| u == 0x3000
}

/// Executable form of `is_ws`.
pub fn is_whitespace(c: char) -> (r: bool)
    ensures
        r == is_ws(c),
{
    let u = c as u32;
    u == 0x20 || (0x09 <= u && u <= 0x0d) || u == 0x85 || u == 0xa0 || u == 0x1680 || (0x2000
        <= u && u <= 0x200a) || u == 0x2028 || u == 0x2029 || u == 0x202f || u == 0x205f || u
        == 0x3000
}

/// The words of `s`: its maximal runs of non-whitespace characters, in order
/// (what `str::split_whitespace` yields). Stated on prefixes: the last
/// character either ends nothing (whitespace), extends the last word, or
/// starts a new one.
pub open spec fn words(s: Seq<char>) -> Seq<Seq<char>>
    decreases s.len(),
{
    if s.len() == 0 {
        Seq::empty()
    } else {
        let prev = words(s.drop_last());
        let c = s.last();
        if is_ws(c) {
            prev
        } else if s.len() >= 2 && !is_ws(s[s.len() - 2]) {
            prev.update(prev.len() - 1, prev.last().push(c))
        } else {
            prev.push(seq![c])
        }
    }
}

/// `ws` joined with `sep` between consecutive items (`[T]::join`).
pub open spec fn join(ws: Seq<Seq<char>>, sep: Seq<char>) -> Seq<char>
    decreases ws.len(),
{
    if ws.len() == 0 {
        Seq::empty()
    } else if ws.len() == 1 {
        ws[0]
    } else {
        join(ws.drop_last(), sep) + sep + ws.last()
    }
}

/// The character views of a sequence of strings.
pub open spec fn views(v: Seq<String>) -> Seq<Seq<char>> {
    v.map_values(|s: String| s@)
}

/// The view of an optional string.
pub open spec fn opt_str(o: Option<String>) -> Option<Seq<char>> {
    match o {
        Some(s) => Some(s@),
        None => None,
    }
}

/// The view of a result whose error is a string.
pub open spec fn err_str<T>(r: Result<T, String>) -> Option<Seq<char>> {
    match r {
        Ok(_) => None,
        Err(e) => Some(e@),
    }
}

/// A word in the sense of `words`: non-empty and free of whitespace.
pub open spec fn is_word(w: Seq<char>) -> bool {
    w.len() > 0 && forall|k: int| 0 <= k < w.len() ==> !is_ws(#[trigger] w[k])
}

/// The single space that the cleanup functions put between words.
pub open spec fn space() -> Seq<char> {
    seq![' ']
}

/// `s` with its whitespace runs collapsed to one space and no whitespace at
/// either end.
pub open spec fn normalized(s: Seq<char>) -> Seq<char> {
    join(words(s), space())
}

/// What `str::to_lowercase` returns for a string (Unicode lowercase mapping,
/// with the context rule for final sigma).
pub uninterp spec fn lowercase(s: Seq<char>) -> Seq<char>;

/// What `char::to_lowercase` yields for one character.
pub uninterp spec fn char_lowercase(c: char) -> Seq<char>;

/// The lowercase form of an ASCII character: `A`-`Z` become `a`-`z`, the
/// rest stay.
pub open spec fn ascii_lower(c: char) -> char {
    if 'A' <= c && c <= 'Z' {
        ((c as u32) + 32) as char
    } else {
        c
    }
}

/// All characters of `s` are ASCII.
pub open spec fn all_ascii(s: Seq<char>) -> bool {
    forall|k: int| 0 <= k < s.len() ==> (#[trigger] s[k] as u32) < 128
}

/// Calls `str::to_lowercase`; the result is `lowercase` of the input, and on
/// ASCII text it is the ASCII lowercase of each character, as the Unicode
/// lowercase mapping that std documents gives it.
#[verifier::external_body]
pub(crate) fn to_lowercase(s: &str) -> (r: String)
    ensures
        r@ == lowercase(s@),
        all_ascii(s@) ==> r@ == s@.map_values(|c: char| ascii_lower(c)),
{
    s.to_lowercase()
}

/// Calls `char::to_lowercase` and collects what it yields: for an ASCII
/// character, its one ASCII lowercase character.
#[verifier::external_body]
pub(crate) fn char_to_lowercase(c: char) -> (r: Vec<char>)
    ensures
        r@ == char_lowercase(c),
        (c as u32) < 128 ==> r@ == seq![ascii_lower(c)],
{
    c.to_lowercase().collect()
}

/// Calls `String::push`.
#[verifier::external_body]
pub(crate) fn push_char(s: &mut String, c: char)
    ensures
        final(s)@ == old(s)@.push(c),
{
    s.push(c);
}

/// Appends `t` to `s`.
pub(crate) fn push_str(s: &mut String, t: &str)
    ensures
        final(s)@ == old(s)@ + t@,
{
    s.append(t);
}

/// The characters of `s`, in order.
pub fn to_chars(s: &str) -> (r: Vec<char>)
    ensures
        r@ == s@,
{
    let mut r: Vec<char> = Vec::new();
    for c in it: s.chars()
        invariant
            r@ == it.seq().take(it.index() as int),
    {
        r.push(c);
    }
    r
}

/// A string made of the characters of `v`.
pub fn from_chars(v: &Vec<char>) -> (r: String)
    ensures
        r@ == v@,
{
    let mut r = String::new();
    let mut i: usize = 0;
    while i < v.len()
        invariant
            i <= v.len(),
            r@ == v@.take(i as int),
        decreases v.len() - i,
    {
        push_char(&mut r, v[i]);
        assert(v@.take(i + 1) =~= v@.take(i as int).push(v@[i as int]));
        i += 1;
    }
    assert(v@.take(v.len() as int) =~= v@);
    r
}

/// Whether two character vectors are equal.
pub fn chars_eq(a: &Vec<char>, b: &Vec<char>) -> (r: bool)
    ensures
        r == (a@ == b@),
{
    if a.len() != b.len() {
        return false;
    }
    let mut k: usize = 0;
    while k < a.len()
        invariant
            a.len() == b.len(),
            k <= a.len(),
            a@.take(k as int) == b@.take(k as int),
        decreases a.len() - k,
    {
        if a[k] != b[k] {
            return false;
        }
        assert(a@.take(k + 1) =~= a@.take(k as int).push(a@[k as int]));
        assert(b@.take(k + 1) =~= b@.take(k as int).push(b@[k as int]));
        k += 1;
    }
    assert(a@.take(a.len() as int) =~= a@);
    assert(b@.take(b.len() as int) =~= b@);
    true
}

/// Whether `a` and `b` hold the same characters.
pub fn str_eq(a: &str, b: &str) -> (r: bool)
    ensures
        r == (a@ == b@),
{
    let x = to_chars(a);
    let y = to_chars(b);
    if x.len() != y.len() {
        return false;
    }
    let mut k: usize = 0;
    while k < x.len()
        invariant
            x@ == a@,
            y@ == b@,
            x.len() == y.len(),
            k <= x.len(),
            x@.take(k as int) == y@.take(k as int),
        decreases x.len() - k,
    {
        if x[k] != y[k] {
            return false;
        }
        assert(x@.take(k + 1) =~= x@.take(k as int).push(x@[k as int]));
        assert(y@.take(k + 1) =~= y@.take(k as int).push(y@[k as int]));
        k += 1;
    }
    assert(x@.take(x.len() as int) =~= x@);
    assert(y@.take(y.len() as int) =~= y@);
    true
}

/// A copy of `s`.
pub fn copy_str(s: &str) -> (r: String)
    ensures
        r@ == s@,
{
    s.to_owned()
}

/// A copy of an optional string.
pub fn copy_opt_string(o: &Option<String>) -> (r: Option<String>)
    ensures
        opt_str(r) == opt_str(*o),
{
    match o {
        Some(s) => Some(copy_str(s.as_str())),
        None => None,
    }
}

/// `a` sorts strictly before `b`, character by character. Code-point order
/// is also the order of the UTF-8 bytes, the order in which SQLite compares
/// text.
pub open spec fn text_lt(a: Seq<char>, b: Seq<char>) -> bool
    decreases a.len(),
{
    if b.len() == 0 {
        false
    } else if a.len() == 0 {
        true
    } else if a[0] != b[0] {
        a[0] < b[0]
    } else {
        text_lt(a.drop_first(), b.drop_first())
    }
}

/// `a` sorts before `b` or is `b`.
pub open spec fn text_le(a: Seq<char>, b: Seq<char>) -> bool {
    a == b || text_lt(a, b)
}

proof fn lemma_text_lt_skip(a: Seq<char>, b: Seq<char>, i: int)
    requires
        0 <= i <= a.len(),
        i <= b.len(),
        a.take(i) == b.take(i),
    ensures
        text_lt(a, b) == text_lt(a.skip(i), b.skip(i)),
    decreases i,
{
    if i == 0 {
        assert(a.skip(0) =~= a);
        assert(b.skip(0) =~= b);
    } else {
        assert(a[0] == a.take(i)[0]);
        assert(b[0] == b.take(i)[0]);
        assert(a.drop_first().take(i - 1) =~= b.drop_first().take(i - 1)) by {
            assert forall|k: int| 0 <= k < i - 1 implies a.drop_first()[k] == b.drop_first()[k] by {
                assert(a.take(i)[k + 1] == a[k + 1]);
                assert(b.take(i)[k + 1] == b[k + 1]);
                assert(a.take(i)[k + 1] == b.take(i)[k + 1]);
            }
        }
        lemma_text_lt_skip(a.drop_first(), b.drop_first(), i - 1);
        assert(a.drop_first().skip(i - 1) =~= a.skip(i));
        assert(b.drop_first().skip(i - 1) =~= b.skip(i));
    }
}

/// `text_lt` is transitive.
pub proof fn lemma_text_lt_transitive(a: Seq<char>, b: Seq<char>, c: Seq<char>)
    requires
        text_lt(a, b),
        text_lt(b, c),
    ensures
        text_lt(a, c),
    decreases a.len(),
{
    if a.len() > 0 && b.len() > 0 && c.len() > 0 && a[0] == b[0] && b[0] == c[0] {
        lemma_text_lt_transitive(a.drop_first(), b.drop_first(), c.drop_first());
    }
}

/// `text_lt` never holds both ways, nor of a text and itself.
pub proof fn lemma_text_lt_asymmetric(a: Seq<char>, b: Seq<char>)
    ensures
        !(text_lt(a, b) && text_lt(b, a)),
        !text_lt(a, a),
    decreases a.len(),
{
    if a.len() > 0 && b.len() > 0 && a[0] == b[0] {
        lemma_text_lt_asymmetric(a.drop_first(), b.drop_first());
    }
    if a.len() > 0 {
        lemma_text_lt_asymmetric(a.drop_first(), a.drop_first());
    }
}

/// Of two different texts, one sorts before the other.
pub proof fn lemma_text_lt_total(a: Seq<char>, b: Seq<char>)
    requires
        a != b,
    ensures
        text_lt(a, b) || text_lt(b, a),
    decreases a.len(),
{
    if a.len() > 0 && b.len() > 0 && a[0] == b[0] {
        let x = a.drop_first();
        let y = b.drop_first();
        if x =~= y {
            assert(a.len() == x.len() + 1);
            assert(b.len() == y.len() + 1);
            assert forall|k: int| 0 <= k < a.len() implies a[k] == b[k] by {
                if k > 0 {
                    assert(a[k] == x[k - 1]);
                    assert(b[k] == y[k - 1]);
                }
            }
            assert(a =~= b);
        }
        lemma_text_lt_total(x, y);
    } else if a.len() == 0 && b.len() == 0 {
        assert(a =~= b);
    } else if a.len() > 0 && b.len() > 0 {
        assert(a[0] != b[0]);
    }
}

/// Whether `a` sorts before `b` or equals it, as SQLite's `<=` on text.
pub fn str_le(a: &str, b: &str) -> (r: bool)
    ensures
        r == text_le(a@, b@),
{
    let x = to_chars(a);
    let y = to_chars(b);
    let mut i: usize = 0;
    while i < x.len() && i < y.len() && x[i] == y[i]
        invariant
            x@ == a@,
            y@ == b@,
            i <= x.len(),
            i <= y.len(),
            x@.take(i as int) == y@.take(i as int),
        decreases x.len() - i,
    {
        assert(x@.take(i + 1) =~= x@.take(i as int).push(x@[i as int]));
        assert(y@.take(i + 1) =~= y@.take(i as int).push(y@[i as int]));
        i += 1;
    }
    proof {
        lemma_text_lt_skip(a@, b@, i as int);
    }
    if i == x.len() {
        proof {
            if i == y.len() {
                assert(x@ =~= x@.take(i as int));
                assert(y@ =~= y@.take(i as int));
            }
        }
        true
    } else if i == y.len() {
        proof {
            assert(a@.skip(i as int).len() > 0);
            assert(b@.skip(i as int).len() == 0);
            assert(a@ != b@) by {
                assert(a@.len() != b@.len());
            }
        }
        false
    } else {
        proof {
            assert(a@.skip(i as int)[0] == x@[i as int]);
            assert(b@.skip(i as int)[0] == y@[i as int]);
            assert(a@ != b@) by {
                if a@ == b@ {
                    assert(x@[i as int] == y@[i as int]);
                }
            }
        }
        x[i] < y[i]
    }
}

proof fn lemma_words_nonempty_when_last_not_ws(s: Seq<char>)
    requires
        s.len() > 0,
        !is_ws(s.last()),
    ensures
        words(s).len() > 0,
    decreases s.len(),
{
    let prev = words(s.drop_last());
    if s.len() >= 2 && !is_ws(s[s.len() - 2]) {
        assert(s.drop_last().last() == s[s.len() - 2]);
        lemma_words_nonempty_when_last_not_ws(s.drop_last());
    }
}

/// The words of `s`, as `str::split_whitespace` yields them.
pub fn split_words(s: &str) -> (r: Vec<String>)
    ensures
        views(r@) == words(s@),
{
    let mut out: Vec<String> = Vec::new();
    let mut prev_ws = true;
    for c in it: s.chars()
        invariant
            it.seq() == s@,
            views(out@) == words(s@.take(it.index() as int)),
            prev_ws == (it.index() == 0 || is_ws(s@[it.index() - 1])),
            !prev_ws ==> out.len() > 0,
            it.index() <= it.seq().len(),
    {
        let ghost i = it.index();
        let ghost t = s@.take(i + 1);
        assert(t.drop_last() =~= s@.take(i as int));
        assert(t.last() == c);
        if is_whitespace(c) {
            prev_ws = true;
        } else if prev_ws {
            let mut w = String::new();
            push_char(&mut w, c);
            out.push(w);
            prev_ws = false;
            assert(views(out@) =~= words(t));
        } else {
            assert(t[t.len() - 2] == s@[i - 1]);
            let mut last = out.pop().unwrap();
            push_char(&mut last, c);
            out.push(last);
            prev_ws = false;
            assert(views(out@) =~= words(t));
        }
    }
    assert(s@.take(s@.len() as int) =~= s@);
    out
}

/// `v` joined with `sep` between consecutive items.
pub fn join_strings(v: &Vec<String>, sep: &str) -> (r: String)
    ensures
        r@ == join(views(v@), sep@),
{
    let mut r = String::new();
    let mut i: usize = 0;
    while i < v.len()
        invariant
            i <= v.len(),
            r@ == join(views(v@).take(i as int), sep@),
        decreases v.len() - i,
    {
        let ghost t = views(v@).take(i + 1);
        assert(t.drop_last() =~= views(v@).take(i as int));
        if i > 0 {
            push_str(&mut r, sep);
        }
        push_str(&mut r, v[i].as_str());
        if i == 0 {
            assert(r@ =~= join(t, sep@));
        }
        i += 1;
    }
    assert(views(v@).take(v.len() as int) =~= views(v@));
    r
}

proof fn lemma_words_push_ws(s: Seq<char>, c: char)
    requires
        is_ws(c),
    ensures
        words(s.push(c)) == words(s),
{
    assert(s.push(c).drop_last() =~= s);
}

proof fn lemma_words_append_word(s: Seq<char>, w: Seq<char>)
    requires
        s.len() == 0 || is_ws(s.last()),
        is_word(w),
    ensures
        words(s + w) == words(s).push(w),
    decreases w.len(),
{
    let t = s + w;
    let c = w.last();
    assert(!is_ws(w[w.len() - 1]));
    assert(t.last() == c);
    if w.len() == 1 {
        assert(t.drop_last() =~= s);
        assert(w =~= seq![c]);
        if t.len() >= 2 {
            assert(t[t.len() - 2] == s.last());
        }
    } else {
        let w2 = w.drop_last();
        assert(is_word(w2)) by {
            assert forall|k: int| 0 <= k < w2.len() implies !is_ws(#[trigger] w2[k]) by {
                assert(w2[k] == w[k]);
            }
        }
        lemma_words_append_word(s, w2);
        assert(t.drop_last() =~= s + w2);
        assert(t[t.len() - 2] == w[w.len() - 2]);
        assert(!is_ws(w[w.len() - 2]));
        assert(w2.push(c) =~= w);
        assert(words(t) =~= words(s).push(w));
    }
}

pub(crate) proof fn lemma_words_are_words(s: Seq<char>)
    ensures
        forall|k: int| 0 <= k < words(s).len() ==> is_word(#[trigger] words(s)[k]),
    decreases s.len(),
{
    if s.len() > 0 {
        lemma_words_are_words(s.drop_last());
        let prev = words(s.drop_last());
        let c = s.last();
        if !is_ws(c) && s.len() >= 2 && !is_ws(s[s.len() - 2]) {
            assert(s.drop_last().last() == s[s.len() - 2]);
            lemma_words_nonempty_when_last_not_ws(s.drop_last());
            let lw = prev.last().push(c);
            assert(is_word(prev[prev.len() - 1]));
            assert(is_word(lw)) by {
                assert forall|k: int| 0 <= k < lw.len() implies !is_ws(#[trigger] lw[k]) by {
                    if k < lw.len() - 1 {
                        assert(lw[k] == prev[prev.len() - 1][k]);
                    }
                }
            }
        } else if !is_ws(c) {
            let nw = seq![c];
            assert(is_word(nw)) by {
                assert forall|k: int| 0 <= k < nw.len() implies !is_ws(#[trigger] nw[k]) by {}
            }
        }
    }
}

pub(crate) proof fn lemma_words_of_join(ws: Seq<Seq<char>>)
    requires
        forall|k: int| 0 <= k < ws.len() ==> is_word(#[trigger] ws[k]),
    ensures
        words(join(ws, space())) == ws,
    decreases ws.len(),
{
    if ws.len() == 0 {
    } else if ws.len() == 1 {
        lemma_words_append_word(Seq::empty(), ws[0]);
        assert(Seq::<char>::empty() + ws[0] =~= ws[0]);
        assert(Seq::<Seq<char>>::empty().push(ws[0]) =~= ws);
    } else {
        let init = ws.drop_last();
        assert forall|k: int| 0 <= k < init.len() implies is_word(#[trigger] init[k]) by {
            assert(init[k] == ws[k]);
        }
        lemma_words_of_join(init);
        let s = join(init, space()) + space();
        assert(s =~= join(init, space()).push(' '));
        lemma_words_push_ws(join(init, space()), ' ');
        assert(is_word(ws[ws.len() - 1]));
        lemma_words_append_word(s, ws.last());
        assert(init.push(ws.last()) =~= ws);
    }
}

/// A text with no whitespace at either end, whose only whitespace characters
/// are single spaces between two other characters.
pub open spec fn single_spaced(t: Seq<char>) -> bool {
    &&& t.len() > 0 ==> !is_ws(t[0]) && !is_ws(t.last())
    &&& forall|k: int|
        0 <= k < t.len() && is_ws(#[trigger] t[k]) ==> t[k] == ' ' && 0 < k < t.len() - 1
            && !is_ws(t[k - 1]) && !is_ws(t[k + 1])
}

proof fn lemma_join_single_spaced(ws: Seq<Seq<char>>)
    requires
        forall|k: int| 0 <= k < ws.len() ==> is_word(#[trigger] ws[k]),
    ensures
        single_spaced(join(ws, space())),
        ws.len() > 0 <==> join(ws, space()).len() > 0,
    decreases ws.len(),
{
    let j = join(ws, space());
    if ws.len() == 1 {
        assert(is_word(ws[0]));
    } else if ws.len() > 1 {
        let init = ws.drop_last();
        assert forall|k: int| 0 <= k < init.len() implies is_word(#[trigger] init[k]) by {
            assert(init[k] == ws[k]);
        }
        lemma_join_single_spaced(init);
        let a = join(init, space());
        let w = ws.last();
        assert(is_word(ws[ws.len() - 1]));
        let n = a.len();
        assert(j == a + space() + w);
        assert forall|k: int| 0 <= k < j.len() implies (if k < n {
            j[k] == a[k]
        } else if k == n {
            j[k] == ' '
        } else {
            j[k] == w[k - n - 1]
        }) by {}
        assert(j.len() == n + 1 + w.len());
        assert(!is_ws(j[0])) by {
            assert(j[0] == a[0]);
        }
        assert(!is_ws(j.last())) by {
            assert(j.last() == w[w.len() - 1]);
        }
        assert forall|k: int|
            0 <= k < j.len() && is_ws(#[trigger] j[k]) implies j[k] == ' ' && 0 < k < j.len() - 1
                && !is_ws(j[k - 1]) && !is_ws(j[k + 1]) by {
            if k < n {
                assert(j[k] == a[k]);
                assert(is_ws(a[k]));
                assert(j[k - 1] == a[k - 1]);
                assert(j[k + 1] == a[k + 1]);
            } else if k == n {
                assert(j[k - 1] == a[n - 1]);
                assert(j[k + 1] == w[0]);
            } else {
                assert(j[k] == w[k - n - 1]);
            }
        }
    }
}

/// What normalizing whitespace gives: the same words as the text, with no
/// whitespace at either end and only single spaces between the words.
pub proof fn normalized_keeps_words_single_spaced(s: Seq<char>)
    ensures
        words(normalized(s)) == words(s),
        single_spaced(normalized(s)),
{
    lemma_words_are_words(s);
    lemma_words_of_join(words(s));
    lemma_join_single_spaced(words(s));
}

/// Normalizing whitespace twice is normalizing it once: the words of a
/// normalized text are the words it was built from.
pub proof fn normalized_is_idempotent(s: Seq<char>)
    ensures
        normalized(normalized(s)) == normalized(s),
{
    lemma_words_are_words(s);
    lemma_words_of_join(words(s));
}


/// The pieces of `s` between the occurrences of `c` (`str::split` with a
/// character): one more piece than there are occurrences.
pub open spec fn split_char(s: Seq<char>, c: char) -> Seq<Seq<char>>
    decreases s.len(),
{
    if s.len() == 0 {
        seq![Seq::empty()]
    } else {
        let p = split_char(s.drop_last(), c);
        if s.last() == c {
            p.push(Seq::empty())
        } else {
            p.update(p.len() - 1, p.last().push(s.last()))
        }
    }
}

proof fn lemma_split_char_nonempty(s: Seq<char>, c: char)
    ensures
        split_char(s, c).len() > 0,
    decreases s.len(),
{
    if s.len() > 0 {
        lemma_split_char_nonempty(s.drop_last(), c);
    }
}

/// The pieces of `s` between the occurrences of `c`.
pub fn split_on_char(s: &str, c: char) -> (r: Vec<Vec<char>>)
    ensures
        r@.map_values(|v: Vec<char>| v@) == split_char(s@, c),
{
    let mut out: Vec<Vec<char>> = Vec::new();
    let mut cur: Vec<char> = Vec::new();
    for x in it: s.chars()
        invariant
            it.seq() == s@,
            it.index() <= s@.len(),
            out@.map_values(|v: Vec<char>| v@).push(cur@) == split_char(s@.take(it.index() as int), c),
    {
        let ghost i = it.index();
        let ghost t = s@.take(i + 1);
        assert(t.drop_last() =~= s@.take(i as int));
        assert(t.last() == x);
        proof {
            lemma_split_char_nonempty(s@.take(i as int), c);
        }
        if x == c {
            let done = cur;
            out.push(done);
            cur = Vec::new();
            assert(out@.map_values(|v: Vec<char>| v@).push(cur@) =~= split_char(t, c));
        } else {
            cur.push(x);
            assert(out@.map_values(|v: Vec<char>| v@).push(cur@) =~= split_char(t, c));
        }
    }
    assert(s@.take(s@.len() as int) =~= s@);
    out.push(cur);
    out
}

/// `l` without one final carriage return.
pub open spec fn strip_cr(l: Seq<char>) -> Seq<char> {
    if l.len() > 0 && l.last() == '\r' {
        l.drop_last()
    } else {
        l
    }
}

/// The lines of `s` as `str::lines` yields them: split at `\n` or `\r\n`,
/// the final line ending optional, a lone final `\r` kept.
pub open spec fn lines_of(s: Seq<char>) -> Seq<Seq<char>> {
    let pieces = split_char(s, '\n');
    let ended = pieces.drop_last().map_values(|l: Seq<char>| strip_cr(l));
    if s.len() == 0 || s.last() == '\n' {
        ended
    } else {
        ended.push(pieces.last())
    }
}

/// The lines of `s`.
pub fn lines(s: &str) -> (r: Vec<Vec<char>>)
    ensures
        r@.map_values(|v: Vec<char>| v@) == lines_of(s@),
{
    let pieces = split_on_char(s, '\n');
    let ghost pv = pieces@.map_values(|v: Vec<char>| v@);
    proof {
        lemma_split_char_nonempty(s@, '\n');
    }
    let mut out: Vec<Vec<char>> = Vec::new();
    let n = pieces.len();
    let mut i: usize = 0;
    while i + 1 < n
        invariant
            n == pieces.len(),
            n > 0,
            pv == pieces@.map_values(|v: Vec<char>| v@),
            i + 1 <= n,
            out@.map_values(|v: Vec<char>| v@) == pv.drop_last().take(i as int).map_values(
                |l: Seq<char>| strip_cr(l),
            ),
        decreases n - i,
    {
        let p = &pieces[i];
        let mut l: Vec<char> = p.clone();
        if l.len() > 0 && l[l.len() - 1] == '\r' {
            l.pop();
        }
        assert(l@ == strip_cr(pv[i as int]));
        let ghost before = out@;
        out.push(l);
        assert(out@ == before.push(l));
        assert(pv.len() == n);
        let ghost lhs = out@.map_values(|v: Vec<char>| v@);
        let ghost rhs = pv.drop_last().take(i + 1).map_values(|l: Seq<char>| strip_cr(l));
        let ghost old_rhs = pv.drop_last().take(i as int).map_values(|l: Seq<char>| strip_cr(l));
        assert(before.map_values(|v: Vec<char>| v@).len() == before.len());
        assert(old_rhs.len() == i);
        assert(before.len() == i);
        assert(pv.drop_last().take(i + 1).len() == i + 1);
        assert(lhs.len() == rhs.len());
        assert forall|k: int| 0 <= k < lhs.len() implies lhs[k] == rhs[k] by {
            if k < i {
                assert(lhs[k] == before[k]@);
                assert(before.map_values(|v: Vec<char>| v@)[k] == old_rhs[k]);
            }
        }
        assert(lhs =~= rhs);
        i += 1;
    }
    assert(pv.drop_last().take(i as int) =~= pv.drop_last());
    let last = &pieces[n - 1];
    if last.len() > 0 {
        out.push(last.clone());
        proof {
            if s@.len() == 0 {
                assert(split_char(s@, '\n') == seq![Seq::<char>::empty()]);
                assert(pv.last() == Seq::<char>::empty());
                assert(last@.len() == 0);
            }
            assert(s@.len() > 0);
            assert(pv.last() == last@);
            if s@.last() == '\n' {
                assert(s@.drop_last().push('\n') =~= s@);
            }
        }
        assert(out@.map_values(|v: Vec<char>| v@) =~= lines_of(s@));
    } else {
        proof {
            if s@.len() > 0 && s@.last() != '\n' {
                let q = split_char(s@.drop_last(), '\n');
                lemma_split_char_nonempty(s@.drop_last(), '\n');
                assert(pv.last() == q.last().push(s@.last()));
            }
        }
        assert(out@.map_values(|v: Vec<char>| v@) =~= lines_of(s@));
    }
    out
}

/// Whether `p` is a prefix of `s`.
pub fn starts_with_chars(s: &Vec<char>, p: &str) -> (r: bool)
    ensures
        r == (p@.len() <= s@.len() && s@.take(p@.len() as int) == p@),
{
    let pc = to_chars(p);
    if pc.len() > s.len() {
        return false;
    }
    let mut k: usize = 0;
    while k < pc.len()
        invariant
            pc@ == p@,
            pc.len() <= s.len(),
            k <= pc.len(),
            s@.take(k as int) == pc@.take(k as int),
        decreases pc.len() - k,
    {
        if s[k] != pc[k] {
            assert(s@.take(pc.len() as int)[k as int] != p@[k as int]);
            return false;
        }
        assert(s@.take(k + 1) =~= s@.take(k as int).push(s@[k as int]));
        assert(pc@.take(k + 1) =~= pc@.take(k as int).push(pc@[k as int]));
        k += 1;
    }
    assert(pc@.take(pc.len() as int) =~= pc@);
    true
}

/// The first index at which `c` occurs in `s`.
pub open spec fn index_of_char(s: Seq<char>, c: char) -> Option<int>
    decreases s.len(),
{
    if s.len() == 0 {
        None
    } else if s[0] == c {
        Some(0)
    } else {
        match index_of_char(s.drop_first(), c) {
            Some(i) => Some(i + 1),
            None => None,
        }
    }
}

/// The first index at which `c` occurs in `s`.
pub fn find_char(s: &Vec<char>, c: char) -> (r: Option<usize>)
    ensures
        r matches Some(i) ==> index_of_char(s@, c) == Some(i as int) && i < s.len() && s@[i as int]
            == c,
        r is None ==> index_of_char(s@, c) is None,
{
    let mut i: usize = 0;
    assert(s@.skip(0) =~= s@);
    while i < s.len()
        invariant
            i <= s.len(),
            index_of_char(s@, c) == match index_of_char(s@.skip(i as int), c) {
                Some(j) => Some(j + i),
                None => None::<int>,
            },
        decreases s.len() - i,
    {
        assert(s@.skip(i as int)[0] == s@[i as int]);
        if s[i] == c {
            return Some(i);
        }
        assert(s@.skip(i as int).drop_first() =~= s@.skip(i + 1));
        i += 1;
    }
    None
}

/// `s` from index `a` to index `b`.
pub fn sub_chars(s: &Vec<char>, a: usize, b: usize) -> (r: Vec<char>)
    requires
        a <= b <= s.len(),
    ensures
        r@ == s@.subrange(a as int, b as int),
{
    let mut r: Vec<char> = Vec::new();
    let mut i = a;
    while i < b
        invariant
            a <= i <= b <= s.len(),
            r@ == s@.subrange(a as int, i as int),
        decreases b - i,
    {
        r.push(s[i]);
        assert(s@.subrange(a as int, i + 1) =~= s@.subrange(a as int, i as int).push(s@[i as int]));
        i += 1;
    }
    r
}

/// `s` without its leading whitespace.
pub open spec fn trim_start(s: Seq<char>) -> Seq<char>
    decreases s.len(),
{
    if s.len() > 0 && is_ws(s[0]) {
        trim_start(s.drop_first())
    } else {
        s
    }
}

/// `s` without its trailing whitespace.
pub open spec fn trim_end(s: Seq<char>) -> Seq<char>
    decreases s.len(),
{
    if s.len() > 0 && is_ws(s.last()) {
        trim_end(s.drop_last())
    } else {
        s
    }
}

/// `s` without leading and trailing whitespace (`str::trim`).
pub open spec fn trim(s: Seq<char>) -> Seq<char> {
    trim_end(trim_start(s))
}

/// `s` without leading and trailing whitespace.
pub fn trim_chars(s: &Vec<char>) -> (r: Vec<char>)
    ensures
        r@ == trim(s@),
{
    let mut i: usize = 0;
    assert(s@.skip(0) =~= s@);
    while i < s.len() && is_whitespace(s[i])
        invariant
            i <= s.len(),
            trim_start(s@) == trim_start(s@.skip(i as int)),
        decreases s.len() - i,
    {
        assert(s@.skip(i as int)[0] == s@[i as int]);
        assert(s@.skip(i as int).drop_first() =~= s@.skip(i + 1));
        i += 1;
    }
    proof {
        if i < s.len() {
            assert(s@.skip(i as int)[0] == s@[i as int]);
        }
    }
    assert(trim_start(s@) == s@.subrange(i as int, s.len() as int));
    let mut j: usize = s.len();
    while j > i && is_whitespace(s[j - 1])
        invariant
            i <= j <= s.len(),
            trim(s@) == trim_end(s@.subrange(i as int, j as int)),
        decreases j - i,
    {
        assert(s@.subrange(i as int, j as int).last() == s@[j - 1]);
        assert(s@.subrange(i as int, j as int).drop_last() =~= s@.subrange(i as int, j - 1));
        j -= 1;
    }
    proof {
        if j > i {
            assert(s@.subrange(i as int, j as int).last() == s@[j - 1]);
        }
    }
    sub_chars(s, i, j)
}

/// The number of bytes of `c` in UTF-8 (`char::len_utf8`).
pub open spec fn char_utf8_len(c: char) -> nat {
    if (c as u32) < 0x80 {
        1
    } else if (c as u32) < 0x800 {
        2
    } else if (c as u32) < 0x10000 {
        3
    } else {
        4
    }
}

/// The number of bytes of `s` in UTF-8.
pub open spec fn utf8_len(s: Seq<char>) -> nat
    decreases s.len(),
{
    if s.len() == 0 {
        0
    } else {
        utf8_len(s.drop_last()) + char_utf8_len(s.last())
    }
}

/// Calls `str::len`: the length of a string in bytes, which is the sum of
/// the UTF-8 lengths of its characters.
#[verifier::external_body]
pub(crate) fn byte_len(s: &str) -> (r: usize)
    ensures
        r == utf8_len(s@),
{
    s.len()
}

proof fn lemma_utf8_len_prefix(s: Seq<char>, k: int)
    requires
        0 <= k <= s.len(),
    ensures
        utf8_len(s.take(k)) <= utf8_len(s),
    decreases s.len() - k,
{
    if k < s.len() {
        lemma_utf8_len_prefix(s, k + 1);
        assert(s.take(k + 1).drop_last() =~= s.take(k));
    } else {
        assert(s.take(k) =~= s);
    }
}

/// The number of bytes of the first `k` characters of `s` in UTF-8.
pub fn prefix_byte_len(s: &str, k: usize) -> (r: usize)
    requires
        k <= s@.len(),
    ensures
        r == utf8_len(s@.take(k as int)),
{
    let total = byte_len(s);
    let cs = to_chars(s);
    let mut n: usize = 0;
    let mut i: usize = 0;
    while i < k
        invariant
            cs@ == s@,
            k <= s@.len(),
            total == utf8_len(s@),
            i <= k,
            n == utf8_len(s@.take(i as int)),
        decreases k - i,
    {
        proof {
            lemma_utf8_len_prefix(s@, i + 1);
            assert(s@.take(i + 1).drop_last() =~= s@.take(i as int));
        }
        let u = cs[i] as u32;
        let w: usize = if u < 0x80 {
            1
        } else if u < 0x800 {
            2
        } else if u < 0x10000 {
            3
        } else {
            4
        };
        n = n + w;
        i += 1;
    }
    n
}


/// The index of the first occurrence of `t` in `s` at or after `i`.
pub open spec fn find_from(s: Seq<char>, t: Seq<char>, i: int) -> Option<int>
    decreases s.len() - i,
{
    if i < 0 || i + t.len() > s.len() {
        None
    } else if s.subrange(i, i + t.len()) == t {
        Some(i)
    } else if i >= s.len() {
        None
    } else {
        find_from(s, t, i + 1)
    }
}

/// The index of the first occurrence of `t` in `s` (`str::find`, counted
/// in characters).
pub open spec fn first_index(s: Seq<char>, t: Seq<char>) -> Option<int> {
    find_from(s, t, 0)
}

/// The index of the first occurrence of `t` in `s`.
pub fn find_chars(s: &Vec<char>, t: &Vec<char>) -> (r: Option<usize>)
    ensures
        r matches Some(i) ==> first_index(s@, t@) == Some(i as int) && i + t.len() <= s.len(),
        r is None ==> first_index(s@, t@) is None,
{
    if t.len() > s.len() {
        return None;
    }
    let last = s.len() - t.len();
    let mut i: usize = 0;
    while i <= last
        invariant
            last == s.len() - t.len(),
            t.len() <= s.len(),
            i <= last + 1,
            find_from(s@, t@, 0) == find_from(s@, t@, i as int),
        decreases last + 1 - i,
    {
        let mut k: usize = 0;
        assert(s@.subrange(i as int, i as int) =~= t@.take(0));
        while k < t.len() && s[i + k] == t[k]
            invariant
                t.len() <= s.len(),
                i <= last,
                last == s.len() - t.len(),
                k <= t.len(),
                s@.subrange(i as int, i + k) == t@.take(k as int),
            decreases t.len() - k,
        {
            assert(s@.subrange(i as int, i + k + 1) =~= s@.subrange(i as int, i + k).push(
                s@[i + k],
            ));
            assert(t@.take(k + 1) =~= t@.take(k as int).push(t@[k as int]));
            k += 1;
        }
        if k == t.len() {
            assert(t@.take(t.len() as int) =~= t@);
            return Some(i);
        }
        assert(s@.subrange(i as int, i + t.len())[k as int] != t@[k as int]);
        i += 1;
    }
    None
}

/// `s` with every occurrence of `pat` (non-empty), from left to right and
/// without overlap, replaced by `rep` (`str::replace`).
pub open spec fn replace_all(s: Seq<char>, pat: Seq<char>, rep: Seq<char>) -> Seq<char>
    decreases s.len(),
{
    if s.len() == 0 {
        Seq::empty()
    } else if pat.len() > 0 && pat.len() <= s.len() && s.take(pat.len() as int) == pat {
        rep + replace_all(s.skip(pat.len() as int), pat, rep)
    } else {
        seq![s[0]] + replace_all(s.drop_first(), pat, rep)
    }
}

/// `s` with every occurrence of `pat` replaced by `rep`.
pub fn replace_str(s: &str, pat: &str, rep: &str) -> (r: String)
    requires
        pat@.len() > 0,
    ensures
        r@ == replace_all(s@, pat@, rep@),
{
    let cs = to_chars(s);
    let pc = to_chars(pat);
    let mut out = String::new();
    let mut i: usize = 0;
    assert(s@.skip(0) =~= s@);
    while i < cs.len()
        invariant
            cs@ == s@,
            pc@ == pat@,
            pat@.len() > 0,
            i <= cs.len(),
            out@ + replace_all(s@.skip(i as int), pat@, rep@) == replace_all(s@, pat@, rep@),
        decreases cs.len() - i,
    {
        let ghost rest = s@.skip(i as int);
        let mut m = pc.len() <= cs.len() - i;
        let mut k: usize = 0;
        while m && k < pc.len()
            invariant
                cs@ == s@,
                pc@ == pat@,
                i < cs.len(),
                rest == s@.skip(i as int),
                k <= pc.len(),
                m ==> pc.len() <= cs.len() - i,
                m ==> rest.take(k as int) == pc@.take(k as int),
                !m ==> !(pc.len() <= rest.len() && rest.take(pc.len() as int) == pc@),
            decreases pc.len() - k,
        {
            if cs[i + k] != pc[k] {
                assert(rest.take(pc.len() as int)[k as int] == cs@[i + k]);
                m = false;
                k = pc.len();
            } else {
                assert(rest.take(k + 1) =~= rest.take(k as int).push(rest[k as int]));
                assert(pc@.take(k + 1) =~= pc@.take(k as int).push(pc@[k as int]));
                k += 1;
            }
        }
        if m {
            assert(pc@.take(pc.len() as int) =~= pc@);
            push_str(&mut out, rep);
            assert(rest.skip(pat@.len() as int) =~= s@.skip(i + pc.len()));
            assert(out@ + replace_all(s@.skip(i + pc.len()), pat@, rep@) =~= replace_all(
                s@,
                pat@,
                rep@,
            ));
            i = i + pc.len();
        } else {
            push_char(&mut out, cs[i]);
            assert(rest[0] == cs@[i as int]);
            assert(rest.drop_first() =~= s@.skip(i + 1));
            assert(out@ + replace_all(s@.skip(i + 1), pat@, rep@) =~= replace_all(s@, pat@, rep@));
            i = i + 1;
        }
    }
    assert(s@.skip(cs.len() as int) =~= Seq::<char>::empty());
    assert(out@ + Seq::<char>::empty() =~= out@);
    out
}

/// Whether every character of `d` is an ASCII decimal digit.
pub open spec fn all_digits(d: Seq<char>) -> bool {
    forall|k: int| 0 <= k < d.len() ==> '0' <= #[trigger] d[k] && d[k] <= '9'
}

/// The value of a run of ASCII decimal digits.
pub open spec fn digits_value(d: Seq<char>) -> nat
    decreases d.len(),
{
    if d.len() == 0 {
        0
    } else {
        digits_value(d.drop_last()) * 10 + ((d.last() as nat) - 48) as nat
    }
}

/// What `str::parse::<usize>` accepts: an optional `+` followed by one or
/// more ASCII digits whose value fits in `usize`.
pub open spec fn parsed_usize(s: Seq<char>) -> Option<nat> {
    let d = if s.len() > 0 && s[0] == '+' {
        s.drop_first()
    } else {
        s
    };
    if d.len() > 0 && all_digits(d) && digits_value(d) <= usize::MAX {
        Some(digits_value(d))
    } else {
        None
    }
}

/// The value of a prefix of a digit run is at most that of the run.
proof fn lemma_digits_value_prefix(d: Seq<char>, i: int)
    requires
        all_digits(d),
        0 <= i <= d.len(),
    ensures
        digits_value(d.take(i)) <= digits_value(d),
    decreases d.len() - i,
{
    if i < d.len() {
        lemma_digits_value_prefix(d, i + 1);
        assert(d.take(i + 1).drop_last() =~= d.take(i));
        assert('0' <= d[i] && d[i] <= '9');
    } else {
        assert(d.take(i) =~= d);
    }
}

/// What `str::parse::<usize>` gives: an optional `+` and one or more ASCII
/// digits whose value fits; anything else, or an overflow, is nothing.
pub fn parse_usize(s: &str) -> (r: Option<usize>)
    ensures
        match parsed_usize(s@) {
            Some(v) => r == Some(v as usize),
            None => r is None,
        },
{
    let cs = to_chars(s);
    let start: usize = if cs.len() > 0 && cs[0] == '+' {
        1
    } else {
        0
    };
    let ghost d = if s@.len() > 0 && s@[0] == '+' {
        s@.drop_first()
    } else {
        s@
    };
    assert(d =~= cs@.skip(start as int));
    if start == cs.len() {
        return None;
    }
    let mut v: usize = 0;
    let mut i: usize = start;
    while i < cs.len()
        invariant
            cs@ == s@,
            d == cs@.skip(start as int),
            d == (if s@.len() > 0 && s@[0] == '+' {
                s@.drop_first()
            } else {
                s@
            }),
            start <= i <= cs@.len(),
            all_digits(d.take(i - start)),
            v == digits_value(d.take(i - start)),
        decreases cs@.len() - i,
    {
        let c = cs[i];
        let ghost k = i - start;
        assert(d[k] == c);
        if !('0' <= c && c <= '9') {
            assert(!all_digits(d));
            return None;
        }
        assert(d.take(k + 1).drop_last() =~= d.take(k));
        assert(all_digits(d.take(k + 1))) by {
            assert forall|q: int| 0 <= q < k + 1 implies '0' <= #[trigger] d.take(k + 1)[q]
                && d.take(k + 1)[q] <= '9' by {
                if q < k {
                    assert(d.take(k + 1)[q] == d.take(k)[q]);
                }
            }
        }
        let digit = (c as u32 - 48) as usize;
        assert(d.take(k + 1).last() == c);
        assert(digit == (c as nat) - 48);
        let next = match v.checked_mul(10) {
            Some(m) => m.checked_add(digit),
            None => None,
        };
        match next {
            Some(n) => {
                v = n;
            },
            None => {
                proof {
                    assert(digits_value(d.take(k + 1)) == v * 10 + digit);
                    if all_digits(d) {
                        lemma_digits_value_prefix(d, k + 1);
                    }
                }
                return None;
            },
        }
        i += 1;
    }
    assert(d.take(i - start) =~= d);
    Some(v)
}

} // verus!

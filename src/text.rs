//! Character-level text primitives shared by the transcript processors:
//! whitespace classification, tokenizing, joining and substring rewriting.

use vstd::prelude::*;

verus! {

/// The Unicode `White_Space` property, which is what `char::is_whitespace` tests.
pub open spec fn is_space_char(c: char) -> bool {
    let u = c as u32;
    (0x9 <= u && u <= 0xd) || u == 0x20 || u == 0x85 || u == 0xa0 || u == 0x1680
        || (0x2000 <= u && u <= 0x200a) || u == 0x2028 || u == 0x2029 || u == 0x202f
        || u == 0x205f || u == 0x3000
}

pub fn is_space(c: char) -> (r: bool)
    ensures
        r == is_space_char(c),
{
    let u = c as u32;
    (0x9 <= u && u <= 0xd) || u == 0x20 || u == 0x85 || u == 0xa0 || u == 0x1680 || (0x2000
        <= u && u <= 0x200a) || u == 0x2028 || u == 0x2029 || u == 0x202f || u == 0x205f || u
        == 0x3000
}

/// The views of a sequence of strings.
pub open spec fn texts(v: Seq<String>) -> Seq<Seq<char>> {
    v.map_values(|s: String| s@)
}

/// The characters of `s` in order.
pub fn chars_of(s: &str) -> (r: Vec<char>)
    ensures
        r@ == s@,
{
    broadcast use vstd::string::group_string_axioms;

    let mut out: Vec<char> = Vec::new();
    for c in it: s.chars()
        invariant
            it.seq() == s@,
            out@ == it.seq().take(it.index() as int),
    {
        out.push(c);
    }
    out
}

/// Relies on collecting a `char` iterator into a `String`: the same characters.
#[verifier::external_body]
pub(crate) fn string_from(v: &Vec<char>) -> (r: String)
    ensures
        r@ == v@,
{
    v.iter().collect()
}

/// The token under construction, closed off as a token when it is non-empty.
pub open spec fn flush(cur: Seq<char>) -> Seq<Seq<char>> {
    if cur.len() == 0 {
        seq![]
    } else {
        seq![cur]
    }
}

/// Tokens of `s` from position `i` on, where `cur` holds the characters of the
/// token that is open at `i`.
pub open spec fn tokens_from(s: Seq<char>, i: int, cur: Seq<char>) -> Seq<Seq<char>>
    decreases s.len() - i,
{
    if i >= s.len() {
        flush(cur)
    } else if is_space_char(s[i]) {
        flush(cur) + tokens_from(s, i + 1, seq![])
    } else {
        tokens_from(s, i + 1, cur.push(s[i]))
    }
}

/// The maximal runs of non-whitespace characters of `s`, in order (what
/// `str::split_whitespace` yields).
pub open spec fn tokens(s: Seq<char>) -> Seq<Seq<char>> {
    tokens_from(s, 0, seq![])
}

/// Splits `s` into its whitespace-separated tokens.
pub fn split_tokens(s: &str) -> (r: Vec<String>)
    ensures
        texts(r@) == tokens(s@),
{
    let cs = chars_of(s);
    let mut out: Vec<String> = Vec::new();
    let mut cur: Vec<char> = Vec::new();
    let mut i: usize = 0;
    while i < cs.len()
        invariant
            0 <= i <= cs@.len(),
            cs@ == s@,
            texts(out@) + tokens_from(cs@, i as int, cur@) == tokens(s@),
        decreases cs@.len() - i,
    {
        let c = cs[i];
        let ghost prev = out@;
        if is_space(c) {
            if cur.len() > 0 {
                let t = string_from(&cur);
                out.push(t);
                assert(texts(out@) =~= texts(prev) + flush(cur@));
            } else {
                assert(texts(out@) =~= texts(prev) + flush(cur@));
            }
            cur = Vec::new();
        } else {
            cur.push(c);
        }
        i = i + 1;
    }
    let ghost prev = out@;
    if cur.len() > 0 {
        let t = string_from(&cur);
        out.push(t);
        assert(texts(out@) =~= texts(prev) + flush(cur@));
    } else {
        assert(texts(out@) =~= texts(prev) + flush(cur@));
    }
    out
}

/// `ws` joined with one space between neighbours.
pub open spec fn join_spaced(ws: Seq<Seq<char>>) -> Seq<char>
    decreases ws.len(),
{
    if ws.len() == 0 {
        seq![]
    } else if ws.len() == 1 {
        ws[0]
    } else {
        join_spaced(ws.drop_last()) + seq![' '] + ws.last()
    }
}

/// Joins `ws` with one space between neighbours.
pub fn join_words(ws: &Vec<String>) -> (r: Vec<char>)
    ensures
        r@ == join_spaced(texts(ws@)),
{
    let mut out: Vec<char> = Vec::new();
    let mut i: usize = 0;
    while i < ws.len()
        invariant
            0 <= i <= ws@.len(),
            out@ == join_spaced(texts(ws@).take(i as int)),
        decreases ws@.len() - i,
    {
        let w = chars_of(ws[i].as_str());
        if i > 0 {
            out.push(' ');
        }
        out.extend_from_slice(w.as_slice());
        assert(texts(ws@).take(i + 1).drop_last() =~= texts(ws@).take(i as int));
        assert(out@ =~= join_spaced(texts(ws@).take(i + 1)));
        i = i + 1;
    }
    assert(texts(ws@).take(ws@.len() as int) =~= texts(ws@));
    out
}

/// `pat` occurs in `s` at position `i`.
pub open spec fn occurs_at(s: Seq<char>, pat: Seq<char>, i: int) -> bool {
    0 <= i && i + pat.len() <= s.len() && s.subrange(i, i + pat.len()) == pat
}

/// `s` from position `i` on, with each occurrence of `pat` replaced by `rep`,
/// occurrences taken left to right without overlap.
pub open spec fn replaced_from(s: Seq<char>, pat: Seq<char>, rep: Seq<char>, i: int) -> Seq<char>
    decreases s.len() - i,
{
    if i >= s.len() {
        seq![]
    } else if pat.len() > 0 && occurs_at(s, pat, i) {
        rep + replaced_from(s, pat, rep, i + pat.len())
    } else {
        seq![s[i]] + replaced_from(s, pat, rep, i + 1)
    }
}

/// `s` with every occurrence of `pat` replaced by `rep`, as `str::replace` does.
pub open spec fn replaced(s: Seq<char>, pat: Seq<char>, rep: Seq<char>) -> Seq<char> {
    replaced_from(s, pat, rep, 0)
}

/// Tells whether `pat` occurs in `s` at position `i`.
pub fn occurs_in_at(s: &Vec<char>, pat: &Vec<char>, i: usize) -> (r: bool)
    requires
        i <= s@.len(),
    ensures
        r == occurs_at(s@, pat@, i as int),
{
    if pat.len() > s.len() - i {
        return false;
    }
    let mut j: usize = 0;
    while j < pat.len()
        invariant
            0 <= j <= pat@.len(),
            i + pat.len() <= s.len(),
            forall|k: int| 0 <= k < j ==> s@[i + k] == pat@[k],
        decreases pat@.len() - j,
    {
        if s[i + j] != pat[j] {
            assert(s@.subrange(i as int, i + pat@.len())[j as int] != pat@[j as int]);
            return false;
        }
        j = j + 1;
    }
    assert(s@.subrange(i as int, i + pat@.len()) =~= pat@);
    true
}

/// Replaces every occurrence of `pat` in `s` by `rep`, left to right.
pub fn replace_all(s: &Vec<char>, pat: &Vec<char>, rep: &Vec<char>) -> (r: Vec<char>)
    requires
        pat@.len() > 0,
    ensures
        r@ == replaced(s@, pat@, rep@),
{
    let mut out: Vec<char> = Vec::new();
    let mut i: usize = 0;
    while i < s.len()
        invariant
            0 <= i <= s@.len(),
            pat@.len() > 0,
            out@ + replaced_from(s@, pat@, rep@, i as int) == replaced(s@, pat@, rep@),
        decreases s@.len() - i,
    {
        if occurs_in_at(s, pat, i) {
            out.extend_from_slice(rep.as_slice());
            i = i + pat.len();
        } else {
            out.push(s[i]);
            i = i + 1;
        }
    }
    assert(out@ + replaced_from(s@, pat@, rep@, i as int) =~= out@);
    out
}

/// The same as `replace_all`, with the pattern and its replacement given as
/// string slices.
pub fn replace_str(s: &Vec<char>, pat: &str, rep: &str) -> (r: Vec<char>)
    requires
        pat@.len() > 0,
    ensures
        r@ == replaced(s@, pat@, rep@),
{
    let p = chars_of(pat);
    let q = chars_of(rep);
    replace_all(s, &p, &q)
}

/// Tells whether `a` and `b` hold the same characters.
pub fn same_text(a: &str, b: &str) -> (r: bool)
    ensures
        r == (a@ == b@),
{
    let x = chars_of(a);
    let y = chars_of(b);
    if x.len() != y.len() {
        return false;
    }
    let mut j: usize = 0;
    while j < x.len()
        invariant
            0 <= j <= x@.len(),
            x@.len() == y@.len(),
            x@ == a@,
            y@ == b@,
            forall|k: int| 0 <= k < j ==> x@[k] == y@[k],
        decreases x@.len() - j,
    {
        if x[j] != y[j] {
            return false;
        }
        j = j + 1;
    }
    assert(x@ =~= y@);
    true
}

/// `w` is a word: non-empty and free of whitespace.
pub open spec fn is_word(w: Seq<char>) -> bool {
    w.len() > 0 && forall|k: int| 0 <= k < w.len() ==> !is_space_char(#[trigger] w[k])
}

/// Each of `ws` is a word.
pub open spec fn all_words(ws: Seq<Seq<char>>) -> bool {
    forall|j: int| 0 <= j < ws.len() ==> is_word(#[trigger] ws[j])
}

proof fn lemma_tokens_from_words(s: Seq<char>, i: int, cur: Seq<char>)
    requires
        forall|k: int| 0 <= k < cur.len() ==> !is_space_char(#[trigger] cur[k]),
    ensures
        all_words(tokens_from(s, i, cur)),
    decreases s.len() - i,
{
    if i >= s.len() {
    } else if is_space_char(s[i]) {
        lemma_tokens_from_words(s, i + 1, seq![]);
        let r = tokens_from(s, i + 1, seq![]);
        assert(all_words(flush(cur) + r)) by {
            assert forall|j: int| 0 <= j < (flush(cur) + r).len() implies is_word(
                #[trigger] (flush(cur) + r)[j],
            ) by {
                if j >= flush(cur).len() {
                    assert((flush(cur) + r)[j] == r[j - flush(cur).len()]);
                }
            }
        }
    } else {
        let c2 = cur.push(s[i]);
        assert forall|k: int| 0 <= k < c2.len() implies !is_space_char(#[trigger] c2[k]) by {
            if k < cur.len() {
                assert(c2[k] == cur[k]);
            }
        }
        lemma_tokens_from_words(s, i + 1, c2);
    }
}

/// Every token is a word.
pub proof fn lemma_tokens_are_words(s: Seq<char>)
    ensures
        all_words(tokens(s)),
{
    lemma_tokens_from_words(s, 0, seq![]);
}

/// Tokenizing up to a whitespace character at `j` and after it separately
/// gives the same tokens.
proof fn lemma_tokens_split_at_space(s: Seq<char>, i: int, j: int, cur: Seq<char>)
    requires
        0 <= i <= j < s.len(),
        is_space_char(s[j]),
    ensures
        tokens_from(s, i, cur) == tokens_from(s.take(j), i, cur) + tokens_from(s, j + 1, seq![]),
    decreases j - i,
{
    let t = s.take(j);
    if i == j {
        assert(tokens_from(t, i, cur) == flush(cur));
    } else {
        assert(t[i] == s[i]);
        if is_space_char(s[i]) {
            lemma_tokens_split_at_space(s, i + 1, j, seq![]);
            assert(tokens_from(s, i, cur) == flush(cur) + tokens_from(s, i + 1, seq![]));
            assert(tokens_from(t, i, cur) == flush(cur) + tokens_from(t, i + 1, seq![]));
            assert(flush(cur) + (tokens_from(t, i + 1, seq![]) + tokens_from(s, j + 1, seq![]))
                =~= (flush(cur) + tokens_from(t, i + 1, seq![])) + tokens_from(s, j + 1, seq![]));
        } else {
            lemma_tokens_split_at_space(s, i + 1, j, cur.push(s[i]));
        }
    }
}

/// Tokenizing the tail of `p + q` that lies in `q` is tokenizing `q`.
proof fn lemma_tokens_shift(p: Seq<char>, q: Seq<char>, j: int, cur: Seq<char>)
    requires
        0 <= j,
    ensures
        tokens_from(p + q, p.len() + j, cur) == tokens_from(q, j, cur),
    decreases q.len() - j,
{
    if j < q.len() {
        assert((p + q)[p.len() + j] == q[j]);
        if is_space_char(q[j]) {
            lemma_tokens_shift(p, q, j + 1, seq![]);
        } else {
            lemma_tokens_shift(p, q, j + 1, cur.push(q[j]));
        }
    }
}

proof fn lemma_tokens_of_word_from(w: Seq<char>, i: int, cur: Seq<char>)
    requires
        is_word(w),
        0 <= i <= w.len(),
    ensures
        tokens_from(w, i, cur) == flush(cur + w.subrange(i, w.len() as int)),
    decreases w.len() - i,
{
    if i < w.len() {
        lemma_tokens_of_word_from(w, i + 1, cur.push(w[i]));
        assert(cur.push(w[i]) + w.subrange(i + 1, w.len() as int) =~= cur + w.subrange(
            i,
            w.len() as int,
        ));
    } else {
        assert(cur + w.subrange(i, w.len() as int) =~= cur);
    }
}

/// A word is its own single token.
proof fn lemma_tokens_of_word(w: Seq<char>)
    requires
        is_word(w),
    ensures
        tokens(w) == seq![w],
{
    lemma_tokens_of_word_from(w, 0, seq![]);
    assert(seq![] + w.subrange(0, w.len() as int) =~= w);
}

/// Words joined by single spaces are tokenized back into the same words.
pub proof fn lemma_tokens_of_joined(ws: Seq<Seq<char>>)
    requires
        all_words(ws),
    ensures
        tokens(join_spaced(ws)) == ws,
    decreases ws.len(),
{
    if ws.len() == 0 {
        assert(tokens(seq![]) =~= seq![]);
    } else if ws.len() == 1 {
        assert(is_word(ws[0]));
        lemma_tokens_of_word(ws[0]);
        assert(seq![ws[0]] =~= ws);
    } else {
        let init = ws.drop_last();
        let w = ws.last();
        assert(all_words(init)) by {
            assert forall|j: int| 0 <= j < init.len() implies is_word(#[trigger] init[j]) by {
                assert(init[j] == ws[j]);
            }
        }
        assert(is_word(ws[ws.len() - 1]));
        lemma_tokens_of_joined(init);
        let a = join_spaced(init);
        let s = join_spaced(ws);
        assert(s == a + seq![' '] + w);
        assert(s[a.len() as int] == ' ');
        lemma_tokens_split_at_space(s, 0, a.len() as int, seq![]);
        assert(s.take(a.len() as int) =~= a);
        assert(s =~= (a + seq![' ']) + w);
        lemma_tokens_shift(a + seq![' '], w, 0, seq![]);
        lemma_tokens_of_word(w);
        assert(ws =~= init + seq![w]);
    }
}

/// With no occurrence of `pat` from `i` on, replacing changes nothing there.
proof fn lemma_replaced_none(s: Seq<char>, pat: Seq<char>, rep: Seq<char>, i: int)
    requires
        0 <= i <= s.len(),
        forall|j: int| i <= j < s.len() ==> !occurs_at(s, pat, j),
    ensures
        replaced_from(s, pat, rep, i) == s.subrange(i, s.len() as int),
    decreases s.len() - i,
{
    if i < s.len() {
        lemma_replaced_none(s, pat, rep, i + 1);
        assert(seq![s[i]] + s.subrange(i + 1, s.len() as int) =~= s.subrange(i, s.len() as int));
    } else {
        assert(s.subrange(i, s.len() as int) =~= seq![]);
    }
}

proof fn lemma_replaced_shift(p: Seq<char>, q: Seq<char>, pat: Seq<char>, rep: Seq<char>, j: int)
    requires
        0 <= j,
    ensures
        replaced_from(p + q, pat, rep, p.len() + j) == replaced_from(q, pat, rep, j),
    decreases q.len() - j,
{
    if j < q.len() {
        assert((p + q)[p.len() + j] == q[j]);
        if j + pat.len() <= q.len() {
            assert((p + q).subrange(p.len() + j, p.len() + j + pat.len()) =~= q.subrange(
                j,
                j + pat.len(),
            ));
        }
        assert(occurs_at(p + q, pat, p.len() + j) == occurs_at(q, pat, j));
        lemma_replaced_shift(p, q, pat, rep, j + 1);
        if pat.len() > 0 && j + pat.len() <= q.len() {
            lemma_replaced_shift(p, q, pat, rep, j + pat.len());
        }
    }
}

/// Replacing in `a + b` is replacing in each, when no occurrence of `pat`
/// straddles the seam.
proof fn lemma_replaced_concat(a: Seq<char>, b: Seq<char>, pat: Seq<char>, rep: Seq<char>, i: int)
    requires
        0 <= i <= a.len(),
        forall|k: int| a.len() - pat.len() < k < a.len() ==> !occurs_at(a + b, pat, k),
    ensures
        replaced_from(a + b, pat, rep, i) == replaced_from(a, pat, rep, i) + replaced(b, pat, rep),
    decreases a.len() - i,
{
    if i == a.len() {
        lemma_replaced_shift(a, b, pat, rep, 0);
        assert(replaced_from(a, pat, rep, i) =~= seq![]);
        assert(replaced_from(a + b, pat, rep, i) =~= seq![] + replaced(b, pat, rep));
    } else {
        assert((a + b)[i] == a[i]);
        if i + pat.len() <= a.len() {
            assert((a + b).subrange(i, i + pat.len()) =~= a.subrange(i, i + pat.len()));
        }
        assert(occurs_at(a + b, pat, i) == occurs_at(a, pat, i));
        lemma_replaced_concat(a, b, pat, rep, i + 1);
        if pat.len() > 0 && occurs_at(a, pat, i) {
            lemma_replaced_concat(a, b, pat, rep, i + pat.len());
            assert(rep + (replaced_from(a, pat, rep, i + pat.len()) + replaced(b, pat, rep)) =~= (
            rep + replaced_from(a, pat, rep, i + pat.len())) + replaced(b, pat, rep));
        } else {
            assert(seq![a[i]] + (replaced_from(a, pat, rep, i + 1) + replaced(b, pat, rep)) =~= (
            seq![a[i]] + replaced_from(a, pat, rep, i + 1)) + replaced(b, pat, rep));
        }
    }
}

/// `ws` with each word after the first that begins with `x` appended to the
/// word before it, which is what removing the space before each `x` does to
/// words joined by spaces.
pub open spec fn glued(ws: Seq<Seq<char>>, x: char) -> Seq<Seq<char>>
    decreases ws.len(),
{
    if ws.len() <= 1 {
        ws
    } else {
        let g = glued(ws.drop_last(), x);
        if ws.last()[0] == x {
            g.drop_last().push(g.last() + ws.last())
        } else {
            g.push(ws.last())
        }
    }
}

/// No word of `ws` after the first begins with `x`.
pub open spec fn none_led_by(ws: Seq<Seq<char>>, x: char) -> bool {
    forall|j: int| 1 <= j < ws.len() ==> (#[trigger] ws[j])[0] != x
}

proof fn lemma_all_words_init(ws: Seq<Seq<char>>)
    requires
        all_words(ws),
        ws.len() > 0,
    ensures
        all_words(ws.drop_last()),
        is_word(ws.last()),
{
    assert(is_word(ws[ws.len() - 1]));
    assert forall|j: int| 0 <= j < ws.drop_last().len() implies is_word(
        #[trigger] ws.drop_last()[j],
    ) by {
        assert(ws.drop_last()[j] == ws[j]);
    }
}

/// Gluing keeps words words, keeps the first character of the first word, and
/// leaves at least one word of at least one.
pub proof fn lemma_glued_words(ws: Seq<Seq<char>>, x: char)
    requires
        all_words(ws),
    ensures
        all_words(glued(ws, x)),
        ws.len() > 0 ==> glued(ws, x).len() > 0,
        glued(ws, x).len() <= ws.len(),
        ws.len() == 0 ==> glued(ws, x).len() == 0,
    decreases ws.len(),
{
    if ws.len() > 1 {
        let init = ws.drop_last();
        let w = ws.last();
        lemma_all_words_init(ws);
        lemma_glued_words(init, x);
        let g = glued(init, x);
        if w[0] == x {
            let m = g.last() + w;
            assert(is_word(g[g.len() - 1]));
            assert(is_word(m)) by {
                assert forall|k: int| 0 <= k < m.len() implies !is_space_char(#[trigger] m[k]) by {
                    if k < g.last().len() {
                        assert(m[k] == g.last()[k]);
                    } else {
                        assert(m[k] == w[k - g.last().len()]);
                    }
                }
            }
            let r = g.drop_last().push(m);
            assert forall|j: int| 0 <= j < r.len() implies is_word(#[trigger] r[j]) by {
                if j < r.len() - 1 {
                    assert(r[j] == g[j]);
                }
            }
        } else {
            let r = g.push(w);
            assert forall|j: int| 0 <= j < r.len() implies is_word(#[trigger] r[j]) by {
                if j < r.len() - 1 {
                    assert(r[j] == g[j]);
                }
            }
        }
    }
}

/// After gluing on `x`, no word but the first begins with `x`; and gluing on
/// any character keeps that so for every other character.
pub proof fn lemma_glued_leads(ws: Seq<Seq<char>>, x: char, y: char)
    requires
        all_words(ws),
    ensures
        none_led_by(glued(ws, x), x),
        none_led_by(ws, y) ==> none_led_by(glued(ws, x), y),
    decreases ws.len(),
{
    if ws.len() > 1 {
        let init = ws.drop_last();
        let w = ws.last();
        lemma_all_words_init(ws);
        lemma_glued_leads(init, x, y);
        lemma_glued_words(init, x);
        let g = glued(init, x);
        assert(none_led_by(ws, y) ==> none_led_by(init, y)) by {
            if none_led_by(ws, y) {
                assert forall|j: int| 1 <= j < init.len() implies (#[trigger] init[j])[0] != y by {
                    assert(init[j] == ws[j]);
                }
            }
        }
        if w[0] == x {
            let m = g.last() + w;
            assert(is_word(g[g.len() - 1]));
            assert(m[0] == g.last()[0]);
            let r = g.drop_last().push(m);
            assert(r[r.len() - 1] == m);
            assert forall|j: int| 1 <= j < r.len() implies (#[trigger] r[j])[0] != x by {
                if j < r.len() - 1 {
                    assert(r[j] == g[j]);
                } else {
                    assert(g[j] == g.last());
                }
            }
            if none_led_by(ws, y) {
                assert forall|j: int| 1 <= j < r.len() implies (#[trigger] r[j])[0] != y by {
                    if j < r.len() - 1 {
                        assert(r[j] == g[j]);
                    } else {
                        assert(g[j] == g.last());
                    }
                }
            }
        } else {
            let r = g.push(w);
            assert(ws[ws.len() - 1] == w);
            assert forall|j: int| 1 <= j < r.len() implies (#[trigger] r[j])[0] != x by {
                if j < r.len() - 1 {
                    assert(r[j] == g[j]);
                }
            }
            if none_led_by(ws, y) {
                assert forall|j: int| 1 <= j < r.len() implies (#[trigger] r[j])[0] != y by {
                    if j < r.len() - 1 {
                        assert(r[j] == g[j]);
                    }
                }
            }
        }
    }
}

/// Gluing on `x` changes nothing when no word but the first begins with `x`.
pub proof fn lemma_glued_nothing(ws: Seq<Seq<char>>, x: char)
    requires
        none_led_by(ws, x),
    ensures
        glued(ws, x) == ws,
    decreases ws.len(),
{
    if ws.len() > 1 {
        let init = ws.drop_last();
        assert forall|j: int| 1 <= j < init.len() implies (#[trigger] init[j])[0] != x by {
            assert(init[j] == ws[j]);
        }
        lemma_glued_nothing(init, x);
        assert(ws[ws.len() - 1][0] != x);
        assert(init.push(ws.last()) =~= ws);
    }
}

proof fn lemma_join_extend_last(g: Seq<Seq<char>>, w: Seq<char>)
    requires
        g.len() > 0,
    ensures
        join_spaced(g.drop_last().push(g.last() + w)) == join_spaced(g) + w,
{
    let r = g.drop_last().push(g.last() + w);
    if g.len() == 1 {
        assert(r[0] == g[0] + w);
    } else {
        assert(r.drop_last() =~= g.drop_last());
        assert(r.last() == g.last() + w);
    }
}

/// The last character of words joined by spaces is that of the last word.
proof fn lemma_join_last(ws: Seq<Seq<char>>)
    requires
        all_words(ws),
        ws.len() > 0,
    ensures
        join_spaced(ws).len() > 0,
        !is_space_char(join_spaced(ws).last()),
{
    lemma_all_words_init(ws);
    let w = ws.last();
    assert(w[w.len() - 1] == w.last());
    if ws.len() == 1 {
        assert(ws[0] == w);
    } else {
        let s = join_spaced(ws);
        assert(s == join_spaced(ws.drop_last()) + seq![' '] + w);
        assert(s.last() == w.last());
    }
}

/// Removing the space before each `x` in words joined by spaces is gluing
/// them on `x`.
pub proof fn lemma_replaced_is_glued(ws: Seq<Seq<char>>, x: char)
    requires
        all_words(ws),
        !is_space_char(x),
    ensures
        replaced(join_spaced(ws), seq![' ', x], seq![x]) == join_spaced(glued(ws, x)),
    decreases ws.len(),
{
    let pat = seq![' ', x];
    let rep = seq![x];
    if ws.len() == 0 {
        assert(replaced(seq![], pat, rep) =~= seq![]);
    } else if ws.len() == 1 {
        let w = ws[0];
        assert(is_word(w));
        assert forall|j: int| 0 <= j < w.len() implies !occurs_at(w, pat, j) by {
            if occurs_at(w, pat, j) {
                assert(w.subrange(j, j + 2)[0] == w[j]);
            }
        }
        lemma_replaced_none(w, pat, rep, 0);
        assert(w.subrange(0, w.len() as int) =~= w);
    } else {
        let init = ws.drop_last();
        let w = ws.last();
        lemma_all_words_init(ws);
        lemma_replaced_is_glued(init, x);
        lemma_glued_words(init, x);
        lemma_join_last(init);
        let a = join_spaced(init);
        let b = seq![' '] + w;
        assert(join_spaced(ws) =~= a + b);
        assert forall|k: int| a.len() - pat.len() < k < a.len() implies !occurs_at(a + b, pat, k) by {
            if occurs_at(a + b, pat, k) {
                assert(k == a.len() - 1);
                assert((a + b).subrange(k, k + 2)[0] == (a + b)[k]);
                assert((a + b)[k] == a.last());
            }
        }
        lemma_replaced_concat(a, b, pat, rep, 0);
        assert forall|j: int| 1 <= j < b.len() implies !occurs_at(b, pat, j) by {
            if occurs_at(b, pat, j) {
                assert(b.subrange(j, j + 2)[0] == b[j]);
                assert(b[j] == w[j - 1]);
            }
        }
        lemma_replaced_none(b, pat, rep, 1);
        lemma_replaced_none(b, pat, rep, 2);
        let g = glued(init, x);
        if w[0] == x {
            assert(b.subrange(0, 2) =~= pat);
            assert(occurs_at(b, pat, 0));
            assert(replaced(b, pat, rep) == rep + b.subrange(2, b.len() as int));
            assert(rep + b.subrange(2, b.len() as int) =~= w);
            lemma_join_extend_last(g, w);
        } else {
            assert(!occurs_at(b, pat, 0)) by {
                if occurs_at(b, pat, 0) {
                    assert(b.subrange(0, 2)[1] == b[1]);
                }
            }
            assert(replaced(b, pat, rep) == seq![' '] + b.subrange(1, b.len() as int));
            assert(b.subrange(1, b.len() as int) =~= w);
            assert(g.push(w).drop_last() =~= g);
            if g.len() == 0 {
                assert(false);
            }
            assert(join_spaced(g.push(w)) == join_spaced(g) + seq![' '] + w);
        }
        assert(replaced(a + b, pat, rep) == replaced_from(a, pat, rep, 0) + replaced(b, pat, rep));
    }
}

/// Words joined by spaces hold no line feed.
pub proof fn lemma_join_no_line_feed(ws: Seq<Seq<char>>)
    requires
        all_words(ws),
    ensures
        forall|k: int| 0 <= k < join_spaced(ws).len() ==> join_spaced(ws)[k] != '\n',
    decreases ws.len(),
{
    if ws.len() > 0 {
        lemma_all_words_init(ws);
        let w = ws.last();
        assert forall|k: int| 0 <= k < w.len() implies w[k] != '\n' by {
            assert(!is_space_char(w[k]));
        }
        if ws.len() > 1 {
            lemma_join_no_line_feed(ws.drop_last());
            let a = join_spaced(ws.drop_last());
            let s = join_spaced(ws);
            assert forall|k: int| 0 <= k < s.len() implies s[k] != '\n' by {
                if k < a.len() {
                    assert(s[k] == a[k]);
                } else if k > a.len() {
                    assert(s[k] == w[k - a.len() - 1]);
                }
            }
        } else {
            assert(join_spaced(ws) == ws[0]);
        }
    }
}

/// Replacing a pattern that holds a line feed changes nothing in text that
/// holds none.
pub proof fn lemma_replaced_line_feed_free(s: Seq<char>, pat: Seq<char>, rep: Seq<char>, p: int)
    requires
        0 <= p < pat.len(),
        pat[p] == '\n',
        forall|k: int| 0 <= k < s.len() ==> s[k] != '\n',
    ensures
        replaced(s, pat, rep) == s,
{
    assert forall|j: int| 0 <= j < s.len() implies !occurs_at(s, pat, j) by {
        if occurs_at(s, pat, j) {
            assert(s.subrange(j, j + pat.len())[p] == s[j + p]);
        }
    }
    lemma_replaced_none(s, pat, rep, 0);
    assert(s.subrange(0, s.len() as int) =~= s);
}

} // verus!

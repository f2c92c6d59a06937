//! Rewrites spoken commands in a transcript ("comma", "new paragraph", ...)
//! into the punctuation and line breaks they stand for.

use vstd::prelude::*;
use crate::text::{
    all_words, glued, join_spaced, join_words, lemma_glued_leads, lemma_glued_nothing,
    lemma_glued_words, lemma_join_no_line_feed, lemma_replaced_is_glued,
    lemma_replaced_line_feed_free, lemma_tokens_are_words, lemma_tokens_of_joined, replace_str,
    replaced, same_text, split_tokens, string_from, texts, tokens,
};

verus! {

/// What `str::to_lowercase` makes of a string (full Unicode lower-casing).
pub uninterp spec fn lower_of(s: Seq<char>) -> Seq<char>;

/// Relies on `str::to_lowercase`: the result depends on the characters alone.
#[verifier::external_body]
fn lowercase(s: &str) -> (r: String)
    ensures
        r@ == lower_of(s@),
{
    s.to_lowercase()
}

/// The transcript after command rewriting, and the labels of the commands
/// that fired, in the order in which they occur.
#[derive(Debug, Clone)]
pub struct ParseResult {
    pub transformed_text: String,
    pub commands_applied: Vec<String>,
}

/// A command spoken as two tokens (already lower-cased): its label and what
/// it is replaced with.
pub open spec fn pair_command(a: Seq<char>, b: Seq<char>) -> Option<(Seq<char>, Seq<char>)> {
    if a == "new"@ && b == "line"@ {
        Some(("new line"@, "\n"@))
    } else if a == "new"@ && b == "paragraph"@ {
        Some(("new paragraph"@, "\n\n"@))
    } else if a == "question"@ && b == "mark"@ {
        Some(("question mark"@, "?"@))
    } else {
        None
    }
}

/// A command spoken as one token (already lower-cased): its label and what it
/// is replaced with.
pub open spec fn single_command(a: Seq<char>) -> Option<(Seq<char>, Seq<char>)> {
    if a == "comma"@ {
        Some(("comma"@, ","@))
    } else if a == "period"@ {
        Some(("period"@, "."@))
    } else if a == "newline"@ {
        Some(("newline"@, "\n"@))
    } else {
        None
    }
}

/// A two-token command starts at token `i`.
pub open spec fn pair_at(low: Seq<Seq<char>>, i: int) -> bool {
    0 <= i && i + 1 < low.len() && pair_command(low[i], low[i + 1]) is Some
}

/// The words that tokens `i..` become, `toks` being the tokens as spoken and
/// `low` the same tokens lower-cased. A two-token command is tried before a
/// one-token command; any other token is kept as it was spoken.
pub open spec fn words_from(toks: Seq<Seq<char>>, low: Seq<Seq<char>>, i: int) -> Seq<Seq<char>>
    decreases toks.len() - i,
{
    if i < 0 || i >= toks.len() {
        seq![]
    } else if i + 1 < toks.len() && pair_at(low, i) {
        seq![pair_command(low[i], low[i + 1]).unwrap().1] + words_from(toks, low, i + 2)
    } else if single_command(low[i]) is Some {
        seq![single_command(low[i]).unwrap().1] + words_from(toks, low, i + 1)
    } else {
        seq![toks[i]] + words_from(toks, low, i + 1)
    }
}

/// The labels of the commands that fire in tokens `i..`, in order.
pub open spec fn labels_from(toks: Seq<Seq<char>>, low: Seq<Seq<char>>, i: int) -> Seq<Seq<char>>
    decreases toks.len() - i,
{
    if i < 0 || i >= toks.len() {
        seq![]
    } else if i + 1 < toks.len() && pair_at(low, i) {
        seq![pair_command(low[i], low[i + 1]).unwrap().0] + labels_from(toks, low, i + 2)
    } else if single_command(low[i]) is Some {
        seq![single_command(low[i]).unwrap().0] + labels_from(toks, low, i + 1)
    } else {
        labels_from(toks, low, i + 1)
    }
}

/// The spacing clean-up after substitution: no space before `,` `.` `?`, and
/// none on either side of a line or paragraph break. The order matters.
pub open spec fn tidy(s: Seq<char>) -> Seq<char> {
    let s1 = replaced(s, " ,"@, ","@);
    let s2 = replaced(s1, " ."@, "."@);
    let s3 = replaced(s2, " ?"@, "?"@);
    let s4 = replaced(s3, " \n\n "@, "\n\n"@);
    let s5 = replaced(s4, " \n\n"@, "\n\n"@);
    let s6 = replaced(s5, "\n\n "@, "\n\n"@);
    let s7 = replaced(s6, " \n "@, "\n"@);
    let s8 = replaced(s7, " \n"@, "\n"@);
    replaced(s8, "\n "@, "\n"@)
}

/// The rewritten text for tokens `toks`, lower-cased as `low`.
pub open spec fn transformed(toks: Seq<Seq<char>>, low: Seq<Seq<char>>) -> Seq<char> {
    tidy(join_spaced(words_from(toks, low, 0)))
}

/// Each token lower-cased.
pub open spec fn lowered(toks: Seq<Seq<char>>) -> Seq<Seq<char>> {
    toks.map_values(|t: Seq<char>| lower_of(t))
}

/// The rewrite of text `t`: what `apply_basic_commands` makes of it.
pub open spec fn rewritten(t: Seq<char>) -> Seq<char> {
    transformed(tokens(t), lowered(tokens(t)))
}

/// No command fires in tokens that lower-case to `low`.
pub open spec fn no_command_fires(low: Seq<Seq<char>>) -> bool {
    forall|i: int| 0 <= i < low.len() ==> single_command(#[trigger] low[i]) is None && !pair_at(low, i)
}

proof fn lemma_words_unchanged(toks: Seq<Seq<char>>, low: Seq<Seq<char>>, i: int)
    requires
        toks.len() == low.len(),
        no_command_fires(low),
        0 <= i <= toks.len(),
    ensures
        words_from(toks, low, i) == toks.subrange(i, toks.len() as int),
    decreases toks.len() - i,
{
    if i < toks.len() {
        assert(single_command(low[i]) is None && !pair_at(low, i));
        lemma_words_unchanged(toks, low, i + 1);
        assert(seq![toks[i]] + toks.subrange(i + 1, toks.len() as int) =~= toks.subrange(
            i,
            toks.len() as int,
        ));
    } else {
        assert(toks.subrange(i, toks.len() as int) =~= seq![]);
    }
}

/// The spacing clean-up of words joined by spaces glues each word that
/// begins with `,`, `.` or `?` to the word before it, and does nothing else.
proof fn lemma_tidy_of_joined(ws: Seq<Seq<char>>)
    requires
        all_words(ws),
    ensures
        tidy(join_spaced(ws)) == join_spaced(glued(glued(glued(ws, ','), '.'), '?')),
{
    reveal_strlit(" ,");
    reveal_strlit(",");
    reveal_strlit(" .");
    reveal_strlit(".");
    reveal_strlit(" ?");
    reveal_strlit("?");
    reveal_strlit(" \n\n ");
    reveal_strlit(" \n\n");
    reveal_strlit("\n\n ");
    reveal_strlit("\n\n");
    reveal_strlit(" \n ");
    reveal_strlit(" \n");
    reveal_strlit("\n ");
    reveal_strlit("\n");
    assert(" ,"@ =~= seq![' ', ',']);
    assert(","@ =~= seq![',']);
    assert(" ."@ =~= seq![' ', '.']);
    assert("."@ =~= seq!['.']);
    assert(" ?"@ =~= seq![' ', '?']);
    assert("?"@ =~= seq!['?']);
    let g1 = glued(ws, ',');
    let g2 = glued(g1, '.');
    let g3 = glued(g2, '?');
    lemma_replaced_is_glued(ws, ',');
    lemma_glued_words(ws, ',');
    lemma_replaced_is_glued(g1, '.');
    lemma_glued_words(g1, '.');
    lemma_replaced_is_glued(g2, '?');
    lemma_glued_words(g2, '?');
    let s = join_spaced(g3);
    lemma_join_no_line_feed(g3);
    assert(" \n\n "@[1] == '\n');
    lemma_replaced_line_feed_free(s, " \n\n "@, "\n\n"@, 1);
    assert(" \n\n"@[1] == '\n');
    lemma_replaced_line_feed_free(s, " \n\n"@, "\n\n"@, 1);
    assert("\n\n "@[0] == '\n');
    lemma_replaced_line_feed_free(s, "\n\n "@, "\n\n"@, 0);
    assert(" \n "@[1] == '\n');
    lemma_replaced_line_feed_free(s, " \n "@, "\n"@, 1);
    assert(" \n"@[1] == '\n');
    lemma_replaced_line_feed_free(s, " \n"@, "\n"@, 1);
    assert("\n "@[0] == '\n');
    lemma_replaced_line_feed_free(s, "\n "@, "\n"@, 0);
}

/// Rewriting is idempotent once no command is left: when no command fires in
/// `t`, nor in its rewrite, rewriting the rewrite gives the rewrite back.
pub proof fn lemma_rewrite_idempotent(t: Seq<char>)
    requires
        no_command_fires(lowered(tokens(t))),
        no_command_fires(lowered(tokens(rewritten(t)))),
    ensures
        rewritten(rewritten(t)) == rewritten(t),
{
    let ts = tokens(t);
    lemma_tokens_are_words(t);
    lemma_words_unchanged(ts, lowered(ts), 0);
    assert(ts.subrange(0, ts.len() as int) =~= ts);
    lemma_tidy_of_joined(ts);
    let g1 = glued(ts, ',');
    let g2 = glued(g1, '.');
    let g = glued(g2, '?');
    lemma_glued_words(ts, ',');
    lemma_glued_words(g1, '.');
    lemma_glued_words(g2, '?');
    assert(rewritten(t) == join_spaced(g));
    lemma_tokens_of_joined(g);
    lemma_words_unchanged(g, lowered(g), 0);
    assert(g.subrange(0, g.len() as int) =~= g);
    lemma_tidy_of_joined(g);
    lemma_glued_leads(ts, ',', ',');
    lemma_glued_leads(g1, '.', ',');
    lemma_glued_leads(g2, '?', ',');
    lemma_glued_leads(g1, '.', '.');
    lemma_glued_leads(g2, '?', '.');
    lemma_glued_leads(g2, '?', '?');
    lemma_glued_nothing(g, ',');
    lemma_glued_nothing(g, '.');
    lemma_glued_nothing(g, '?');
}

fn tidy_text(s: &Vec<char>) -> (r: Vec<char>)
    ensures
        r@ == tidy(s@),
{
    proof {
        reveal_strlit(" ,");
        reveal_strlit(" .");
        reveal_strlit(" ?");
        reveal_strlit(" \n\n ");
        reveal_strlit(" \n\n");
        reveal_strlit("\n\n ");
        reveal_strlit(" \n ");
        reveal_strlit(" \n");
        reveal_strlit("\n ");
    }
    let s1 = replace_str(s, " ,", ",");
    let s2 = replace_str(&s1, " .", ".");
    let s3 = replace_str(&s2, " ?", "?");
    let s4 = replace_str(&s3, " \n\n ", "\n\n");
    let s5 = replace_str(&s4, " \n\n", "\n\n");
    let s6 = replace_str(&s5, "\n\n ", "\n\n");
    let s7 = replace_str(&s6, " \n ", "\n");
    let s8 = replace_str(&s7, " \n", "\n");
    replace_str(&s8, "\n ", "\n")
}

/// Rewrites the commands in `tokens`, where `lowered` holds the same tokens
/// lower-cased, and tidies the spacing around the punctuation produced.
pub fn apply_commands_to_tokens(tokens: &Vec<String>, lowered: &Vec<String>) -> (r: ParseResult)
    requires
        tokens@.len() == lowered@.len(),
    ensures
        r.transformed_text@ == transformed(texts(tokens@), texts(lowered@)),
        texts(r.commands_applied@) == labels_from(texts(tokens@), texts(lowered@), 0),
{
    let ghost toks = texts(tokens@);
    let ghost low = texts(lowered@);
    let mut words: Vec<String> = Vec::new();
    let mut labels: Vec<String> = Vec::new();
    let mut i: usize = 0;
    while i < tokens.len()
        invariant
            0 <= i <= tokens@.len(),
            tokens@.len() == lowered@.len(),
            toks == texts(tokens@),
            low == texts(lowered@),
            texts(words@) + words_from(toks, low, i as int) == words_from(toks, low, 0),
            texts(labels@) + labels_from(toks, low, i as int) == labels_from(toks, low, 0),
        decreases tokens@.len() - i,
    {
        let ghost w0 = words@;
        let ghost l0 = labels@;
        let tok = lowered[i].as_str();
        let has_next = i + 1 < lowered.len();
        let mut matched_pair = false;
        if has_next {
            let next = lowered[i + 1].as_str();
            if same_text(tok, "new") && same_text(next, "line") {
                words.push(String::from_str("\n"));
                labels.push(String::from_str("new line"));
                matched_pair = true;
            } else if same_text(tok, "new") && same_text(next, "paragraph") {
                words.push(String::from_str("\n\n"));
                labels.push(String::from_str("new paragraph"));
                matched_pair = true;
            } else if same_text(tok, "question") && same_text(next, "mark") {
                words.push(String::from_str("?"));
                labels.push(String::from_str("question mark"));
                matched_pair = true;
            }
        }
        if matched_pair {
            assert(texts(words@) =~= texts(w0) + seq![pair_command(low[i as int], low[i + 1]).unwrap().1]);
            assert(texts(labels@) =~= texts(l0) + seq![pair_command(low[i as int], low[i + 1]).unwrap().0]);
            i = i + 2;
        } else {
            assert(!pair_at(low, i as int));
            if same_text(tok, "comma") {
                words.push(String::from_str(","));
                labels.push(String::from_str("comma"));
                assert(texts(labels@) =~= texts(l0) + seq![single_command(low[i as int]).unwrap().0]);
            } else if same_text(tok, "period") {
                words.push(String::from_str("."));
                labels.push(String::from_str("period"));
                assert(texts(labels@) =~= texts(l0) + seq![single_command(low[i as int]).unwrap().0]);
            } else if same_text(tok, "newline") {
                words.push(String::from_str("\n"));
                labels.push(String::from_str("newline"));
                assert(texts(labels@) =~= texts(l0) + seq![single_command(low[i as int]).unwrap().0]);
            } else {
                words.push(tokens[i].clone());
                assert(texts(labels@) =~= texts(l0));
            }
            assert(texts(words@) =~= texts(w0) + seq![words_from(toks, low, i as int)[0]]);
            i = i + 1;
        }
    }
    assert(texts(words@) =~= words_from(toks, low, 0));
    assert(texts(labels@) =~= labels_from(toks, low, 0));
    let joined = join_words(&words);
    let tidied = tidy_text(&joined);
    ParseResult { transformed_text: string_from(&tidied), commands_applied: labels }
}

/// Rewrites the spoken commands in `input`, matching them without regard to
/// case, and tidies the spacing around the punctuation produced.
pub fn apply_basic_commands(input: &str) -> (r: ParseResult)
    ensures
        r.transformed_text@ == transformed(tokens(input@), lowered(tokens(input@))),
        texts(r.commands_applied@) == labels_from(tokens(input@), lowered(tokens(input@)), 0),
{
    let toks = split_tokens(input);
    let mut low: Vec<String> = Vec::new();
    let mut i: usize = 0;
    while i < toks.len()
        invariant
            0 <= i <= toks@.len(),
            texts(toks@) == tokens(input@),
            texts(low@) == lowered(texts(toks@)).take(i as int),
        decreases toks@.len() - i,
    {
        let l = lowercase(toks[i].as_str());
        let ghost prev = low@;
        low.push(l);
        assert(texts(low@) =~= texts(prev).push(l@));
        assert(texts(toks@)[i as int] == toks@[i as int]@);
        assert(lowered(texts(toks@))[i as int] == lower_of(toks@[i as int]@));
        assert(texts(low@) =~= lowered(texts(toks@)).take(i + 1));
        i = i + 1;
    }
    assert(texts(low@) =~= lowered(texts(toks@)));
    apply_commands_to_tokens(&toks, &low)
}

} // verus!

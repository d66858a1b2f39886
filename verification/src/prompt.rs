//! Prompt mutations for self-play refinement, and the text signals that the
//! heuristic prompt score is made of.
use vstd::prelude::*;
use crate::text::{
    is_word, lemma_join_sentences, lemma_sentences_have_no_sep, lemma_sentences_join,
    lemma_words_are_words, lemma_words_join, char_rows, chars_of, contains_char, contains_infix, extend_chars, has_char, has_infix, join,
    join_first, sentence_sep, sentences, split_sentences, split_words, string_of, words,
};

verus! {

/// Prompt engine errors.
#[derive(Debug)]
pub enum PromptError {
    Refinement(String),
    Evaluation(String),
    Generation(String),
}

/// The ways a prompt can be mutated.
#[derive(Debug, Clone, Copy, PartialEq, Eq, Structural)]
pub enum MutationType {
    /// Rephrase for clarity.
    Rephrase,
    /// Ask for more context.
    Expand,
    /// Drop the trailing fifth of the words.
    Compress,
    /// Reverse the order of the sentences.
    Reorder,
    /// Add explicit constraints.
    Constrain,
}

/// A prompt and one mutation of it.
#[derive(Debug, Clone)]
pub struct PromptVariant {
    pub original: String,
    pub mutated: String,
    pub mutation_type: MutationType,
}

pub open spec fn rephrase_prefix() -> Seq<char> {
    "Clearly explain: "@
}

pub open spec fn expand_suffix() -> Seq<char> {
    "\nProvide detailed reasoning and examples."@
}

pub open spec fn constrain_suffix() -> Seq<char> {
    "\nConstraints: be precise, avoid ambiguity, max 3 sentences."@
}

/// How many of `n` words compression keeps: ⌈0.8·n⌉.
pub open spec fn compress_keep(n: nat) -> nat {
    (4 * n + 4) / 5
}

/// The text of a prompt after a mutation.
pub open spec fn mutated_text(text: Seq<char>, mutation: MutationType) -> Seq<char> {
    match mutation {
        MutationType::Rephrase => rephrase_prefix() + text,
        MutationType::Expand => text + expand_suffix(),
        MutationType::Compress => {
            let ws = words(text);
            join(ws.take(compress_keep(ws.len()) as int), seq![' '])
        },
        MutationType::Reorder => {
            let ss = sentences(text);
            if ss.len() > 1 {
                join(ss.reverse(), sentence_sep())
            } else {
                text
            }
        },
        MutationType::Constrain => text + constrain_suffix(),
    }
}

proof fn lemma_reverse_prepend<A>(s: Seq<A>, a: A)
    ensures
        (seq![a] + s).reverse() =~= s.reverse().push(a),
{
    let t = seq![a] + s;
    assert forall|j: int| 0 <= j < t.len() implies #[trigger] t.reverse()[j] == s.reverse().push(
        a,
    )[j] by {
        if j < s.len() {
            assert(t[t.len() - 1 - j] == s[s.len() - 1 - j]);
        }
    }
}

/// Reverses a vector by moving its elements out from the back.
fn reverse_rows(v: Vec<Vec<char>>) -> (r: Vec<Vec<char>>)
    ensures
        char_rows(r@) == char_rows(v@).reverse(),
{
    let ghost orig = v@;
    let mut v = v;
    let mut r: Vec<Vec<char>> = Vec::new();
    while v.len() > 0
        invariant
            v@ == orig.take(v@.len() as int),
            v@.len() <= orig.len(),
            char_rows(r@) == char_rows(orig.subrange(v@.len() as int, orig.len() as int)).reverse(),
        decreases v@.len(),
    {
        let ghost k = v@.len() as int;
        let ghost before = r@;
        let x = v.pop().unwrap();
        r.push(x);
        assert(v@ =~= orig.take(k - 1));
        proof {
            let tail = char_rows(orig.subrange(k, orig.len() as int));
            assert(char_rows(orig.subrange(k - 1, orig.len() as int)) =~= seq![x@] + tail);
            lemma_reverse_prepend(tail, x@);
            assert(char_rows(r@) =~= char_rows(before).push(x@));
        }
    }
    assert(orig.subrange(0, orig.len() as int) =~= orig);
    r
}

/// Applies a textual mutation (a heuristic, no model involved).
pub fn mutate_prompt(text: &str, mutation: MutationType) -> (v: PromptVariant)
    ensures
        v.original@ == text@,
        v.mutated@ == mutated_text(text@, mutation),
        v.mutation_type == mutation,
{
    let cs = chars_of(text);
    let mutated: Vec<char> = match mutation {
        MutationType::Rephrase => {
            let mut out = chars_of("Clearly explain: ");
            extend_chars(&mut out, &cs);
            out
        },
        MutationType::Expand => {
            let mut out = cs;
            let tail = chars_of("\nProvide detailed reasoning and examples.");
            extend_chars(&mut out, &tail);
            out
        },
        MutationType::Compress => {
            let ws = split_words(&cs);
            let n = ws.len();
            proof {
                assert(char_rows(ws@).len() == n);
            }
            let keep = n - n / 5;
            assert(n == words(text@).len());
            assert((4 * n + 4) / 5 == n - n / 5) by (nonlinear_arith);
            let sep = chars_of(" ");
            proof {
                reveal_strlit(" ");
                assert(sep@ =~= seq![' ']);
            }
            join_first(&ws, keep, &sep)
        },
        MutationType::Reorder => {
            let ss = split_sentences(&cs);
            if ss.len() > 1 {
                let rev = reverse_rows(ss);
                assert(char_rows(rev@).take(rev@.len() as int) =~= char_rows(rev@));
                let sep = chars_of(". ");
                proof {
                    reveal_strlit(". ");
                    assert(sep@ =~= sentence_sep());
                }
                join_first(&rev, rev.len(), &sep)
            } else {
                cs
            }
        },
        MutationType::Constrain => {
            let mut out = cs;
            let tail = chars_of("\nConstraints: be precise, avoid ambiguity, max 3 sentences.");
            extend_chars(&mut out, &tail);
            out
        },
    };
    PromptVariant {
        original: String::from_str(text),
        mutated: string_of(&mutated),
        mutation_type: mutation,
    }
}

/// The measurable features of a prompt that its heuristic score is built
/// from.
#[derive(Debug, Clone, Copy, PartialEq, Eq, Structural)]
pub struct PromptSignals {
    /// Number of whitespace-separated words.
    pub word_count: usize,
    /// Number of `". "` separators plus one.
    pub sentence_count: usize,
    /// The prompt holds a `:`.
    pub has_colon: bool,
    /// The prompt holds the word `explain` (case-sensitive).
    pub mentions_explain: bool,
}

pub open spec fn signals_of(text: Seq<char>) -> PromptSignals {
    PromptSignals {
        word_count: words(text).len() as usize,
        sentence_count: sentences(text).len() as usize,
        has_colon: has_char(text, ':'),
        mentions_explain: has_infix(text, "explain"@),
    }
}

impl PromptSignals {
    /// Clarity is rated high for prompts of 6 to 199 words.
    pub fn clear_length(&self) -> (b: bool)
        ensures
            b == (5 < self.word_count < 200),
    {
        self.word_count > 5 && self.word_count < 200
    }

    /// Specificity is rated high when the prompt has a `:` or asks to explain.
    pub fn specific(&self) -> (b: bool)
        ensures
            b == (self.has_colon || self.mentions_explain),
    {
        self.has_colon || self.mentions_explain
    }

    /// Conciseness is rated high under 50 words.
    pub fn concise(&self) -> (b: bool)
        ensures
            b == (self.word_count < 50),
    {
        self.word_count < 50
    }

    /// Completeness is rated high from two sentences on.
    pub fn complete(&self) -> (b: bool)
        ensures
            b == (self.sentence_count >= 2),
    {
        self.sentence_count >= 2
    }
}

/// The signals of a prompt's text.
pub fn prompt_signals(text: &str) -> (s: PromptSignals)
    ensures
        s == signals_of(text@),
{
    let cs = chars_of(text);
    let ws = split_words(&cs);
    let ss = split_sentences(&cs);
    let explain = chars_of("explain");
    proof {
        assert(char_rows(ws@).len() == ws@.len());
        assert(char_rows(ss@).len() == ss@.len());
    }
    PromptSignals {
        word_count: ws.len(),
        sentence_count: ss.len(),
        has_colon: contains_char(&cs, ':'),
        mentions_explain: contains_infix(&cs, &explain),
    }
}

/// Reordering a prompt twice gives the prompt back: the sentences are
/// reversed and reversed again.
pub proof fn law_reorder_twice_restores(text: Seq<char>)
    ensures
        mutated_text(mutated_text(text, MutationType::Reorder), MutationType::Reorder) == text,
{
    let ps = sentences(text);
    if ps.len() > 1 {
        let r = ps.reverse();
        lemma_sentences_have_no_sep(text);
        assert forall|i: int| 0 <= i < r.len() implies !has_infix(#[trigger] r[i], sentence_sep()) by {
            assert(r[i] == ps[ps.len() - 1 - i]);
        }
        lemma_sentences_join(r);
        assert(r.reverse() =~= ps);
        lemma_join_sentences(text);
    }
}

/// Compressing a prompt keeps exactly its first ⌈0.8·n⌉ words, so it
/// never has more words than the prompt.
pub proof fn law_compress_keeps_leading_words(text: Seq<char>)
    ensures
        words(mutated_text(text, MutationType::Compress)) == words(text).take(
            compress_keep(words(text).len()) as int,
        ),
        words(mutated_text(text, MutationType::Compress)).len() <= words(text).len(),
{
    let ws = words(text);
    let k = compress_keep(ws.len());
    assert(k <= ws.len());
    lemma_words_are_words(text);
    let kept = ws.take(k as int);
    assert forall|i: int| 0 <= i < kept.len() implies is_word(#[trigger] kept[i]) by {
        assert(kept[i] == ws[i]);
    }
    lemma_words_join(kept);
}

/// A prompt made of sentences that hold no `". "` separator, joined by
/// `". "`, counts exactly as many sentences as it was made of: only the
/// `". "` separators end sentences, not a `.` by itself.
pub proof fn law_sentence_count_is_separators_plus_one(ps: Seq<Seq<char>>)
    requires
        1 <= ps.len() <= usize::MAX,
        forall|i: int| 0 <= i < ps.len() ==> !has_infix(#[trigger] ps[i], seq!['.', ' ']),
    ensures
        signals_of(join(ps, seq!['.', ' '])).sentence_count == ps.len(),
{
    assert(sentence_sep() =~= seq!['.', ' ']);
    lemma_sentences_join(ps);
}

/// A prompt without a `". "` separator is one sentence, whatever `.` it
/// holds elsewhere.
pub proof fn law_text_without_separator_is_one_sentence(text: Seq<char>)
    requires
        !has_infix(text, seq!['.', ' ']),
    ensures
        signals_of(text).sentence_count == 1,
{
    let ps = seq![text];
    assert(join(ps, seq!['.', ' ']) == text);
    law_sentence_count_is_separators_plus_one(ps);
}

/// The colon signal is whether the prompt holds the character `:`
/// anywhere, and the explain signal whether it holds `explain` anywhere.
pub proof fn law_colon_and_explain_signals(text: Seq<char>)
    ensures
        signals_of(text).has_colon <==> exists|i: int| 0 <= i < text.len() && text[i] == ':',
        signals_of(text).mentions_explain <==> exists|i: int|
            0 <= i && i + 7 <= text.len() && #[trigger] text.subrange(i, i + 7) == "explain"@,
{
    reveal_strlit("explain");
    assert("explain"@.len() == 7);
}

/// Reordering reverses the whole list of sentences: a prompt made of two or
/// more sentences without `". "`, joined by `". "`, becomes the same
/// sentences in reverse order, joined the same way; a prompt of one sentence
/// stays as it is.
pub proof fn law_reorder_reverses_sentences(ps: Seq<Seq<char>>)
    requires
        ps.len() >= 1,
        forall|i: int| 0 <= i < ps.len() ==> !has_infix(#[trigger] ps[i], seq!['.', ' ']),
    ensures
        ps.len() >= 2 ==> mutated_text(join(ps, seq!['.', ' ']), MutationType::Reorder) == join(
            ps.reverse(),
            seq!['.', ' '],
        ),
        ps.len() >= 2 ==> sentences(mutated_text(join(ps, seq!['.', ' ']), MutationType::Reorder))
            == ps.reverse(),
        ps.len() == 1 ==> mutated_text(join(ps, seq!['.', ' ']), MutationType::Reorder) == ps[0],
{
    assert(sentence_sep() =~= seq!['.', ' ']);
    lemma_sentences_join(ps);
    let r = ps.reverse();
    assert forall|i: int| 0 <= i < r.len() implies !has_infix(#[trigger] r[i], sentence_sep()) by {
        assert(r[i] == ps[ps.len() - 1 - i]);
    }
    lemma_sentences_join(r);
}

} // verus!

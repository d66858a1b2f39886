use apophy::prompt::{mutate_prompt, prompt_signals, MutationType};

fn word_count(s: &str) -> usize {
    s.split_whitespace().count()
}

#[test]
fn mutation_rephrase() {
    let variant = mutate_prompt("test prompt", MutationType::Rephrase);
    assert!(variant.mutated.contains("Clearly explain"));
    assert_eq!(variant.mutation_type, MutationType::Rephrase);
}

#[test]
fn mutation_compress() {
    let long = "word ".repeat(20);
    let variant = mutate_prompt(&long, MutationType::Compress);
    let original_words = long.split_whitespace().count();
    let mutated_words = variant.mutated.split_whitespace().count();
    assert!(mutated_words <= original_words);
}

#[test]
fn mutation_expand() {
    let variant = mutate_prompt("test", MutationType::Expand);
    assert!(variant.mutated.contains("detailed reasoning"));
}

#[test]
fn mutation_constrain() {
    let variant = mutate_prompt("test", MutationType::Constrain);
    assert!(variant.mutated.contains("Constraints"));
}

#[test]
fn mutations_exact_texts() {
    assert_eq!(mutate_prompt("test prompt", MutationType::Rephrase).mutated, "Clearly explain: test prompt");
    assert_eq!(
        mutate_prompt("test", MutationType::Expand).mutated,
        "test\nProvide detailed reasoning and examples."
    );
    assert_eq!(
        mutate_prompt("test", MutationType::Constrain).mutated,
        "test\nConstraints: be precise, avoid ambiguity, max 3 sentences."
    );
    let v = mutate_prompt("keep me", MutationType::Expand);
    assert_eq!(v.original, "keep me");
    assert_eq!(v.mutation_type, MutationType::Expand);
}

#[test]
fn compress_keeps_ceiling_of_four_fifths() {
    let twenty = "word ".repeat(20);
    assert_eq!(word_count(&mutate_prompt(&twenty, MutationType::Compress).mutated), 16);
    assert_eq!(mutate_prompt("a b c", MutationType::Compress).mutated, "a b c");
    assert_eq!(mutate_prompt("a  b\tc d e f", MutationType::Compress).mutated, "a b c d e");
    assert_eq!(mutate_prompt("   ", MutationType::Compress).mutated, "");
    assert_eq!(mutate_prompt("one", MutationType::Compress).mutated, "one");
}

#[test]
fn reorder_reverses_sentences() {
    assert_eq!(mutate_prompt("A. B. C", MutationType::Reorder).mutated, "C. B. A");
    assert_eq!(mutate_prompt("single sentence.", MutationType::Reorder).mutated, "single sentence.");
    assert_eq!(mutate_prompt("x.. y", MutationType::Reorder).mutated, "y. x.");
}

#[test]
fn reorder_twice_restores() {
    for text in ["A. B. C", "first. second", "a. . b", "p.. q.  r", "no split"] {
        let once = mutate_prompt(text, MutationType::Reorder).mutated;
        let twice = mutate_prompt(&once, MutationType::Reorder).mutated;
        assert_eq!(twice, text);
    }
}

#[test]
fn signals_of_prompt() {
    let s = prompt_signals("Explain the concept of: topological data analysis");
    assert_eq!(s.word_count, 7);
    assert_eq!(s.sentence_count, 1);
    assert!(s.has_colon);
    assert!(!s.mentions_explain);
    assert!(s.clear_length());
    assert!(s.specific());
    assert!(s.concise());
    assert!(!s.complete());

    let t = prompt_signals("please explain it. then stop. ");
    assert_eq!(t.sentence_count, 3);
    assert!(t.mentions_explain);
    assert!(!t.has_colon);
    assert!(t.complete());
}

use openspeak::command_parser::{apply_basic_commands, apply_commands_to_tokens};

fn strings(v: &[&str]) -> Vec<String> {
    v.iter().map(|s| s.to_string()).collect()
}

#[test]
fn applies_punctuation_and_newline() {
    let out = apply_basic_commands("hello comma world newline next line period");
    assert_eq!(out.transformed_text, "hello, world\nnext line.");
    assert_eq!(out.commands_applied.len(), 3);
}

#[test]
fn handles_multiword_commands() {
    let out = apply_basic_commands("what time is it question mark new paragraph next");
    assert_eq!(out.transformed_text, "what time is it?\n\nnext");
    assert_eq!(out.commands_applied.len(), 2);
}

#[test]
fn labels_come_in_spoken_order() {
    let out = apply_basic_commands("hello comma world newline next line period");
    assert_eq!(out.commands_applied, strings(&["comma", "newline", "period"]));
    let out = apply_basic_commands("what time is it question mark new paragraph next");
    assert_eq!(out.commands_applied, strings(&["question mark", "new paragraph"]));
}

#[test]
fn commands_match_without_regard_to_case() {
    let out = apply_basic_commands("Yes COMMA New Line Period");
    assert_eq!(out.transformed_text, "Yes,\n.");
    assert_eq!(out.commands_applied, strings(&["comma", "new line", "period"]));
}

#[test]
fn two_token_command_wins_over_one_token() {
    let out = apply_basic_commands("new line");
    assert_eq!(out.transformed_text, "\n");
    assert_eq!(out.commands_applied, strings(&["new line"]));
    let out = apply_basic_commands("brand new");
    assert_eq!(out.transformed_text, "brand new");
    assert!(out.commands_applied.is_empty());
}

#[test]
fn unmatched_tokens_pass_through_and_spacing_collapses() {
    let out = apply_basic_commands("  Hello\t\tthere   World ");
    assert_eq!(out.transformed_text, "Hello there World");
    assert!(out.commands_applied.is_empty());
}

#[test]
fn empty_input_gives_empty_text() {
    let out = apply_basic_commands("");
    assert_eq!(out.transformed_text, "");
    assert!(out.commands_applied.is_empty());
}

#[test]
fn paragraph_break_spacing_is_removed_on_both_sides() {
    let out = apply_basic_commands("one new paragraph two newline three");
    assert_eq!(out.transformed_text, "one\n\ntwo\nthree");
}

#[test]
fn rewriting_twice_gives_the_same_text() {
    let first = apply_basic_commands("alpha , beta . gamma ? delta");
    assert_eq!(first.transformed_text, "alpha, beta. gamma? delta");
    let second = apply_basic_commands(&first.transformed_text);
    assert_eq!(second.transformed_text, first.transformed_text);
    let third = apply_basic_commands(&second.transformed_text);
    assert_eq!(third.transformed_text, second.transformed_text);
}

#[test]
fn tokens_with_their_lowercase_forms() {
    let toks = strings(&["Hi", "QUESTION", "Mark"]);
    let low = strings(&["hi", "question", "mark"]);
    let out = apply_commands_to_tokens(&toks, &low);
    assert_eq!(out.transformed_text, "Hi?");
    assert_eq!(out.commands_applied, strings(&["question mark"]));
    // the spoken form is kept for words that are no command
    let toks = strings(&["Hi", "there"]);
    let low = strings(&["xx", "yy"]);
    let out = apply_commands_to_tokens(&toks, &low);
    assert_eq!(out.transformed_text, "Hi there");
}

use rsdctl::tokenizer::{tokenize, Token};

fn texts(tokens: &[Token]) -> Vec<String> {
    tokens.iter().map(|t| t.get_str().clone()).collect()
}

fn concat(tokens: &[Token]) -> String {
    let mut out = String::new();
    for t in tokens {
        out.push_str(t.get_str().as_str());
    }
    out
}

#[test]
fn round_trip_reproduces_input() {
    let input = "Rust is fast, and -- really! -- memory-safe.";
    let tokens = tokenize(input);
    assert_eq!(concat(&tokens), input);
}

#[test]
fn round_trip_with_unicode() {
    let input = "  café £5 …naïve\t";
    let tokens = tokenize(input);
    assert_eq!(concat(&tokens), input);
}

#[test]
fn adjacent_tokens_alternate() {
    let tokens = tokenize("one two,three !! four5 six");
    for pair in tokens.windows(2) {
        assert_ne!(pair[0].is_word(), pair[1].is_word());
    }
}

#[test]
fn empty_input_yields_no_tokens() {
    assert_eq!(tokenize("").len(), 0);
}

#[test]
fn words_and_nonwords_split() {
    let tokens = tokenize("a b");
    assert_eq!(texts(&tokens), ["a", " ", "b"]);
    assert!(tokens[0].is_word());
    assert!(!tokens[1].is_word());
    assert!(tokens[2].is_word());
}

#[test]
fn digits_and_letters_are_word_constituents() {
    let tokens = tokenize("é42x-7");
    assert_eq!(texts(&tokens), ["é42x", "-", "7"]);
    assert!(tokens[0].is_word());
    assert!(!tokens[1].is_word());
    assert!(tokens[2].is_word());
}

#[test]
fn token_text_is_never_empty() {
    for input in ["", " ", "a", " a ", "!!word!!", "a b c"] {
        for t in tokenize(input) {
            assert!(t.char_count() > 0);
        }
    }
}

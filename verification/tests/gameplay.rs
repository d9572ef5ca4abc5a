use rsdctl::article::{Section, WikiArticle};
use rsdctl::game::{count_word_in_sections, count_word_in_tokens, Game, TokenTreatment};
use rsdctl::tokenizer::{tokenize, Token};

fn loaded(title: &str, content: &str) -> Game {
    let mut g = Game::new();
    g.load_article(title, content);
    g
}

/// The first body token whose text equals `text`, walking paragraphs and
/// headings at the top level.
fn find_body_token(g: &Game, text: &str) -> Token {
    let article = g.wiki_article.as_ref().expect("no article loaded");
    for section in &article.content {
        let tokens = match section {
            Section::Heading(_, ts) => ts,
            Section::Paragraph(ts) => ts,
            _ => continue,
        };
        for t in tokens {
            if t.get_str() == text {
                return match t {
                    Token::Word(s) => Token::Word(s.clone()),
                    Token::NonWord(s) => Token::NonWord(s.clone()),
                };
            }
        }
    }
    panic!("token {:?} not found", text);
}

#[test]
fn new_game_is_empty() {
    let g = Game::new();
    assert!(g.wiki_article.is_none());
    assert!(g.guesses.is_empty());
    assert!(g.selected_guess.is_none());
    assert_eq!(g.count_word_in_article("anything"), None);
    assert!(!g.title_complete());
}

#[test]
fn loading_replaces_state() {
    let mut g = loaded("First", "one two");
    g.guess("one");
    g.toggle_selection("one");
    g.load_article("Second", "three");
    assert!(g.wiki_article.is_some());
    assert!(g.guesses.is_empty());
    assert!(g.selected_guess.is_none());
}

#[test]
fn guess_registration_is_idempotent() {
    let mut g = loaded("Title", "body");
    g.guess("word");
    assert_eq!(g.guesses.len(), 1);
    g.guess("word");
    assert_eq!(g.guesses.len(), 1);
    g.guess(" WORD ");
    assert_eq!(g.guesses.len(), 1);
}

#[test]
fn empty_guess_is_ignored() {
    let mut g = loaded("Title", "body");
    g.guess("   ");
    g.guess("");
    assert!(g.guesses.is_empty());
}

#[test]
fn guesses_are_normalized() {
    let mut g = loaded("Title", "body");
    g.guess("  RuSt\t");
    assert_eq!(g.guesses[0], "rust");
}

#[test]
fn toggle_selection_is_symmetric() {
    let mut g = loaded("Title", "body");
    assert!(g.selected_guess.is_none());
    g.toggle_selection("Rust");
    assert_eq!(g.selected_guess.as_deref(), Some("rust"));
    g.toggle_selection("Rust");
    assert!(g.selected_guess.is_none());
}

#[test]
fn toggle_selection_switches() {
    let mut g = loaded("Title", "body");
    g.toggle_selection("one");
    g.toggle_selection("two");
    assert_eq!(g.selected_guess.as_deref(), Some("two"));
}

#[test]
fn case_insensitive_matching_reveals() {
    let mut g = loaded("Title", "rust is RUST");
    let lower = find_body_token(&g, "rust");
    let upper = find_body_token(&g, "RUST");
    assert_eq!(g.get_token_treatment(&lower), TokenTreatment::Blank);
    assert_eq!(g.get_token_treatment(&upper), TokenTreatment::Blank);
    g.guess("Rust");
    assert_eq!(g.get_token_treatment(&lower), TokenTreatment::Show);
    assert_eq!(g.get_token_treatment(&upper), TokenTreatment::Show);
}

#[test]
fn trimmed_guess_reveals() {
    let mut g = loaded("Title", "rust");
    let token = find_body_token(&g, "rust");
    g.guess("  rust  ");
    assert_eq!(g.get_token_treatment(&token), TokenTreatment::Show);
}

#[test]
fn nonword_tokens_always_show() {
    let g = loaded("Title", "a, b");
    let comma = find_body_token(&g, ", ");
    assert_eq!(g.get_token_treatment(&comma), TokenTreatment::Show);
}

#[test]
fn selected_guess_highlights() {
    let mut g = loaded("Title", "alpha beta");
    let alpha = find_body_token(&g, "alpha");
    g.guess("alpha");
    g.toggle_selection("Alpha");
    assert_eq!(g.get_token_treatment(&alpha), TokenTreatment::Highlight);
    g.toggle_selection("Alpha");
    assert_eq!(g.get_token_treatment(&alpha), TokenTreatment::Show);
}

#[test]
fn title_completion_unlocks_whole_document() {
    let mut g = loaded("Rust lang", "hidden words here");
    let hidden = find_body_token(&g, "hidden");
    g.guess("rust");
    assert!(!g.title_complete());
    assert_eq!(g.get_token_treatment(&hidden), TokenTreatment::Blank);
    g.guess("LANG");
    assert!(g.title_complete());
    assert_eq!(g.get_token_treatment(&hidden), TokenTreatment::Show);
    let words = find_body_token(&g, "words");
    assert_eq!(g.get_token_treatment(&words), TokenTreatment::Show);
}

#[test]
fn occurrence_counting() {
    let g = loaded("Rust", "Rust is fast");
    assert_eq!(g.count_word_in_article("rust"), Some(2));
    assert_eq!(g.count_word_in_article("slow"), Some(0));
    assert_eq!(g.count_word_in_article("FAST"), Some(1));
}

#[test]
fn nested_list_traversal_counts() {
    let inner = Section::Paragraph(tokenize("fox"));
    let item = vec![inner];
    let article = WikiArticle { title: Vec::new(), content: vec![Section::UnorderedList(vec![item])] };
    let mut g = Game::new();
    g.load(article);
    assert_eq!(g.count_word_in_article("fox"), Some(1));
}

#[test]
fn deeply_nested_count() {
    let leaf = Section::Paragraph(tokenize("needle and needle"));
    let inner_list = Section::OrderedList(vec![vec![leaf]]);
    let outer = Section::UnorderedList(vec![vec![Section::Heading(2, tokenize("needle")), inner_list]]);
    let article = WikiArticle { title: tokenize("needle"), content: vec![outer] };
    let mut g = Game::new();
    g.load(article);
    assert_eq!(g.count_word_in_article("needle"), Some(4));
}

#[test]
fn counting_in_token_lists() {
    let tokens = tokenize("Dog dog DOG dogs");
    assert_eq!(count_word_in_tokens("dog", &tokens), 3);
    assert_eq!(count_word_in_tokens("dogs", &tokens), 1);
    assert_eq!(count_word_in_tokens("cat", &tokens), 0);
}

#[test]
fn counting_in_section_lists() {
    let sections = vec![
        Section::Paragraph(tokenize("a b a")),
        Section::Heading(1, tokenize("a")),
        Section::UnorderedList(vec![vec![Section::Paragraph(tokenize("b a"))]]),
    ];
    assert_eq!(count_word_in_sections("a", &sections), 4);
    assert_eq!(count_word_in_sections("b", &sections), 2);
}

#[test]
fn empty_document_behaviour() {
    let mut g = Game::new();
    g.load(WikiArticle { title: Vec::new(), content: Vec::new() });
    assert_eq!(g.count_word_in_article("anything"), Some(0));
    assert!(g.title_complete());
}

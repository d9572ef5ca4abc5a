//! The game state engine: the loaded article (if any), the set of normalized
//! guesses, and the currently selected guess, together with the queries that
//! drive rendering — per-token treatment, title completion, and occurrence
//! counts.

use vstd::prelude::*;

use crate::article::{
    count_in_article, count_in_items, count_in_section, count_in_sections, count_in_tokens,
    lemma_count_in_tokens_le, Section, WikiArticle,
};
use crate::norm::{lower_of, norm_of, normalize, to_lower, trim_str};
use crate::tokenizer::{views_of, Token};

verus! {

/// The visibility decision for one token under the current guesses and
/// selection.
#[derive(Debug, Clone, Copy, PartialEq, Eq, Structural)]
pub enum TokenTreatment {
    Blank,
    Show,
    Highlight,
}

/// The game state: the loaded article (if any), the guesses made so far in
/// normal form, and the currently selected guess.  The state starts empty;
/// loading an article replaces it wholesale and clears guesses and selection.
pub struct Game {
    pub wiki_article: Option<WikiArticle>,
    pub guesses: Vec<String>,
    pub selected_guess: Option<String>,
}

/// The selection toggle: selecting the current selection again clears it,
/// anything else becomes the new selection.
pub open spec fn toggle_spec(sel: Option<Seq<char>>, n: Seq<char>) -> Option<Seq<char>> {
    if sel == Some(n) {
        None
    } else {
        Some(n)
    }
}

/// A count clamped to what a `usize` can hold.
pub open spec fn clamped(c: nat) -> nat {
    if c > usize::MAX {
        usize::MAX as nat
    } else {
        c
    }
}

impl Game {
    /// Whether `w` is among the guesses made so far.
    pub open spec fn has_guess(&self, w: Seq<char>) -> bool {
        exists|i: int| 0 <= i < self.guesses@.len() && #[trigger] self.guesses@[i]@ == w
    }

    /// The guesses as a set of character sequences: membership is all that
    /// matters, insertion order does not.
    pub open spec fn guess_set(&self) -> Set<Seq<char>> {
        Set::new(|w: Seq<char>| self.has_guess(w))
    }

    /// The current selection, as a character sequence.
    pub open spec fn sel(&self) -> Option<Seq<char>> {
        match self.selected_guess {
            Some(s) => Some(s@),
            None => None,
        }
    }

    /// Title completion: an article is loaded and every `Word` token of its
    /// title has been guessed (in lowercased form).  Vacuously true for a
    /// title without word tokens.
    pub open spec fn spec_title_complete(&self) -> bool {
        match self.wiki_article {
            None => false,
            Some(a) => forall|i: int|
                0 <= i < a.title@.len() && (#[trigger] a.title@[i])@.word ==> self.has_guess(
                    lower_of(a.title@[i]@.text),
                ),
        }
    }

    /// The treatment of one token: non-word tokens are always shown; a word
    /// token is highlighted when it matches the selection, shown when it was
    /// guessed or the title is complete, and blank otherwise.
    pub open spec fn spec_treatment(&self, t: Token) -> TokenTreatment {
        if !t@.word {
            TokenTreatment::Show
        } else if self.sel() == Some(lower_of(t@.text)) {
            TokenTreatment::Highlight
        } else if self.has_guess(lower_of(t@.text)) || self.spec_title_complete() {
            TokenTreatment::Show
        } else {
            TokenTreatment::Blank
        }
    }

    /// A fresh game: no article, no guesses, no selection.
    pub fn new() -> (g: Game)
        ensures
            g.wiki_article is None,
            g.guesses@.len() == 0,
            g.selected_guess is None,
    {
        Game { wiki_article: None, guesses: Vec::new(), selected_guess: None }
    }

    /// Replaces the loaded article wholesale, clearing all guesses and the
    /// selection.
    pub fn load(&mut self, article: WikiArticle)
        ensures
            final (self).wiki_article == Some(article),
            final (self).guesses@.len() == 0,
            final (self).selected_guess is None,
    {
        self.wiki_article = Some(article);
        self.guesses = Vec::new();
        self.selected_guess = None;
    }

    /// Parses fetched article data and loads it, replacing any previous
    /// state.  `title` and `content` are the canonical title and the raw
    /// body markup that the article source handed back.
    pub fn load_article(&mut self, title: &str, content: &str)
        ensures
            final (self).wiki_article matches Some(a) && {
                &&& views_of(a.title@) == crate::tokenizer::tokenize_spec(title@)
                &&& crate::article::wf_article(a)
                &&& content@.len() == 0 ==> a.content@.len() == 0
                &&& crate::parser::plain_prose(content@) ==> a.content@.len() == 1 && (a.content@[0]
                    matches Section::Paragraph(ts) && views_of(ts@)
                    == crate::tokenizer::tokenize_spec(content@))
                &&& crate::parser::heading_line(content@) ==> a.content@.len() == 1 && (
                a.content@[0] matches Section::Heading(level, _ts) && level as nat
                    == crate::parser::clamp_level(crate::parser::eq_run(content@)))
                &&& crate::parser::list_line_input(content@) ==> a.content@.len() == 1 && (
                content@[0] == '*' ==> (a.content@[0] matches Section::UnorderedList(items)
                    && items@.len() == 1)) && (content@[0] == '#' ==> (a.content@[0]
                    matches Section::OrderedList(items) && items@.len() == 1))
            },
            final (self).guesses@.len() == 0,
            final (self).selected_guess is None,
    {
        let article = crate::parser::parse(title, content);
        self.load(article);
    }

    /// Registers a guess: the raw input is normalized (trimmed and
    /// lowercased) and added to the guess set.  Registering a guess again has
    /// no further effect, and input that is empty after trimming is ignored.
    pub fn guess(&mut self, raw_guess: &str)
        ensures
            final (self).wiki_article == old(self).wiki_article,
            final (self).selected_guess == old(self).selected_guess,
            forall|w: Seq<char>|
                final (self).has_guess(w) <==> (old(self).has_guess(w) || (norm_of(
                    raw_guess@,
                ).len() > 0 && w == norm_of(raw_guess@))),
            norm_of(raw_guess@).len() > 0 ==> final (self).guess_set() == old(
                self,
            ).guess_set().insert(norm_of(raw_guess@)),
            norm_of(raw_guess@).len() == 0 ==> final (self).guesses@ == old(self).guesses@,
    {
        let n = normalize(raw_guess);
        if n.as_str().unicode_len() == 0 {
            return;
        }
        if !contains_str(&self.guesses, &n) {
            self.guesses.push(n);
        }
        proof {
            assert forall|w: Seq<char>| self.has_guess(w) implies (old(self).has_guess(w) || w
                == norm_of(raw_guess@)) by {
                let i = choose|i: int|
                    0 <= i < self.guesses@.len() && #[trigger] self.guesses@[i]@ == w;
                if i < old(self).guesses@.len() {
                    assert(old(self).guesses@[i]@ == w);
                }
            }
            assert(self.has_guess(norm_of(raw_guess@))) by {
                if old(self).guesses@.len() < self.guesses@.len() {
                    assert(self.guesses@[self.guesses@.len() - 1]@ == norm_of(raw_guess@));
                }
            }
            assert forall|w: Seq<char>| old(self).has_guess(w) implies self.has_guess(w) by {
                let i = choose|i: int|
                    0 <= i < old(self).guesses@.len() && #[trigger] old(self).guesses@[i]@ == w;
                assert(self.guesses@[i]@ == w);
            }
            assert(self.guess_set() =~= old(self).guess_set().insert(norm_of(raw_guess@)));
        }
    }

    /// Toggles the selected guess: the raw input is normalized; selecting the
    /// current selection clears it, anything else becomes the selection.
    pub fn toggle_selection(&mut self, raw: &str)
        ensures
            final (self).wiki_article == old(self).wiki_article,
            final (self).guesses == old(self).guesses,
            final (self).sel() == toggle_spec(old(self).sel(), norm_of(raw@)),
    {
        let n = normalize(raw);
        let same = match &self.selected_guess {
            Some(s) => s.eq(&n),
            None => false,
        };
        if same {
            self.selected_guess = None;
        } else {
            self.selected_guess = Some(n);
        }
    }

    /// Whether every `Word` token of the loaded article's title has been
    /// guessed.  Recomputed on demand from the current guess set; false when
    /// no article is loaded.
    pub fn title_complete(&self) -> (b: bool)
        ensures
            b == self.spec_title_complete(),
    {
        match &self.wiki_article {
            None => false,
            Some(a) => {
                let mut i: usize = 0;
                while i < a.title.len()
                    invariant
                        i <= a.title@.len(),
                        self.wiki_article matches Some(art) && art.title == a.title,
                        forall|k: int|
                            0 <= k < i && (#[trigger] a.title@[k])@.word ==> self.has_guess(
                                lower_of(a.title@[k]@.text),
                            ),
                    decreases a.title@.len() - i,
                {
                    let t = &a.title[i];
                    if t.is_word() {
                        let low = to_lower(t.get_str().as_str());
                        if !contains_str(&self.guesses, &low) {
                            return false;
                        }
                    }
                    i += 1;
                }
                true
            },
        }
    }

    /// The treatment of one token under the current state.
    pub fn get_token_treatment(&self, token: &Token) -> (t: TokenTreatment)
        ensures
            t == self.spec_treatment(*token),
    {
        match token {
            Token::NonWord(_) => TokenTreatment::Show,
            Token::Word(text) => {
                let low = to_lower(text.as_str());
                let selected = match &self.selected_guess {
                    Some(s) => s.eq(&low),
                    None => false,
                };
                if selected {
                    TokenTreatment::Highlight
                } else if contains_str(&self.guesses, &low) || self.title_complete() {
                    TokenTreatment::Show
                } else {
                    TokenTreatment::Blank
                }
            },
        }
    }

    /// Counts the occurrences of the word (in normal form) across the whole
    /// loaded article — title tokens and every section, descending into list
    /// items.  `None` when no article is loaded; counting a word that never
    /// occurs gives zero.
    pub fn count_word_in_article(&self, word: &str) -> (r: Option<usize>)
        ensures
            match r {
                None => self.wiki_article is None,
                Some(n) => self.wiki_article matches Some(a) && n as nat == clamped(
                    count_in_article(norm_of(word@), a),
                ),
            },
    {
        match &self.wiki_article {
            None => None,
            Some(a) => {
                let trimmed = trim_str(word);
                let in_title = count_word_in_tokens(trimmed.as_str(), &a.title);
                let in_content = count_word_in_sections(trimmed.as_str(), &a.content);
                proof {
                    lemma_count_in_tokens_le(lower_of(trimmed@), views_of(a.title@));
                }
                Some(sat_add(in_title, in_content))
            },
        }
    }
}

/// Whether the vector holds a string with the given characters.
fn contains_str(v: &Vec<String>, w: &String) -> (b: bool)
    ensures
        b == exists|i: int| 0 <= i < v@.len() && #[trigger] v@[i]@ == w@,
{
    let mut i: usize = 0;
    while i < v.len()
        invariant
            i <= v@.len(),
            forall|k: int| 0 <= k < i ==> #[trigger] v@[k]@ != w@,
        decreases v@.len() - i,
    {
        if v[i].eq(w) {
            return true;
        }
        i += 1;
    }
    false
}

/// Addition that clamps at the top of `usize` instead of overflowing.
fn sat_add(a: usize, b: usize) -> (c: usize)
    ensures
        c as nat == clamped(a as nat + b as nat),
{
    if a > usize::MAX - b {
        usize::MAX
    } else {
        a + b
    }
}

/// Counts the `Word` tokens whose lowercased text equals the lowercased
/// word.
pub fn count_word_in_tokens(word: &str, tokens: &Vec<Token>) -> (n: usize)
    ensures
        n == count_in_tokens(lower_of(word@), views_of(tokens@)),
{
    let low = to_lower(word);
    let ghost vs = views_of(tokens@);
    let mut n: usize = 0;
    let mut i: usize = 0;
    while i < tokens.len()
        invariant
            i <= tokens@.len(),
            low@ == lower_of(word@),
            vs == views_of(tokens@),
            n <= i,
            n == count_in_tokens(low@, vs.take(i as int)),
        decreases tokens@.len() - i,
    {
        let t = &tokens[i];
        if t.is_word() {
            let tl = to_lower(t.get_str().as_str());
            if tl.eq(&low) {
                n += 1;
            }
        }
        i += 1;
        proof {
            assert(vs.take(i as int).drop_last() =~= vs.take(i - 1));
            assert(vs.take(i as int).last() == tokens@[i - 1]@);
        }
    }
    proof {
        assert(vs.take(tokens@.len() as int) =~= vs);
    }
    n
}

/// Counts the word's occurrences across a sequence of sections, descending
/// into list items; the result clamps at the top of `usize`.
pub fn count_word_in_sections(word: &str, sections: &Vec<Section>) -> (n: usize)
    ensures
        n as nat == clamped(count_in_sections(lower_of(word@), sections@)),
    decreases sections@,
{
    let ghost w = lower_of(word@);
    let mut n: usize = 0;
    let mut i: usize = 0;
    while i < sections.len()
        invariant
            i <= sections@.len(),
            w == lower_of(word@),
            n as nat == clamped(count_in_sections(w, sections@.take(i as int))),
        decreases sections@.len() - i,
    {
        let c: usize = match &sections[i] {
            Section::Heading(_level, ts) => {
                let k = count_word_in_tokens(word, ts);
                proof {
                    lemma_count_in_tokens_le(w, views_of(ts@));
                    assert(k as nat == clamped(count_in_section(w, sections@[i as int])));
                }
                k
            },
            Section::Paragraph(ts) => {
                let k = count_word_in_tokens(word, ts);
                proof {
                    lemma_count_in_tokens_le(w, views_of(ts@));
                    assert(k as nat == clamped(count_in_section(w, sections@[i as int])));
                }
                k
            },
            Section::UnorderedList(items) => {
                proof {
                    assert(decreases_to!(sections@ => sections@[i as int]));
                }
                count_word_in_items(word, items)
            },
            Section::OrderedList(items) => {
                proof {
                    assert(decreases_to!(sections@ => sections@[i as int]));
                }
                count_word_in_items(word, items)
            },
        };
        n = sat_add(n, c);
        i += 1;
        proof {
            assert(sections@.take(i as int).drop_last() =~= sections@.take(i - 1));
            assert(sections@.take(i as int).last() == sections@[i - 1]);
        }
    }
    proof {
        assert(sections@.take(sections@.len() as int) =~= sections@);
    }
    n
}

/// Counts the word's occurrences across a list's items; the result clamps at
/// the top of `usize`.
pub fn count_word_in_items(word: &str, items: &Vec<Vec<Section>>) -> (n: usize)
    ensures
        n as nat == clamped(count_in_items(lower_of(word@), items@)),
    decreases items@,
{
    let ghost w = lower_of(word@);
    let mut n: usize = 0;
    let mut j: usize = 0;
    while j < items.len()
        invariant
            j <= items@.len(),
            w == lower_of(word@),
            n as nat == clamped(count_in_items(w, items@.take(j as int))),
        decreases items@.len() - j,
    {
        proof {
            assert(decreases_to!(items@ => items@[j as int]));
        }
        let c = count_word_in_sections(word, &items[j]);
        n = sat_add(n, c);
        j += 1;
        proof {
            assert(items@.take(j as int).drop_last() =~= items@.take(j - 1));
            assert(items@.take(j as int).last() == items@[j - 1]);
        }
    }
    proof {
        assert(items@.take(items@.len() as int) =~= items@);
    }
    n
}

/// Idempotent guess registration: inserting a guess that the set already
/// holds, or inserting the same guess twice, leaves the guess set exactly
/// where one insertion leaves it.
pub proof fn lemma_register_idempotent(gs: Set<Seq<char>>, n: Seq<char>)
    ensures
        gs.insert(n).insert(n) == gs.insert(n),
{
    assert(gs.insert(n).insert(n) =~= gs.insert(n));
}

/// Toggle symmetry: toggling the same value twice returns the selection to
/// its starting point.  This holds when nothing else was selected before;
/// with a different guess selected, the second toggle clears the selection
/// instead of restoring it.
pub proof fn lemma_toggle_symmetry(sel: Option<Seq<char>>, n: Seq<char>)
    requires
        sel is None || sel == Some(n),
    ensures
        toggle_spec(toggle_spec(sel, n), n) == sel,
{
}

/// Title completion unlock: once every title word is guessed, no `Word`
/// token anywhere in the document is blanked — it is shown, or highlighted
/// when it matches the selection.
pub proof fn lemma_title_complete_unlocks(g: Game, t: Token)
    requires
        g.spec_title_complete(),
        t@.word,
    ensures
        g.spec_treatment(t) != TokenTreatment::Blank,
        g.sel() != Some(lower_of(t@.text)) ==> g.spec_treatment(t) == TokenTreatment::Show,
{
}

} // verus!

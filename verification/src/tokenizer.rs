//! Splitting plain text into an alternating sequence of word and non-word
//! tokens.
//!
//! A `Word` token is a maximal run of word-constituent characters (letters and
//! digits, by the Unicode classification); a `NonWord` token is a maximal run
//! of everything else.  Concatenating the texts of the tokens, in order,
//! reproduces the input exactly.

use vstd::prelude::*;

verus! {

/// Whether a character counts as word-constituent (a Unicode letter or
/// digit).  The classification is a fixed function of the character; it is
/// given a name here and applied by the contract of [`is_word_char`].
pub uninterp spec fn word_char(c: char) -> bool;

/// Relies on char::is_alphanumeric: whether the character is a Unicode
/// letter or digit, a function of the character alone.
#[verifier::external_body]
pub(crate) fn is_word_char(c: char) -> (b: bool)
    ensures
        b == word_char(c),
{
    c.is_alphanumeric()
}

/// A token of tokenized text: a maximal run of word-constituent characters
/// (`Word`) or of other characters (`NonWord`).  The text of a token is never
/// empty.
#[derive(Debug)]
pub enum Token {
    Word(String),
    NonWord(String),
}

/// The mathematical image of a [`Token`]: its kind and its text as a
/// character sequence.
pub ghost struct SpecToken {
    pub word: bool,
    pub text: Seq<char>,
}

impl View for Token {
    type V = SpecToken;

    open spec fn view(&self) -> SpecToken {
        match self {
            Token::Word(s) => SpecToken { word: true, text: s@ },
            Token::NonWord(s) => SpecToken { word: false, text: s@ },
        }
    }
}

impl Token {
    /// The token's text.
    pub fn get_str(&self) -> (s: &String)
        ensures
            s@ == self@.text,
    {
        match self {
            Token::Word(s) => s,
            Token::NonWord(s) => s,
        }
    }

    /// The number of characters in the token's text.
    pub fn char_count(&self) -> (n: usize)
        ensures
            n == self@.text.len(),
    {
        self.get_str().as_str().unicode_len()
    }

    /// Whether this is a `Word` token.
    pub fn is_word(&self) -> (b: bool)
        ensures
            b == self@.word,
    {
        match self {
            Token::Word(_) => true,
            Token::NonWord(_) => false,
        }
    }
}

/// The views of a sequence of tokens.
pub open spec fn views_of(ts: Seq<Token>) -> Seq<SpecToken> {
    ts.map_values(|t: Token| t@)
}

/// The length of the maximal prefix of `s` whose characters all satisfy
/// `word_char(c) == w`.
pub open spec fn run_len(s: Seq<char>, w: bool) -> nat
    decreases s.len(),
{
    if s.len() == 0 {
        0
    } else if word_char(s[0]) == w {
        1 + run_len(s.drop_first(), w)
    } else {
        0
    }
}

/// The maximal leading run never outruns the sequence.
pub proof fn lemma_run_len_le(s: Seq<char>, w: bool)
    ensures
        run_len(s, w) <= s.len(),
    decreases s.len(),
{
    if s.len() > 0 && word_char(s[0]) == w {
        lemma_run_len_le(s.drop_first(), w);
    }
}

/// The tokenization of a character sequence: the empty sequence for empty
/// input, else the maximal leading run of uniformly classified characters as
/// one token, followed by the tokenization of the rest.
pub open spec fn tokenize_spec(s: Seq<char>) -> Seq<SpecToken>
    decreases s.len() via tokenize_spec_dec
{
    if s.len() == 0 {
        Seq::empty()
    } else {
        let w = word_char(s[0]);
        let n = run_len(s, w) as int;
        seq![SpecToken { word: w, text: s.take(n) }] + tokenize_spec(s.skip(n))
    }
}

#[via_fn]
proof fn tokenize_spec_dec(s: Seq<char>) {
    if s.len() > 0 {
        let w = word_char(s[0]);
        lemma_run_len_le(s, w);
        assert(run_len(s, w) >= 1);
    }
}

/// The concatenation of the texts of a token sequence.
pub open spec fn concat_text(ts: Seq<SpecToken>) -> Seq<char>
    decreases ts.len(),
{
    if ts.len() == 0 {
        Seq::empty()
    } else {
        ts[0].text + concat_text(ts.drop_first())
    }
}

/// A token sequence is canonical when it is exactly the tokenization of its
/// own concatenated text.  Every token sequence this library builds is
/// canonical.
pub open spec fn canonical(ts: Seq<SpecToken>) -> bool {
    ts == tokenize_spec(concat_text(ts))
}

/// No two adjacent tokens have the same kind.
pub open spec fn alternating(ts: Seq<SpecToken>) -> bool {
    forall|i: int| 0 <= i && i + 1 < ts.len() ==> #[trigger] ts[i].word != ts[i + 1].word
}

/// The maximal leading run: its characters all match `w`, and the character
/// after it (if any) does not.
pub proof fn lemma_run_len_props(s: Seq<char>, w: bool)
    ensures
        run_len(s, w) <= s.len(),
        forall|k: int| 0 <= k < run_len(s, w) ==> word_char(s[k]) == w,
        run_len(s, w) < s.len() ==> word_char(s[run_len(s, w) as int]) != w,
    decreases s.len(),
{
    if s.len() > 0 && word_char(s[0]) == w {
        let t = s.drop_first();
        lemma_run_len_props(t, w);
        assert forall|k: int| 0 <= k < run_len(s, w) implies word_char(s[k]) == w by {
            if k > 0 {
                assert(t[k - 1] == s[k]);
            }
        }
        if run_len(s, w) < s.len() {
            assert(t[run_len(t, w) as int] == s[run_len(s, w) as int]);
        }
    }
}

/// A stretch of `m` matching characters followed by a non-matching one (or
/// the end) is exactly the maximal leading run.
pub proof fn lemma_run_len_is(s: Seq<char>, w: bool, m: int)
    requires
        0 <= m <= s.len(),
        forall|k: int| 0 <= k < m ==> word_char(s[k]) == w,
        m == s.len() || word_char(s[m]) != w,
    ensures
        run_len(s, w) == m,
    decreases m,
{
    if m == 0 {
    } else {
        let t = s.drop_first();
        assert(word_char(s[0]) == w);
        assert forall|k: int| 0 <= k < m - 1 implies word_char(t[k]) == w by {
            assert(t[k] == s[k + 1]);
        }
        if m - 1 < t.len() {
            assert(t[m - 1] == s[m]);
        }
        lemma_run_len_is(t, w, m - 1);
    }
}

/// A nonempty input tokenizes to a nonempty sequence whose first token takes
/// its kind from the first character.
pub proof fn lemma_tokenize_first(s: Seq<char>)
    requires
        s.len() > 0,
    ensures
        tokenize_spec(s).len() > 0,
        tokenize_spec(s)[0].word == word_char(s[0]),
        tokenize_spec(s)[0].text.len() > 0,
{
    let w = word_char(s[0]);
    lemma_run_len_props(s, w);
    assert(run_len(s, w) >= 1);
}

/// Round trip: concatenating the texts of `tokenize_spec(s)` in order yields
/// exactly `s` — the tokenization is a lossless partition of its input.
pub proof fn lemma_tokenize_round_trip(s: Seq<char>)
    ensures
        concat_text(tokenize_spec(s)) == s,
    decreases s.len(),
{
    if s.len() == 0 {
        assert(concat_text(tokenize_spec(s)) =~= s);
    } else {
        let w = word_char(s[0]);
        let n = run_len(s, w) as int;
        lemma_run_len_props(s, w);
        assert(n >= 1);
        lemma_tokenize_round_trip(s.skip(n));
        let ts = tokenize_spec(s);
        assert(ts.drop_first() =~= tokenize_spec(s.skip(n)));
        assert(concat_text(ts) == ts[0].text + concat_text(ts.drop_first()));
        assert(s.take(n) + s.skip(n) =~= s);
    }
}

/// Every token sequence a tokenization produces is canonical.
pub proof fn lemma_tokenize_canonical(s: Seq<char>)
    ensures
        canonical(tokenize_spec(s)),
{
    lemma_tokenize_round_trip(s);
}

/// Alternation: no two adjacent tokens of a tokenization have the same kind,
/// because each token is a maximal run.
pub proof fn lemma_tokenize_alternating(s: Seq<char>)
    ensures
        alternating(tokenize_spec(s)),
    decreases s.len(),
{
    if s.len() > 0 {
        let w = word_char(s[0]);
        let n = run_len(s, w) as int;
        lemma_run_len_props(s, w);
        assert(n >= 1);
        let rest = tokenize_spec(s.skip(n));
        lemma_tokenize_alternating(s.skip(n));
        let ts = tokenize_spec(s);
        assert forall|i: int| 0 <= i && i + 1 < ts.len() implies #[trigger] ts[i].word != ts[i
            + 1].word by {
            if i == 0 {
                assert(n < s.len());
                assert(s.skip(n)[0] == s[n]);
                lemma_tokenize_first(s.skip(n));
                assert(ts[1] == rest[0]);
            } else {
                assert(ts[i] == rest[i - 1]);
                assert(ts[i + 1] == rest[i]);
            }
        }
    }
}

/// Every token of a tokenization has nonempty text.
pub proof fn lemma_tokenize_nonempty(s: Seq<char>)
    ensures
        forall|i: int|
            0 <= i < tokenize_spec(s).len() ==> #[trigger] tokenize_spec(s)[i].text.len() > 0,
    decreases s.len(),
{
    if s.len() > 0 {
        let w = word_char(s[0]);
        let n = run_len(s, w) as int;
        lemma_run_len_props(s, w);
        assert(n >= 1);
        let rest = tokenize_spec(s.skip(n));
        lemma_tokenize_nonempty(s.skip(n));
        let ts = tokenize_spec(s);
        assert forall|i: int| 0 <= i < ts.len() implies #[trigger] ts[i].text.len() > 0 by {
            if i > 0 {
                assert(ts[i] == rest[i - 1]);
            }
        }
    }
}

/// The token invariants hold of every canonical token sequence — so of
/// every token run in a parsed document: adjacent tokens alternate in kind,
/// and no token's text is empty.
pub proof fn lemma_canonical_invariants(ts: Seq<SpecToken>)
    requires
        canonical(ts),
    ensures
        alternating(ts),
        forall|i: int| 0 <= i < ts.len() ==> #[trigger] ts[i].text.len() > 0,
{
    lemma_tokenize_alternating(concat_text(ts));
    lemma_tokenize_nonempty(concat_text(ts));
}

/// Relies on String::push: appends the character to the end of the string.
#[verifier::external_body]
fn push_char(s: &mut String, c: char)
    ensures
        final(s)@ == old(s)@.push(c),
{
    s.push(c)
}

/// Copies the characters of a string into a vector.
pub(crate) fn str_chars(s: &str) -> (v: Vec<char>)
    ensures
        v@ == s@,
{
    let n = s.unicode_len();
    let mut v: Vec<char> = Vec::new();
    let mut i: usize = 0;
    while i < n
        invariant
            i <= n,
            n == s@.len(),
            v@ == s@.take(i as int),
        decreases n - i,
    {
        let c = s.get_char(i);
        v.push(c);
        i += 1;
        assert(v@ =~= s@.take(i as int));
    }
    assert(v@ =~= s@);
    v
}

/// Builds a string out of the characters `chars[from..to]`.
fn string_from(chars: &Vec<char>, from: usize, to: usize) -> (s: String)
    requires
        from <= to <= chars.len(),
    ensures
        s@ == chars@.subrange(from as int, to as int),
{
    let mut s = String::new();
    let mut k: usize = from;
    while k < to
        invariant
            from <= k <= to <= chars.len(),
            s@ == chars@.subrange(from as int, k as int),
        decreases to - k,
    {
        push_char(&mut s, chars[k]);
        k += 1;
        assert(s@ =~= chars@.subrange(from as int, k as int));
    }
    s
}

/// Tokenizes the characters `chars[from..to]`.
pub(crate) fn tokenize_chars(chars: &Vec<char>, from: usize, to: usize) -> (r: Vec<Token>)
    requires
        from <= to <= chars.len(),
    ensures
        views_of(r@) == tokenize_spec(chars@.subrange(from as int, to as int)),
{
    let ghost s = chars@.subrange(from as int, to as int);
    let mut toks: Vec<Token> = Vec::new();
    let mut i: usize = from;
    proof {
        assert(s.skip(0) =~= s);
        assert(views_of(toks@) + tokenize_spec(s.skip(0)) =~= tokenize_spec(s));
    }
    while i < to
        invariant
            from <= i <= to <= chars.len(),
            s == chars@.subrange(from as int, to as int),
            tokenize_spec(s) == views_of(toks@) + tokenize_spec(s.skip(i - from)),
        decreases to - i,
    {
        let w = is_word_char(chars[i]);
        let mut j: usize = i + 1;
        while j < to && is_word_char(chars[j]) == w
            invariant
                i < j <= to <= chars.len(),
                w == word_char(chars@[i as int]),
                forall|k: int| i <= k < j ==> word_char(chars@[k]) == w,
            decreases to - j,
        {
            j += 1;
        }
        let text = string_from(chars, i, j);
        let tok = if w {
            Token::Word(text)
        } else {
            Token::NonWord(text)
        };
        proof {
            let tail = s.skip(i - from);
            let m = j - i;
            assert forall|k: int| 0 <= k < m implies word_char(tail[k]) == w by {
                assert(tail[k] == chars@[i + k]);
            }
            if m < tail.len() {
                assert(tail[m as int] == chars@[j as int]);
            }
            lemma_run_len_is(tail, w, m as int);
            assert(tail[0] == chars@[i as int]);
            assert(tokenize_spec(tail) == seq![
                SpecToken { word: w, text: tail.take(m as int) },
            ] + tokenize_spec(tail.skip(m as int)));
            assert(tail.take(m as int) =~= chars@.subrange(i as int, j as int));
            assert(tail.skip(m as int) =~= s.skip(j - from));
            assert(tok@ == SpecToken { word: w, text: chars@.subrange(i as int, j as int) });
            assert(views_of(toks@.push(tok)) =~= views_of(toks@) + seq![tok@]);
            assert(views_of(toks@.push(tok)) + tokenize_spec(s.skip(j - from)) =~= tokenize_spec(
                s,
            ));
        }
        toks.push(tok);
        i = j;
    }
    proof {
        assert(s.skip(to - from) =~= Seq::<char>::empty());
        assert(views_of(toks@) + tokenize_spec(s.skip(to - from)) =~= views_of(toks@));
    }
    toks
}

/// Splits a plain-text string into an ordered sequence of `Word` / `NonWord`
/// tokens: a `Word` for each maximal run of word-constituent characters, a
/// `NonWord` for each maximal run of the complement.  Empty input yields an
/// empty sequence.
pub fn tokenize(text: &str) -> (r: Vec<Token>)
    ensures
        views_of(r@) == tokenize_spec(text@),
{
    let chars = str_chars(text);
    let n = chars.len();
    let r = tokenize_chars(&chars, 0, n);
    proof {
        assert(chars@.subrange(0, n as int) =~= text@);
    }
    r
}

} // verus!

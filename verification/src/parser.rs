//! The document parser: turns raw article markup into a structured
//! [`WikiArticle`].  It is a best-effort structural extractor, never a
//! validating parser: malformed or unrecognized markup degrades to plain
//! paragraph text, and parsing never fails.
//!
//! The markup handled here is line-oriented:
//! - a line of `=` signs opens a heading; the number of leading `=` gives the
//!   level, clamped into 1..=6;
//! - lines opening with `*` or `#` are unordered / ordered list items, nested
//!   by repeating the markers;
//! - blank lines separate paragraphs; remaining adjacent text lines join
//!   into one paragraph;
//! - lines opening with `{`, `|`, `!` or `}` carry table or template
//!   structure and contribute no readable text;
//! - within a line, `''`-style emphasis is dropped, `[[target|label]]` links
//!   keep their label (links with a `:`-qualified target — media and
//!   category references — are dropped whole), and `{{...}}` templates,
//!   `<...>` tags and `<ref>...</ref>` citations are stripped.

use vstd::prelude::*;

use crate::article::{
    lemma_wf_items_push, lemma_wf_sections_push, wf_article, wf_items, wf_section, wf_sections,
    Section, WikiArticle,
};
use crate::tokenizer::{
    lemma_tokenize_canonical, str_chars, tokenize, tokenize_chars, tokenize_spec, views_of,
};

verus! {

/// Whether the character is horizontal whitespace or a carriage return.
pub open spec fn blank_char(c: char) -> bool {
    c == ' ' || c == '\t' || c == '\r'
}

/// Whether the line holds nothing but spaces, tabs and carriage returns.
fn is_blank(line: &Vec<char>) -> (b: bool)
    ensures
        b == forall|k: int| 0 <= k < line@.len() ==> blank_char(#[trigger] line@[k]),
{
    let mut i: usize = 0;
    while i < line.len()
        invariant
            i <= line@.len(),
            forall|k: int| 0 <= k < i ==> blank_char(#[trigger] line@[k]),
        decreases line@.len() - i,
    {
        let c = line[i];
        if !(c == ' ' || c == '\t' || c == '\r') {
            return false;
        }
        i += 1;
    }
    true
}

/// The length of the line's leading run of list markers (`*` and `#`).
fn list_prefix_len(line: &Vec<char>) -> (d: usize)
    ensures
        d <= line@.len(),
{
    let mut d: usize = 0;
    while d < line.len() && (line[d] == '*' || line[d] == '#')
        invariant
            d <= line@.len(),
        decreases line@.len() - d,
    {
        d += 1;
    }
    d
}

/// Whether the line opens a list item.
fn is_list_line(line: &Vec<char>) -> (b: bool)
    ensures
        b == (line@.len() > 0 && (line@[0] == '*' || line@[0] == '#')),
{
    if line.len() == 0 {
        false
    } else {
        let c = line[0];
        c == '*' || c == '#'
    }
}

/// Appends all characters of `src` to `dst`.
fn append_chars(dst: &mut Vec<char>, src: &Vec<char>)
    ensures
        final (dst)@ == old(dst)@ + src@,
{
    let mut q: usize = 0;
    while q < src.len()
        invariant
            q <= src@.len(),
            dst@ == old(dst)@ + src@.take(q as int),
        decreases src@.len() - q,
    {
        dst.push(src[q]);
        q += 1;
        assert(dst@ =~= old(dst)@ + src@.take(q as int));
    }
    assert(dst@ =~= old(dst)@ + src@);
}

/// Whether the character can open no inline markup construct: text made of
/// such characters passes through the stripper unchanged.
pub open spec fn plain_char(c: char) -> bool {
    c != '<' && c != '{' && c != '[' && c != '\''
}

/// Extracts the readable text of `line[from..to]`, stripping inline markup:
/// emphasis quotes, link brackets (keeping the label, dropping
/// `:`-qualified media and category links), templates, tags, and citation
/// bodies.  Unclosed constructs drop the remainder of the line.
fn strip_markup_range(line: &Vec<char>, from: usize, to: usize) -> (out: Vec<char>)
    requires
        from <= to <= line@.len(),
    ensures
        (forall|k: int| from <= k < to ==> plain_char(#[trigger] line@[k])) ==> out@ == line@
            .subrange(from as int, to as int),
{
    let mut out: Vec<char> = Vec::new();
    let mut i: usize = from;
    while i < to
        invariant
            from <= i <= to <= line@.len(),
            (forall|k: int| from <= k < to ==> plain_char(#[trigger] line@[k])) ==> out@ =~= line@
                .subrange(from as int, i as int),
        decreases to - i,
    {
        let c = line[i];
        if c == '<' {
            // a tag: find the end of the opening tag first
            let mut j: usize = i + 1;
            while j < to && line[j] != '>'
                invariant
                    i + 1 <= j <= to <= line@.len(),
                decreases to - j,
            {
                j += 1;
            }
            if j >= to {
                // unclosed tag: drop the rest of the line
                i = to;
            } else {
                let is_ref = to - i > 3 && line[i + 1] == 'r' && line[i + 2] == 'e' && line[i + 3]
                    == 'f';
                let self_closing = j >= 1 && line[j - 1] == '/';
                if is_ref && !self_closing {
                    // a citation: drop everything through the closing tag
                    let mut k: usize = j + 1;
                    let mut done = false;
                    while k < to && !done
                        invariant
                            j + 1 <= k <= to <= line@.len(),
                        decreases to - k,
                    {
                        if line[k] == '>' && k >= 5 && line[k - 1] == 'f' && line[k - 2] == 'e'
                            && line[k - 3] == 'r' && line[k - 4] == '/' && line[k - 5] == '<' {
                            done = true;
                        }
                        k += 1;
                    }
                    i = if done {
                        k
                    } else {
                        to
                    };
                } else {
                    // any other tag: drop just the tag itself
                    i = j + 1;
                }
            }
        } else if c == '{' && i + 1 < to && line[i + 1] == '{' {
            // a template: drop through the matching close, or the rest
            let mut k: usize = i + 2;
            let mut stop: usize = to;
            let mut found = false;
            while k < to && !found
                invariant
                    i + 2 <= k <= to <= line@.len(),
                    found ==> i + 2 < stop <= to,
                    !found ==> stop == to,
                decreases to - k,
            {
                if line[k] == '}' && k + 1 < to && line[k + 1] == '}' {
                    stop = k + 2;
                    found = true;
                }
                k += 1;
            }
            i = stop;
        } else if c == '[' && i + 1 < to && line[i + 1] == '[' {
            // a link: keep the label (the part after the last `|`), unless
            // the target is `:`-qualified (a media or category reference)
            let mut k: usize = i + 2;
            let mut label: Vec<char> = Vec::new();
            let mut seen_pipe = false;
            let mut qualified = false;
            let mut closed = false;
            while k < to && !closed
                invariant
                    i + 2 <= k <= to <= line@.len(),
                    closed ==> i + 2 < k,
                decreases to - k,
            {
                let d = line[k];
                if d == ']' && k + 1 < to && line[k + 1] == ']' {
                    closed = true;
                    k += 2;
                } else if d == '|' {
                    seen_pipe = true;
                    label = Vec::new();
                    k += 1;
                } else {
                    if d == ':' && !seen_pipe {
                        qualified = true;
                    }
                    label.push(d);
                    k += 1;
                }
            }
            if closed && !qualified {
                append_chars(&mut out, &label);
            }
            i = if closed {
                k
            } else {
                to
            };
        } else if c == '\'' && i + 1 < to && line[i + 1] == '\'' {
            // an emphasis run: drop the apostrophes, keep the emphasized text
            let mut k: usize = i + 2;
            while k < to && line[k] == '\''
                invariant
                    i + 2 <= k <= to <= line@.len(),
                decreases to - k,
            {
                k += 1;
            }
            i = k;
        } else {
            out.push(c);
            i += 1;
        }
    }
    out
}

/// Splits the characters into lines at newline characters; a trailing
/// fragment without a newline forms a final line.
fn split_lines(chars: &Vec<char>) -> (lines: Vec<Vec<char>>)
    ensures
        chars@.len() == 0 ==> lines@.len() == 0,
        chars@.len() > 0 && (forall|k: int| 0 <= k < chars@.len() ==> #[trigger] chars@[k] != '\n')
            ==> lines@.len() == 1 && lines@[0]@ == chars@,
{
    let mut lines: Vec<Vec<char>> = Vec::new();
    let mut cur: Vec<char> = Vec::new();
    let mut i: usize = 0;
    while i < chars.len()
        invariant
            i <= chars@.len(),
            chars@.len() == 0 ==> lines@.len() == 0 && cur@.len() == 0,
            (forall|k: int| 0 <= k < chars@.len() ==> #[trigger] chars@[k] != '\n') ==> lines@.len()
                == 0 && cur@ =~= chars@.take(i as int),
        decreases chars@.len() - i,
    {
        let c = chars[i];
        if c == '\n' {
            lines.push(cur);
            cur = Vec::new();
        } else {
            cur.push(c);
        }
        i += 1;
    }
    proof {
        if chars@.len() > 0 && (forall|k: int|
            0 <= k < chars@.len() ==> #[trigger] chars@[k] != '\n') {
            assert(cur@ =~= chars@);
        }
    }
    if cur.len() > 0 {
        lines.push(cur);
    }
    lines
}

/// Tokenizes the readable text of `line[from..to]`, surrounding spaces
/// dropped, into a well-formed paragraph section, unless no text is left.
fn text_paragraph(line: &Vec<char>, from: usize, to: usize) -> (r: Option<Section>)
    requires
        from <= to <= line@.len(),
    ensures
        r matches Some(s) ==> wf_section(s),
{
    let mut lo: usize = from;
    let mut hi: usize = to;
    while lo < hi && (line[lo] == ' ' || line[lo] == '\t')
        invariant
            from <= lo <= hi <= line@.len(),
        decreases hi - lo,
    {
        lo += 1;
    }
    while hi > lo && (line[hi - 1] == ' ' || line[hi - 1] == '\t')
        invariant
            lo <= hi <= line@.len(),
        decreases hi,
    {
        hi -= 1;
    }
    let stripped = strip_markup_range(line, lo, hi);
    let n = stripped.len();
    if n == 0 {
        return None;
    }
    let toks = tokenize_chars(&stripped, 0, n);
    proof {
        lemma_tokenize_canonical(stripped@.subrange(0, n as int));
    }
    Some(Section::Paragraph(toks))
}

/// Builds the items of a list out of `lines[start..end)`, whose lines carry
/// at least `depth` leading markers: a line with `depth` (or fewer) markers
/// opens a new item, deeper lines nest as a sub-list of the current item.
fn parse_list_items(lines: &Vec<Vec<char>>, start: usize, end: usize, depth: usize) -> (items: Vec<
    Vec<Section>,
>)
    requires
        start <= end <= lines@.len(),
        1 <= depth,
    ensures
        wf_items(items@),
        end - start == 1 ==> items@.len() == 1,
    decreases end - start, usize::MAX - depth,
{
    let mut items: Vec<Vec<Section>> = Vec::new();
    let mut cur: Vec<Section> = Vec::new();
    let mut has_cur = false;
    let mut k: usize = start;
    while k < end
        invariant
            start <= k <= end <= lines@.len(),
            1 <= depth,
            wf_items(items@),
            wf_sections(cur@),
            k == start ==> items@.len() == 0 && !has_cur,
            end - start == 1 && k > start ==> items@.len() == 0 && has_cur,
        decreases end - k,
    {
        let line = &lines[k];
        let d = list_prefix_len(line);
        if d <= depth {
            // a new item at this depth (shallow or marker-free lines degrade
            // to items here as well)
            if has_cur {
                proof {
                    lemma_wf_items_push(items@, cur);
                }
                items.push(cur);
                cur = Vec::new();
            }
            has_cur = true;
            match text_paragraph(line, d, line.len()) {
                Some(s) => {
                    proof {
                        lemma_wf_sections_push(cur@, s);
                    }
                    cur.push(s);
                },
                None => {},
            }
            k += 1;
        } else {
            // deeper lines: the maximal run below this item becomes a
            // nested list
            let mut m: usize = k + 1;
            while m < end && list_prefix_len(&lines[m]) > depth
                invariant
                    k + 1 <= m <= end <= lines@.len(),
                decreases end - m,
            {
                m += 1;
            }
            let sub_marker = line[depth];
            proof {
                assert(decreases_to!(end - start, usize::MAX - depth => m - k, usize::MAX - (depth
                    + 1)));
            }
            let sub_items = parse_list_items(lines, k, m, depth + 1);
            let sub = if sub_marker == '#' {
                Section::OrderedList(sub_items)
            } else {
                Section::UnorderedList(sub_items)
            };
            has_cur = true;
            proof {
                lemma_wf_sections_push(cur@, sub);
            }
            cur.push(sub);
            k = m;
        }
    }
    if has_cur {
        proof {
            lemma_wf_items_push(items@, cur);
        }
        items.push(cur);
    }
    items
}

/// The length of the input's leading run of `=` signs.
pub open spec fn eq_run(s: Seq<char>) -> nat
    decreases s.len(),
{
    if s.len() == 0 || s[0] != '=' {
        0
    } else {
        1 + eq_run(s.drop_first())
    }
}

/// A stretch of `m` leading `=` signs followed by something else (or the
/// end) is exactly the leading run.
proof fn lemma_eq_run_is(s: Seq<char>, m: int)
    requires
        0 <= m <= s.len(),
        forall|k: int| 0 <= k < m ==> s[k] == '=',
        m == s.len() || s[m] != '=',
    ensures
        eq_run(s) == m,
    decreases m,
{
    if m > 0 {
        let t = s.drop_first();
        assert forall|k: int| 0 <= k < m - 1 implies t[k] == '=' by {
            assert(t[k] == s[k + 1]);
        }
        if m - 1 < t.len() {
            assert(t[m - 1] == s[m]);
        }
        lemma_eq_run_is(t, m - 1);
    }
}

/// A heading level clamped into 1..=6 from above.
pub open spec fn clamp_level(n: nat) -> nat {
    if n > 6 {
        6
    } else {
        n
    }
}

/// An input that is a single line of plain prose: no newline, no character
/// that opens inline markup, a first character that opens no block
/// construct, and at least one visible character.
pub open spec fn plain_prose(s: Seq<char>) -> bool {
    &&& s.len() > 0
    &&& forall|k: int| 0 <= k < s.len() ==> #[trigger] s[k] != '\n' && plain_char(s[k])
    &&& exists|k: int| 0 <= k < s.len() && !blank_char(#[trigger] s[k])
    &&& !(s[0] == '=' || s[0] == '*' || s[0] == '#' || s[0] == '|' || s[0] == '!' || s[0] == '}')
}

/// An input that is a single heading line: a leading run of `=` signs and no
/// newline.
pub open spec fn heading_line(s: Seq<char>) -> bool {
    s.len() > 0 && s[0] == '=' && forall|k: int| 0 <= k < s.len() ==> #[trigger] s[k] != '\n'
}

/// An input that is a single list line: a leading list marker and no
/// newline.
pub open spec fn list_line_input(s: Seq<char>) -> bool {
    s.len() > 0 && (s[0] == '*' || s[0] == '#') && forall|k: int|
        0 <= k < s.len() ==> #[trigger] s[k] != '\n'
}

/// Closes the paragraph under construction, if any, and appends it to the
/// sections.
fn flush_paragraph(sections: &mut Vec<Section>, para: &mut Vec<char>)
    requires
        wf_sections(old(sections)@),
    ensures
        wf_sections(final (sections)@),
        final (para)@.len() == 0,
        old(para)@.len() == 0 ==> final (sections)@ == old(sections)@,
        old(para)@.len() > 0 ==> final (sections)@.len() == old(sections)@.len() + 1
            && final (sections)@.drop_last() == old(sections)@
            && (final (sections)@.last() matches Section::Paragraph(ts)
            && views_of(ts@) == tokenize_spec(old(para)@)),
{
    if para.len() > 0 {
        let n = para.len();
        let toks = tokenize_chars(para, 0, n);
        proof {
            assert(para@.subrange(0, n as int) =~= para@);
            lemma_tokenize_canonical(para@.subrange(0, n as int));
            lemma_wf_sections_push(sections@, Section::Paragraph(toks));
        }
        sections.push(Section::Paragraph(toks));
        *para = Vec::new();
        assert(sections@.drop_last() =~= old(sections)@);
    }
}

/// Parses fetched article data: the title is tokenized as-is, and the raw
/// body markup is broken into headings, paragraphs, and (possibly nested)
/// lists, with structural markup stripped.  Malformed input degrades to
/// paragraph text; parsing never fails.  Empty body markup yields a document
/// with no content sections.
pub fn parse(title: &str, content: &str) -> (a: WikiArticle)
    ensures
        views_of(a.title@) == tokenize_spec(title@),
        wf_article(a),
        content@.len() == 0 ==> a.content@.len() == 0,
        plain_prose(content@) ==> a.content@.len() == 1 && (a.content@[0]
            matches Section::Paragraph(ts) && views_of(ts@) == tokenize_spec(content@)),
        heading_line(content@) ==> a.content@.len() == 1 && (a.content@[0]
            matches Section::Heading(level, _ts) && level as nat == clamp_level(eq_run(content@))),
        list_line_input(content@) ==> a.content@.len() == 1 && (content@[0] == '*' ==> (
        a.content@[0] matches Section::UnorderedList(items) && items@.len() == 1)) && (content@[0]
            == '#' ==> (a.content@[0] matches Section::OrderedList(items) && items@.len() == 1)),
{
    let title_tokens = tokenize(title);
    proof {
        lemma_tokenize_canonical(title@);
    }
    let chars = str_chars(content);
    let lines = split_lines(&chars);
    let mut sections: Vec<Section> = Vec::new();
    let mut para: Vec<char> = Vec::new();
    let mut i: usize = 0;
    while i < lines.len()
        invariant
            i <= lines@.len(),
            wf_sections(sections@),
            lines@.len() == 0 ==> sections@.len() == 0 && para@.len() == 0,
            plain_prose(content@) || heading_line(content@) || list_line_input(content@)
                ==> lines@.len() == 1 && lines@[0]@ == content@,
            plain_prose(content@) && i == 0 ==> sections@.len() == 0 && para@.len() == 0,
            plain_prose(content@) && i > 0 ==> sections@.len() == 0 && para@ == content@,
            heading_line(content@) && i == 0 ==> sections@.len() == 0 && para@.len() == 0,
            heading_line(content@) && i > 0 ==> para@.len() == 0 && sections@.len() == 1 && (
            sections@[0] matches Section::Heading(level, _ts) && level as nat == clamp_level(
                eq_run(content@),
            )),
            list_line_input(content@) && i == 0 ==> sections@.len() == 0 && para@.len() == 0,
            list_line_input(content@) && i > 0 ==> para@.len() == 0 && sections@.len() == 1 && (
            content@[0] == '*' ==> (sections@[0] matches Section::UnorderedList(items)
                && items@.len() == 1)) && (content@[0] == '#' ==> (sections@[0]
                matches Section::OrderedList(items) && items@.len() == 1)),
        decreases lines@.len() - i,
    {
        let line = &lines[i];
        if is_blank(line) {
            flush_paragraph(&mut sections, &mut para);
            i += 1;
        } else {
            let c0 = line[0];
            if c0 == '=' {
                // a heading: the leading `=` run gives the level, clamped
                // into 1..=6; surrounding `=` runs and spaces are dropped
                flush_paragraph(&mut sections, &mut para);
                let mut e: usize = 1;
                while e < line.len() && line[e] == '='
                    invariant
                        1 <= e <= line@.len(),
                        line@.len() > 0 && line@[0] == '=',
                        forall|k: int| 0 <= k < e ==> line@[k] == '=',
                    decreases line@.len() - e,
                {
                    e += 1;
                }
                proof {
                    lemma_eq_run_is(line@, e as int);
                }
                let mut hi: usize = line.len();
                while hi > e && line[hi - 1] == '='
                    invariant
                        e <= hi <= line@.len(),
                    decreases hi,
                {
                    hi -= 1;
                }
                let mut lo: usize = e;
                while lo < hi && (line[lo] == ' ' || line[lo] == '\t')
                    invariant
                        e <= lo <= hi <= line@.len(),
                    decreases hi - lo,
                {
                    lo += 1;
                }
                while hi > lo && (line[hi - 1] == ' ' || line[hi - 1] == '\t')
                    invariant
                        lo <= hi <= line@.len(),
                    decreases hi,
                {
                    hi -= 1;
                }
                let level: usize = if e > 6 {
                    6
                } else {
                    e
                };
                let stripped = strip_markup_range(line, lo, hi);
                let n = stripped.len();
                let toks = tokenize_chars(&stripped, 0, n);
                let sec = Section::Heading(level, toks);
                proof {
                    lemma_tokenize_canonical(stripped@.subrange(0, n as int));
                    lemma_wf_sections_push(sections@, sec);
                }
                sections.push(sec);
                i += 1;
            } else if c0 == '*' || c0 == '#' {
                // a list block: the maximal run of list lines
                flush_paragraph(&mut sections, &mut para);
                let mut m: usize = i + 1;
                while m < lines.len() && is_list_line(&lines[m])
                    invariant
                        i + 1 <= m <= lines@.len(),
                    decreases lines@.len() - m,
                {
                    m += 1;
                }
                let items = parse_list_items(&lines, i, m, 1);
                let sec = if c0 == '#' {
                    Section::OrderedList(items)
                } else {
                    Section::UnorderedList(items)
                };
                proof {
                    lemma_wf_sections_push(sections@, sec);
                }
                sections.push(sec);
                i = m;
            } else if c0 == '{' || c0 == '|' || c0 == '!' || c0 == '}' {
                // table or template structure: no readable text
                flush_paragraph(&mut sections, &mut para);
                i += 1;
            } else {
                // a text line: its readable text joins the open paragraph
                let stripped = strip_markup_range(line, 0, line.len());
                proof {
                    if plain_prose(content@) {
                        assert(line@.subrange(0, line@.len() as int) =~= line@);
                    }
                }
                if stripped.len() > 0 {
                    if para.len() > 0 {
                        para.push(' ');
                    }
                    append_chars(&mut para, &stripped);
                }
                i += 1;
            }
        }
    }
    flush_paragraph(&mut sections, &mut para);
    WikiArticle { title: title_tokens, content: sections }
}

} // verus!

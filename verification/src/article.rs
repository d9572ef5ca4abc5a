//! The structured document: a tokenized title and a sequence of sections,
//! where a section is a heading, a paragraph, or an ordered or unordered
//! list whose items may themselves nest further sections.

use vstd::prelude::*;

use crate::norm::lower_of;
use crate::tokenizer::{canonical, views_of, SpecToken, Token};

verus! {

/// A structural block of a document.  Lists carry one entry per item; each
/// item's body is itself an ordered sequence of sections, so a list item may
/// contain headings, paragraphs, or further lists.  Ordered-list numbering is
/// positional and derived at render time, not stored.
#[derive(Debug)]
pub enum Section {
    Heading(usize, Vec<Token>),
    Paragraph(Vec<Token>),
    UnorderedList(Vec<Vec<Section>>),
    OrderedList(Vec<Vec<Section>>),
}

/// A parsed article: the tokenized title and the body sections.  It is owned
/// by the game engine once loaded and replaced wholesale on reload, never
/// mutated in place.
#[derive(Debug)]
pub struct WikiArticle {
    pub title: Vec<Token>,
    pub content: Vec<Section>,
}

/// Well-formedness of one section: heading levels lie in 1..=6, and every
/// token run is a canonical tokenization of its own text.
pub open spec fn wf_section(s: Section) -> bool
    decreases s,
{
    match s {
        Section::Heading(level, ts) => 1 <= level <= 6 && canonical(views_of(ts@)),
        Section::Paragraph(ts) => canonical(views_of(ts@)),
        Section::UnorderedList(items) => wf_items(items@),
        Section::OrderedList(items) => wf_items(items@),
    }
}

/// Well-formedness of a list's items.
pub open spec fn wf_items(items: Seq<Vec<Section>>) -> bool
    decreases items,
{
    if items.len() == 0 {
        true
    } else {
        wf_items(items.drop_last()) && wf_sections(items.last()@)
    }
}

/// Well-formedness of a sequence of sections.
pub open spec fn wf_sections(ss: Seq<Section>) -> bool
    decreases ss,
{
    if ss.len() == 0 {
        true
    } else {
        wf_sections(ss.drop_last()) && wf_section(ss.last())
    }
}

/// Well-formedness of a whole article.
pub open spec fn wf_article(a: WikiArticle) -> bool {
    canonical(views_of(a.title@)) && wf_sections(a.content@)
}

/// How often a `Word` token whose lowercased text equals `w` occurs in a
/// token sequence.
pub open spec fn count_in_tokens(w: Seq<char>, ts: Seq<SpecToken>) -> nat
    decreases ts,
{
    if ts.len() == 0 {
        0
    } else {
        count_in_tokens(w, ts.drop_last()) + (if ts.last().word && lower_of(ts.last().text) == w {
            1nat
        } else {
            0nat
        })
    }
}

/// How often the word occurs in one section, descending into list items.
pub open spec fn count_in_section(w: Seq<char>, s: Section) -> nat
    decreases s,
{
    match s {
        Section::Heading(_level, ts) => count_in_tokens(w, views_of(ts@)),
        Section::Paragraph(ts) => count_in_tokens(w, views_of(ts@)),
        Section::UnorderedList(items) => count_in_items(w, items@),
        Section::OrderedList(items) => count_in_items(w, items@),
    }
}

/// How often the word occurs in a list's items.
pub open spec fn count_in_items(w: Seq<char>, items: Seq<Vec<Section>>) -> nat
    decreases items,
{
    if items.len() == 0 {
        0
    } else {
        count_in_items(w, items.drop_last()) + count_in_sections(w, items.last()@)
    }
}

/// How often the word occurs in a sequence of sections.
pub open spec fn count_in_sections(w: Seq<char>, ss: Seq<Section>) -> nat
    decreases ss,
{
    if ss.len() == 0 {
        0
    } else {
        count_in_sections(w, ss.drop_last()) + count_in_section(w, ss.last())
    }
}

/// How often the word occurs in the whole article: title tokens plus every
/// section of the content, recursively.
pub open spec fn count_in_article(w: Seq<char>, a: WikiArticle) -> nat {
    count_in_tokens(w, views_of(a.title@)) + count_in_sections(w, a.content@)
}

/// Appending a well-formed section keeps a section sequence well-formed.
pub proof fn lemma_wf_sections_push(ss: Seq<Section>, s: Section)
    requires
        wf_sections(ss),
        wf_section(s),
    ensures
        wf_sections(ss.push(s)),
{
    assert(ss.push(s).drop_last() =~= ss);
    assert(ss.push(s).last() == s);
}

/// Appending a well-formed item keeps a list's items well-formed.
pub proof fn lemma_wf_items_push(items: Seq<Vec<Section>>, item: Vec<Section>)
    requires
        wf_items(items),
        wf_sections(item@),
    ensures
        wf_items(items.push(item)),
{
    assert(items.push(item).drop_last() =~= items);
    assert(items.push(item).last() == item);
}

/// A token-sequence count never exceeds the number of tokens.
pub proof fn lemma_count_in_tokens_le(w: Seq<char>, ts: Seq<SpecToken>)
    ensures
        count_in_tokens(w, ts) <= ts.len(),
    decreases ts,
{
    if ts.len() > 0 {
        lemma_count_in_tokens_le(w, ts.drop_last());
    }
}

} // verus!

//! The structural events of a markdown document, and the parser that yields them.

use vstd::prelude::*;
use pulldown_cmark::{CodeBlockKind, Event, Parser, Tag};

verus! {

/// One unit of a markdown document's structure, in document order.
#[derive(Debug, Clone, PartialEq, Eq)]
pub enum MdEvent {
    /// Start of a heading of the given level (1 to 6).
    HeadingStart(usize),
    HeadingEnd,
    ParagraphStart,
    ParagraphEnd,
    BlockquoteStart,
    ListStart,
    ListEnd,
    ItemStart,
    /// Start of a fenced code block, with its language tag (possibly empty).
    FencedCodeStart(String),
    /// Start of an indented code block.
    IndentedCodeStart,
    CodeBlockEnd,
    /// A run of literal text.
    Text(String),
    /// An inline code span.
    InlineCode(String),
    /// Start or end of strong emphasis.
    Strong,
    /// Start or end of emphasis.
    Emphasis,
    SoftBreak,
    HardBreak,
    /// Anything else; ignored.
    Other,
}

/// pulldown-cmark's parser event, carried opaquely from the parser to `event_of`.
#[verifier::external_type_specification]
#[verifier::external_body]
pub struct ExEvent<'a>(Event<'a>);

/// pulldown-cmark's element tag, carried opaquely into `start_of` and `end_of`.
#[verifier::external_type_specification]
#[verifier::external_body]
pub struct ExTag<'a>(Tag<'a>);

/// The event stream that pulldown-cmark's parser yields for a document.
pub uninterp spec fn markdown_events(text: Seq<char>) -> Seq<MdEvent>;

/// Relies on `pulldown_cmark::Parser::new`: the events of `text`, which depend on
/// the text alone.
#[verifier::external_body]
pub(crate) fn parse_markdown(text: &str) -> (r: Vec<MdEvent>)
    ensures
        r@ == markdown_events(text@),
{
    Parser::new(text).map(event_of).collect()
}

/// Relies on `pulldown_cmark::Event`: tells its variants apart and moves their text out.
#[verifier::external_body]
fn event_of(e: Event) -> MdEvent {
    match e {
        Event::Start(t) => start_of(t),
        Event::End(t) => end_of(t),
        Event::Text(s) => MdEvent::Text(s.to_string()),
        Event::Code(s) => MdEvent::InlineCode(s.to_string()),
        Event::SoftBreak => MdEvent::SoftBreak,
        Event::HardBreak => MdEvent::HardBreak,
        _ => MdEvent::Other,
    }
}

/// Relies on `pulldown_cmark::Tag`: tells apart the tags that open an element.
#[verifier::external_body]
fn start_of(t: Tag) -> MdEvent {
    match t {
        Tag::Heading(level, ..) => MdEvent::HeadingStart(level as usize),
        Tag::Paragraph => MdEvent::ParagraphStart,
        Tag::BlockQuote => MdEvent::BlockquoteStart,
        Tag::List(..) => MdEvent::ListStart,
        Tag::Item => MdEvent::ItemStart,
        Tag::Strong => MdEvent::Strong,
        Tag::Emphasis => MdEvent::Emphasis,
        Tag::CodeBlock(CodeBlockKind::Fenced(lang)) => MdEvent::FencedCodeStart(lang.to_string()),
        Tag::CodeBlock(CodeBlockKind::Indented) => MdEvent::IndentedCodeStart,
        _ => MdEvent::Other,
    }
}

/// Relies on `pulldown_cmark::Tag`: tells apart the tags that close an element.
#[verifier::external_body]
fn end_of(t: Tag) -> MdEvent {
    match t {
        Tag::Heading(..) => MdEvent::HeadingEnd,
        Tag::Paragraph => MdEvent::ParagraphEnd,
        Tag::List(..) => MdEvent::ListEnd,
        Tag::CodeBlock(..) => MdEvent::CodeBlockEnd,
        Tag::Strong => MdEvent::Strong,
        Tag::Emphasis => MdEvent::Emphasis,
        _ => MdEvent::Other,
    }
}

} // verus!

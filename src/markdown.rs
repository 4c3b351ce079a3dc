//! Markdown events as the outline parser sees them, and the tokenizer that produces them.
use pulldown_cmark::{Event, HeadingLevel, MetadataBlockKind, Tag, TagEnd};
use vstd::prelude::*;

verus! {

/// The kind of a markdown element, as carried by its start and end events.
#[derive(Debug, Clone, Copy, PartialEq, Eq, Structural)]
pub enum TagKind {
    Paragraph,
    /// A heading, with its level from 1 to 6.
    Heading(u8),
    BlockQuote,
    CodeBlock,
    HtmlBlock,
    /// A list, `true` when it is ordered.
    List(bool),
    Item,
    FootnoteDefinition,
    Table,
    TableHead,
    TableRow,
    TableCell,
    Emphasis,
    Strong,
    Strikethrough,
    Link,
    Image,
    MetadataBlock(MetadataStyle),
}

/// The fence style of a metadata block.
#[derive(Debug, Clone, Copy, PartialEq, Eq, Structural)]
pub enum MetadataStyle {
    Yaml,
    Pluses,
}

/// One structural event of a markdown document.
#[derive(Debug, Clone, PartialEq)]
pub enum MdEvent {
    /// Start of an element other than a link.
    Start(TagKind),
    /// Start of a link, with its destination as written; it ends with `End(TagKind::Link)`.
    LinkStart(String),
    /// End of an element.
    End(TagKind),
    /// Text or inline code.
    Text(String),
    SoftBreak,
    /// A horizontal rule.
    Rule,
    /// Any other event (HTML, hard breaks, footnote references, task markers).
    Other,
}

/// An event with the byte offset in the source at which it starts.
#[derive(Debug, Clone, PartialEq)]
pub struct Token {
    pub event: MdEvent,
    pub offset: usize,
}

#[verifier::external_type_specification]
#[verifier::external_body]
pub struct ExCowStr<'a>(pulldown_cmark::CowStr<'a>);

#[verifier::external_type_specification]
#[verifier::external_body]
pub struct ExCodeBlockKind<'a>(pulldown_cmark::CodeBlockKind<'a>);

#[verifier::external_type_specification]
#[verifier::external_body]
pub struct ExLinkType(pulldown_cmark::LinkType);

#[verifier::external_type_specification]
#[verifier::external_body]
pub struct ExAlignment(pulldown_cmark::Alignment);

#[verifier::external_type_specification]
pub struct ExMetadataBlockKind(pulldown_cmark::MetadataBlockKind);

#[verifier::external_type_specification]
pub struct ExHeadingLevel(pulldown_cmark::HeadingLevel);

#[verifier::external_type_specification]
pub struct ExTag<'a>(pulldown_cmark::Tag<'a>);

#[verifier::external_type_specification]
pub struct ExTagEnd(pulldown_cmark::TagEnd);

#[verifier::external_type_specification]
pub struct ExEvent<'a>(pulldown_cmark::Event<'a>);

/// Relies on pulldown_cmark's `CowStr::into_string` to hand over the characters of a text
/// event or of a link destination as an owned string.
pub assume_specification<'a>[ pulldown_cmark::CowStr::<'a>::into_string ](
    s: pulldown_cmark::CowStr<'a>,
) -> String;

/// The events that the markdown tokenizer yields for a text, in document order.
pub uninterp spec fn markdown_events(text: Seq<char>) -> Seq<Token>;

/// Relies on pulldown_cmark's `Parser::new(..).into_offset_iter()`: the events of `text`
/// in document order, each with the start of its source range; they depend on the text alone.
#[verifier::external_body]
pub(crate) fn tokenize(text: &str) -> (r: Vec<Token>)
    ensures
        r@ == markdown_events(text@),
{
    pulldown_cmark::Parser::new(text).into_offset_iter().map(
        |(event, range)| Token::from_pulldown(event, range.start),
    ).collect()
}

fn heading_level(h: HeadingLevel) -> (r: u8)
    ensures
        1 <= r <= 6,
        (r == 1) == (h is H1),
{
    match h {
        HeadingLevel::H1 => 1,
        HeadingLevel::H2 => 2,
        HeadingLevel::H3 => 3,
        HeadingLevel::H4 => 4,
        HeadingLevel::H5 => 5,
        HeadingLevel::H6 => 6,
    }
}

fn metadata_style(k: MetadataBlockKind) -> (r: MetadataStyle)
    ensures
        (r is Yaml) == (k is YamlStyle),
{
    match k {
        MetadataBlockKind::YamlStyle => MetadataStyle::Yaml,
        MetadataBlockKind::PlusesStyle => MetadataStyle::Pluses,
    }
}

/// The kind that an end event closes.
fn end_kind(t: TagEnd) -> (r: TagKind)
    ensures
        (r is Paragraph) == (t is Paragraph),
        (r is Heading) == (t is Heading),
        (r == TagKind::Heading(1)) == (t == TagEnd::Heading(HeadingLevel::H1)),
        (r is List) == (t is List),
        (r is Item) == (t is Item),
        (r is Link) == (t is Link),
{
    match t {
        TagEnd::Paragraph => TagKind::Paragraph,
        TagEnd::Heading(level) => TagKind::Heading(heading_level(level)),
        TagEnd::BlockQuote => TagKind::BlockQuote,
        TagEnd::CodeBlock => TagKind::CodeBlock,
        TagEnd::HtmlBlock => TagKind::HtmlBlock,
        TagEnd::List(ordered) => TagKind::List(ordered),
        TagEnd::Item => TagKind::Item,
        TagEnd::FootnoteDefinition => TagKind::FootnoteDefinition,
        TagEnd::Table => TagKind::Table,
        TagEnd::TableHead => TagKind::TableHead,
        TagEnd::TableRow => TagKind::TableRow,
        TagEnd::TableCell => TagKind::TableCell,
        TagEnd::Emphasis => TagKind::Emphasis,
        TagEnd::Strong => TagKind::Strong,
        TagEnd::Strikethrough => TagKind::Strikethrough,
        TagEnd::Link => TagKind::Link,
        TagEnd::Image => TagKind::Image,
        TagEnd::MetadataBlock(kind) => TagKind::MetadataBlock(metadata_style(kind)),
    }
}

/// The event that a start tag opens; links keep their destination.
fn start_event(t: Tag<'_>) -> (r: MdEvent)
    ensures
        (r is LinkStart) == (t is Link),
        r is Start || r is LinkStart,
        (r == MdEvent::Start(TagKind::Paragraph)) == (t is Paragraph),
        (r is Start && r->Start_0 is List) == (t is List),
        (r is Start && r->Start_0 is Item) == (t is Item),
        (r is Start && r->Start_0 is Heading) == (t is Heading),
{
    let kind = match t {
        Tag::Link { dest_url, .. } => {
            return MdEvent::LinkStart(dest_url.into_string());
        },
        Tag::Paragraph => TagKind::Paragraph,
        Tag::Heading { level, .. } => TagKind::Heading(heading_level(level)),
        Tag::BlockQuote => TagKind::BlockQuote,
        Tag::CodeBlock(_) => TagKind::CodeBlock,
        Tag::HtmlBlock => TagKind::HtmlBlock,
        Tag::List(first) => TagKind::List(first.is_some()),
        Tag::Item => TagKind::Item,
        Tag::FootnoteDefinition(_) => TagKind::FootnoteDefinition,
        Tag::Table(_) => TagKind::Table,
        Tag::TableHead => TagKind::TableHead,
        Tag::TableRow => TagKind::TableRow,
        Tag::TableCell => TagKind::TableCell,
        Tag::Emphasis => TagKind::Emphasis,
        Tag::Strong => TagKind::Strong,
        Tag::Strikethrough => TagKind::Strikethrough,
        Tag::Image { .. } => TagKind::Image,
        Tag::MetadataBlock(kind) => TagKind::MetadataBlock(metadata_style(kind)),
    };
    MdEvent::Start(kind)
}

impl Token {
    /// The event of the tokenizer, kept as far as the outline parser reads it.
    fn from_pulldown(event: Event<'_>, offset: usize) -> (r: Token)
        ensures
            r.offset == offset,
            (r.event is Start || r.event is LinkStart) == (event is Start),
            (r.event is End) == (event is End),
            (r.event is Text) == (event is Text || event is Code),
            (r.event is SoftBreak) == (event is SoftBreak),
            (r.event is Rule) == (event is Rule),
    {
        let event = match event {
            Event::Start(tag) => start_event(tag),
            Event::End(tag) => MdEvent::End(end_kind(tag)),
            Event::Text(text) => MdEvent::Text(text.into_string()),
            Event::Code(code) => MdEvent::Text(code.into_string()),
            Event::SoftBreak => MdEvent::SoftBreak,
            Event::Rule => MdEvent::Rule,
            _ => MdEvent::Other,
        };
        Token { event, offset }
    }
}

} // verus!

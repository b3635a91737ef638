//! The event vocabulary of the markdown tokenizer, as plain values.
//!
//! Every tag comes with the text by which the tokenizer writes it, so
//! that a tag that has no place in a document can be shown as it was.

use pulldown_cmark::{CodeBlockKind, Event, Options, Parser, Tag, TagEnd, TextMergeStream};
use vstd::prelude::*;

verus! {

/// The opening of an element.
#[derive(Debug, Clone, PartialEq, Eq)]
pub enum MdTag {
    Paragraph,
    Heading { level: u8 },
    BlockQuote,
    CodeBlock { fenced: Option<String> },
    HtmlBlock,
    List { start: Option<u64> },
    Item,
    Emphasis,
    Strong,
    Link { dest_url: String },
    Image { dest_url: String, title: String, id: String },
    Strikethrough,
    Superscript,
    Subscript,
    MetadataBlock,
    /// Any other element.
    Unexpected,
}

/// The closing of an element.
#[derive(Debug, Clone, Copy, PartialEq, Eq)]
pub enum MdTagEnd {
    Paragraph,
    Heading,
    BlockQuote,
    CodeBlock,
    List,
    Item,
    Emphasis,
    Strong,
    Link,
    Image,
    /// The end of any other element.
    Unexpected,
}

/// One event of the stream.
#[derive(Debug, Clone, PartialEq, Eq)]
pub enum MdEvent {
    /// The opening of an element, with the tag as the tokenizer writes
    /// it.
    Start { tag: MdTag, debug: String },
    /// The closing of an element, with the tag as the tokenizer writes
    /// it.
    End { end: MdTagEnd, debug: String },
    Text(String),
    Code(String),
    SoftBreak,
    HardBreak,
    Rule,
    /// An event that this library does not read, as the tokenizer writes
    /// it.
    Other { debug: String },
}

/// What an [`MdTag`] stands for.
pub enum MdTagView {
    Paragraph,
    Heading { level: u8 },
    BlockQuote,
    CodeBlock { fenced: Option<Seq<char>> },
    HtmlBlock,
    List { start: Option<u64> },
    Item,
    Emphasis,
    Strong,
    Link { dest_url: Seq<char> },
    Image { dest_url: Seq<char>, title: Seq<char>, id: Seq<char> },
    Strikethrough,
    Superscript,
    Subscript,
    MetadataBlock,
    Unexpected,
}

/// What an [`MdEvent`] stands for.
pub enum MdEventView {
    Start { tag: MdTagView, debug: Seq<char> },
    End { end: MdTagEnd, debug: Seq<char> },
    Text(Seq<char>),
    Code(Seq<char>),
    SoftBreak,
    HardBreak,
    Rule,
    Other { debug: Seq<char> },
}

impl MdTagView {
    /// Whether the element holds blocks or stands among blocks.
    pub open spec fn is_container(self) -> bool {
        self is Paragraph || self is Heading || self is BlockQuote || self is CodeBlock
            || self is HtmlBlock || self is List || self is Item
    }
}

impl View for MdTag {
    type V = MdTagView;

    open spec fn view(&self) -> MdTagView {
        match *self {
            MdTag::Paragraph => MdTagView::Paragraph,
            MdTag::Heading { level } => MdTagView::Heading { level },
            MdTag::BlockQuote => MdTagView::BlockQuote,
            MdTag::CodeBlock { fenced } => MdTagView::CodeBlock {
                fenced: match fenced {
                    Some(meta) => Some(meta@),
                    None => None,
                },
            },
            MdTag::HtmlBlock => MdTagView::HtmlBlock,
            MdTag::List { start } => MdTagView::List { start },
            MdTag::Item => MdTagView::Item,
            MdTag::Emphasis => MdTagView::Emphasis,
            MdTag::Strong => MdTagView::Strong,
            MdTag::Link { dest_url } => MdTagView::Link { dest_url: dest_url@ },
            MdTag::Image { dest_url, title, id } => MdTagView::Image {
                dest_url: dest_url@,
                title: title@,
                id: id@,
            },
            MdTag::Strikethrough => MdTagView::Strikethrough,
            MdTag::Superscript => MdTagView::Superscript,
            MdTag::Subscript => MdTagView::Subscript,
            MdTag::MetadataBlock => MdTagView::MetadataBlock,
            MdTag::Unexpected => MdTagView::Unexpected,
        }
    }
}

impl View for MdEvent {
    type V = MdEventView;

    open spec fn view(&self) -> MdEventView {
        match *self {
            MdEvent::Start { tag, debug } => MdEventView::Start { tag: tag@, debug: debug@ },
            MdEvent::End { end, debug } => MdEventView::End { end, debug: debug@ },
            MdEvent::Text(text) => MdEventView::Text(text@),
            MdEvent::Code(text) => MdEventView::Code(text@),
            MdEvent::SoftBreak => MdEventView::SoftBreak,
            MdEvent::HardBreak => MdEventView::HardBreak,
            MdEvent::Rule => MdEventView::Rule,
            MdEvent::Other { debug } => MdEventView::Other { debug: debug@ },
        }
    }
}

/// The views of a sequence of events.
pub open spec fn event_views(events: Seq<MdEvent>) -> Seq<MdEventView> {
    events.map_values(|e: MdEvent| e@)
}

/// `pulldown_cmark::Tag`, the opening tag of the tokenizer. Nothing is
/// known of a value but what the functions below read from it.
#[verifier::external_type_specification]
#[verifier::external_body]
pub struct ExTag<'a>(Tag<'a>);

/// `pulldown_cmark::TagEnd`, the closing tag of the tokenizer. Nothing is
/// known of a value but what the functions below read from it.
#[verifier::external_type_specification]
#[verifier::external_body]
pub struct ExTagEnd(TagEnd);

/// An event of the tokenizer, its tags not yet read.
pub(crate) enum RawEvent<'a> {
    Start { tag: Tag<'a>, debug: String },
    End { end: TagEnd, debug: String },
    Text(String),
    Code(String),
    SoftBreak,
    HardBreak,
    Rule,
    Other { debug: String },
}

/// What this library reads from an opening tag of `pulldown_cmark`.
pub uninterp spec fn tag_model(t: Tag<'_>) -> MdTagView;

/// What this library reads from a closing tag of `pulldown_cmark`.
pub uninterp spec fn tag_end_model(t: TagEnd) -> MdTagEnd;

/// The events that `pulldown_cmark` reads from a text, adjacent text
/// events merged. `options` are the bits of the extensions of the markup
/// that are on; 0 is the markup without extensions.
pub uninterp spec fn md_events(md: Seq<char>, options: u32) -> Seq<MdEventView>;

impl<'a> RawEvent<'a> {
    /// What the event stands for.
    pub(crate) open spec fn model(self) -> MdEventView {
        match self {
            RawEvent::Start { tag, debug } => MdEventView::Start {
                tag: tag_model(tag),
                debug: debug@,
            },
            RawEvent::End { end, debug } => MdEventView::End {
                end: tag_end_model(end),
                debug: debug@,
            },
            RawEvent::Text(text) => MdEventView::Text(text@),
            RawEvent::Code(text) => MdEventView::Code(text@),
            RawEvent::SoftBreak => MdEventView::SoftBreak,
            RawEvent::HardBreak => MdEventView::HardBreak,
            RawEvent::Rule => MdEventView::Rule,
            RawEvent::Other { debug } => MdEventView::Other { debug: debug@ },
        }
    }
}

/// The models of a sequence of raw events.
pub(crate) open spec fn raw_models(events: Seq<RawEvent<'_>>) -> Seq<MdEventView> {
    events.map_values(|e: RawEvent<'_>| e.model())
}

/// Runs `pulldown_cmark::Parser::new_ext` on `md` with the options whose
/// bits are given, merges adjacent text events with
/// `pulldown_cmark::TextMergeStream` and collects what comes out, one raw
/// event for each event. A tag is kept with its `Debug` text beside it,
/// and an event that is none of the first seven kinds by its `Debug` text
/// alone. The claim: the events depend on the text and the options alone.
#[verifier::external_body]
fn raw_events<'a>(md: &'a str, options: u32) -> (r: Vec<RawEvent<'a>>)
    ensures
        raw_models(r@) == md_events(md@, options),
{
    let parser = Parser::new_ext(md, Options::from_bits_truncate(options));
    let events = TextMergeStream::new(parser).map(|event| match event {
        Event::Start(tag) => RawEvent::Start { debug: format!("{tag:?}"), tag },
        Event::End(end) => RawEvent::End { debug: format!("{end:?}"), end },
        Event::Text(text) => RawEvent::Text(text.into_string()),
        Event::Code(text) => RawEvent::Code(text.into_string()),
        Event::SoftBreak => RawEvent::SoftBreak,
        Event::HardBreak => RawEvent::HardBreak,
        Event::Rule => RawEvent::Rule,
        other => RawEvent::Other { debug: format!("{other:?}") },
    });
    events.collect()
}

/// Reads a `pulldown_cmark::Tag` that opens a container: a paragraph, a
/// heading with its level, a quote, a code block with what followed its
/// fence, an HTML block, a list with its first number, or an item. Gives
/// `None` for every other tag.
#[verifier::external_body]
fn container_tag(t: &Tag<'_>) -> (r: Option<MdTag>)
    ensures
        match r {
            Some(tag) => tag@ == tag_model(*t) && tag@.is_container(),
            None => !tag_model(*t).is_container(),
        },
{
    match t {
        Tag::Paragraph => Some(MdTag::Paragraph),
        Tag::Heading { level, .. } => Some(MdTag::Heading { level: *level as u8 }),
        Tag::BlockQuote(_) => Some(MdTag::BlockQuote),
        Tag::CodeBlock(CodeBlockKind::Fenced(s)) => {
            Some(MdTag::CodeBlock { fenced: Some(s.to_string()) })
        },
        Tag::CodeBlock(CodeBlockKind::Indented) => Some(MdTag::CodeBlock { fenced: None }),
        Tag::HtmlBlock => Some(MdTag::HtmlBlock),
        Tag::List(start) => Some(MdTag::List { start: *start }),
        Tag::Item => Some(MdTag::Item),
        _ => None,
    }
}

/// Reads a `pulldown_cmark::Tag` that opens no container, each tag as
/// itself: emphasis, strong emphasis, a link with its address, an image
/// with its address, title and reference id, strikethrough, superscript,
/// subscript and metadata block. Every other tag is `Unexpected`.
#[verifier::external_body]
fn span_tag(t: &Tag<'_>) -> (r: MdTag)
    ensures
        !tag_model(*t).is_container() ==> r@ == tag_model(*t),
{
    match t {
        Tag::Emphasis => MdTag::Emphasis,
        Tag::Strong => MdTag::Strong,
        Tag::Link { dest_url, .. } => MdTag::Link { dest_url: dest_url.to_string() },
        Tag::Image { dest_url, title, id, .. } => MdTag::Image {
            dest_url: dest_url.to_string(),
            title: title.to_string(),
            id: id.to_string(),
        },
        Tag::Strikethrough => MdTag::Strikethrough,
        Tag::Superscript => MdTag::Superscript,
        Tag::Subscript => MdTag::Subscript,
        Tag::MetadataBlock(_) => MdTag::MetadataBlock,
        _ => MdTag::Unexpected,
    }
}

/// Reads a `pulldown_cmark::TagEnd`: the ten kinds that this library
/// closes elements on, each as itself. Every other kind is `Unexpected`.
#[verifier::external_body]
fn closing_tag(t: &TagEnd) -> (r: MdTagEnd)
    ensures
        r == tag_end_model(*t),
{
    match t {
        TagEnd::Paragraph => MdTagEnd::Paragraph,
        TagEnd::Heading(_) => MdTagEnd::Heading,
        TagEnd::BlockQuote(_) => MdTagEnd::BlockQuote,
        TagEnd::CodeBlock => MdTagEnd::CodeBlock,
        TagEnd::List(_) => MdTagEnd::List,
        TagEnd::Item => MdTagEnd::Item,
        TagEnd::Emphasis => MdTagEnd::Emphasis,
        TagEnd::Strong => MdTagEnd::Strong,
        TagEnd::Link => MdTagEnd::Link,
        TagEnd::Image => MdTagEnd::Image,
        _ => MdTagEnd::Unexpected,
    }
}

/// Reads the tags of a raw event.
fn read_event(raw: RawEvent<'_>) -> (r: MdEvent)
    ensures
        r@ == raw.model(),
{
    match raw {
        RawEvent::Start { tag, debug } => match container_tag(&tag) {
            Some(t) => MdEvent::Start { tag: t, debug },
            None => MdEvent::Start { tag: span_tag(&tag), debug },
        },
        RawEvent::End { end, debug } => MdEvent::End { end: closing_tag(&end), debug },
        RawEvent::Text(text) => MdEvent::Text(text),
        RawEvent::Code(text) => MdEvent::Code(text),
        RawEvent::SoftBreak => MdEvent::SoftBreak,
        RawEvent::HardBreak => MdEvent::HardBreak,
        RawEvent::Rule => MdEvent::Rule,
        RawEvent::Other { debug } => MdEvent::Other { debug },
    }
}

/// Reads a markdown text into events, with the extensions of the markup
/// whose bits are given.
pub fn tokenize_with(md: &str, options: u32) -> (events: Vec<MdEvent>)
    ensures
        event_views(events@) == md_events(md@, options),
{
    let raw = raw_events(md, options);
    let ghost all = raw@;
    let mut events: Vec<MdEvent> = Vec::new();
    for e in it: raw
        invariant
            it.seq() == all,
            event_views(events@) == raw_models(all.take(it.index())),
    {
        let event = read_event(e);
        proof {
            let done = all.take(it.index());
            assert(all.take(it.index() + 1) == done.push(e));
            assert(raw_models(done.push(e)) =~= raw_models(done).push(e.model()));
            assert(event_views(events@.push(event)) =~= event_views(events@).push(event@));
        }
        events.push(event);
    }
    assert(all.take(all.len() as int) == all);
    events
}

/// Reads a markdown text into events, without extensions of the markup.
pub fn tokenize(md: &str) -> (events: Vec<MdEvent>)
    ensures
        event_views(events@) == md_events(md@, 0),
{
    tokenize_with(md, 0)
}

} // verus!

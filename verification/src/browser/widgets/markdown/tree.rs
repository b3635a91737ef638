//! The document tree: blocks that hold inline parts, and its builder.

use vstd::prelude::*;
use vstd::string::StringExecFns;
use crate::browser::widgets::markdown::events::{
    event_views, md_events, tokenize, MdEvent, MdEventView, MdTag, MdTagEnd, MdTagView,
};
use crate::browser::widgets::markdown::notes::{
    block_form, block_text, event_form, event_text, inline_form, inline_list_form,
    inline_list_text, inline_text, wrapped,
};

verus! {

/// How a run of inline parts is styled.
#[derive(Debug, Clone, Copy, PartialEq, Eq)]
pub enum Style {
    Bold,
    Italics,
}

/// A simple text link.
#[derive(Clone, Debug, PartialEq, Eq)]
pub struct Link {
    pub href: String,
    pub text: String,
}

/// An image, shown by its alternative text.
#[derive(Clone, Debug, PartialEq, Eq)]
pub struct Image {
    pub src: String,
    /// Shown in place of the image.
    pub alt: String,
    /// Shown on hover.
    pub title: String,
}

/// A piece of text inside a block.
#[derive(Debug, PartialEq, Eq)]
pub enum Inline {
    Text(String),
    Code(String),
    Link(Link),
    Image(Image),
    /// An image inside a link. The text of the link is empty.
    LinkedImage { link: Link, image: Image },
    Styled { style: Style, parts: Vec<Inline> },
}

/// A block of a document.
#[derive(Debug, PartialEq, Eq)]
pub enum Block {
    Heading { level: u8, text: String },
    CodeBlock {
        /// What followed the opening fence, if the block was fenced.
        fenced: Option<String>,
        text: String,
    },
    BlockQuote { blocks: Vec<Block> },
    P { parts: Vec<Inline> },
    /// Inline parts that stand outside any paragraph. They are shown as a
    /// block, but without the spacing that follows a paragraph.
    PseudoP { parts: Vec<Inline> },
    /// Holds list items and nested lists.
    List { start_num: Option<u64>, blocks: Vec<Block> },
    ListItem { blocks: Vec<Block> },
    Hr,
}

/// A parsed document.
#[derive(Debug, PartialEq, Eq)]
pub struct Parsed {
    pub blocks: Vec<Block>,
}

/// What a [`Link`] stands for.
pub struct LinkView {
    pub href: Seq<char>,
    pub text: Seq<char>,
}

/// What an [`Image`] stands for.
pub struct ImageView {
    pub src: Seq<char>,
    pub alt: Seq<char>,
    pub title: Seq<char>,
}

/// What an [`Inline`] stands for.
pub enum InlineView {
    Text(Seq<char>),
    Code(Seq<char>),
    Link(LinkView),
    Image(ImageView),
    LinkedImage { link: LinkView, image: ImageView },
    Styled { style: Style, parts: Seq<InlineView> },
}

/// What a [`Block`] stands for.
pub enum BlockView {
    Heading { level: u8, text: Seq<char> },
    CodeBlock { fenced: Option<Seq<char>>, text: Seq<char> },
    BlockQuote { blocks: Seq<BlockView> },
    P { parts: Seq<InlineView> },
    PseudoP { parts: Seq<InlineView> },
    List { start_num: Option<u64>, blocks: Seq<BlockView> },
    ListItem { blocks: Seq<BlockView> },
    Hr,
}

impl View for Link {
    type V = LinkView;

    open spec fn view(&self) -> LinkView {
        LinkView { href: self.href@, text: self.text@ }
    }
}

impl View for Image {
    type V = ImageView;

    open spec fn view(&self) -> ImageView {
        ImageView { src: self.src@, alt: self.alt@, title: self.title@ }
    }
}

impl Inline {
    /// The model of an inline part.
    pub open spec fn model(self) -> InlineView
        decreases self,
    {
        match self {
            Inline::Text(text) => InlineView::Text(text@),
            Inline::Code(text) => InlineView::Code(text@),
            Inline::Link(link) => InlineView::Link(link@),
            Inline::Image(image) => InlineView::Image(image@),
            Inline::LinkedImage { link, image } => InlineView::LinkedImage {
                link: link@,
                image: image@,
            },
            Inline::Styled { style, parts } => InlineView::Styled {
                style,
                parts: inline_models(parts@),
            },
        }
    }
}

/// The models of a sequence of inline parts.
pub open spec fn inline_models(parts: Seq<Inline>) -> Seq<InlineView>
    decreases parts,
{
    if parts.len() == 0 {
        Seq::empty()
    } else {
        inline_models(parts.drop_last()).push(parts.last().model())
    }
}

impl Block {
    /// The model of a block.
    pub open spec fn model(self) -> BlockView
        decreases self,
    {
        match self {
            Block::Heading { level, text } => BlockView::Heading { level, text: text@ },
            Block::CodeBlock { fenced, text } => BlockView::CodeBlock {
                fenced: match fenced {
                    Some(meta) => Some(meta@),
                    None => None,
                },
                text: text@,
            },
            Block::BlockQuote { blocks } => BlockView::BlockQuote { blocks: block_models(blocks@) },
            Block::P { parts } => BlockView::P { parts: inline_models(parts@) },
            Block::PseudoP { parts } => BlockView::PseudoP { parts: inline_models(parts@) },
            Block::List { start_num, blocks } => BlockView::List {
                start_num,
                blocks: block_models(blocks@),
            },
            Block::ListItem { blocks } => BlockView::ListItem { blocks: block_models(blocks@) },
            Block::Hr => BlockView::Hr,
        }
    }
}

/// The models of a sequence of blocks.
pub open spec fn block_models(blocks: Seq<Block>) -> Seq<BlockView>
    decreases blocks,
{
    if blocks.len() == 0 {
        Seq::empty()
    } else {
        block_models(blocks.drop_last()).push(blocks.last().model())
    }
}

impl View for Inline {
    type V = InlineView;

    open spec fn view(&self) -> InlineView {
        self.model()
    }
}

impl View for Block {
    type V = BlockView;

    open spec fn view(&self) -> BlockView {
        self.model()
    }
}

impl View for Parsed {
    type V = Seq<BlockView>;

    open spec fn view(&self) -> Seq<BlockView> {
        block_models(self.blocks@)
    }
}

/// The models of inline parts grow with the parts.
pub proof fn lemma_inline_models_push(parts: Seq<Inline>, part: Inline)
    ensures
        inline_models(parts.push(part)) == inline_models(parts).push(part.model()),
{
    assert(parts.push(part).drop_last() == parts);
}

/// The models of blocks grow with the blocks.
pub proof fn lemma_block_models_push(blocks: Seq<Block>, block: Block)
    ensures
        block_models(blocks.push(block)) == block_models(blocks).push(block.model()),
{
    assert(blocks.push(block).drop_last() == blocks);
}

/// The element whose end closes a run of blocks.
#[derive(Debug, Clone, Copy, PartialEq, Eq)]
pub enum Stop {
    /// Nothing closes the run but the end of the events.
    Never,
    Paragraph,
    BlockQuote,
    List,
    Item,
    Emphasis,
    Strong,
    Link,
    Image,
}

/// Whether `end` closes a run that waits for `stop`.
pub open spec fn closes(stop: Stop, end: MdTagEnd) -> bool {
    match stop {
        Stop::Never => false,
        Stop::Paragraph => end is Paragraph,
        Stop::BlockQuote => end is BlockQuote,
        Stop::List => end is List,
        Stop::Item => end is Item,
        Stop::Emphasis => end is Emphasis,
        Stop::Strong => end is Strong,
        Stop::Link => end is Link,
        Stop::Image => end is Image,
    }
}

/// The note that stands for an event that has no place among blocks.
pub open spec fn stray_note(event: MdEventView) -> Seq<char> {
    "(Unimplemented top-level item: "@ + event_form(event) + ")"@
}

/// The note that stands for an event that has no place in a code block.
pub open spec fn code_note(event: MdEventView) -> Seq<char> {
    "\n\nERROR: Unexpected Markdown Event in code block: "@ + event_form(event) + "\n\n"@
}

/// The note that stands for a block among inline parts.
pub open spec fn block_note(block: BlockView) -> Seq<char> {
    "(Unexpected Inline Block: "@ + block_form(block) + ")"@
}

/// A paragraph that holds one text: the block that a note makes.
pub open spec fn note_block(text: Seq<char>) -> BlockView {
    BlockView::P { parts: seq![InlineView::Text(text)] }
}

/// Adds an inline part that stands outside any paragraph: to the pseudo
/// paragraph that ends the blocks, or else to a new one.
pub open spec fn push_inline(blocks: Seq<BlockView>, part: InlineView) -> Seq<BlockView> {
    if blocks.len() > 0 {
        match blocks.last() {
            BlockView::PseudoP { parts } => blocks.drop_last().push(
                BlockView::PseudoP { parts: parts.push(part) },
            ),
            _ => blocks.push(BlockView::PseudoP { parts: seq![part] }),
        }
    } else {
        blocks.push(BlockView::PseudoP { parts: seq![part] })
    }
}

/// Adds inline parts one by one.
pub open spec fn push_inlines(blocks: Seq<BlockView>, parts: Seq<InlineView>) -> Seq<BlockView>
    decreases parts.len(),
{
    if parts.len() == 0 {
        blocks
    } else {
        push_inline(push_inlines(blocks, parts.drop_last()), parts.last())
    }
}

/// The inline parts of blocks that should all be pseudo paragraphs. Any
/// other block leaves a note in its place.
pub open spec fn inline_parts(blocks: Seq<BlockView>) -> Seq<InlineView>
    decreases blocks.len(),
{
    if blocks.len() == 0 {
        Seq::empty()
    } else {
        inline_parts(blocks.drop_last()) + (match blocks.last() {
            BlockView::PseudoP { parts } => parts,
            other => seq![InlineView::Text(block_note(other))],
        })
    }
}

/// The text of an inline part. The parts of a styled run are joined by
/// single spaces; an image gives its source.
pub open spec fn text_of(part: InlineView) -> Seq<char>
    decreases part,
{
    match part {
        InlineView::Text(text) => text,
        InlineView::Code(text) => text,
        InlineView::Link(link) => link.text,
        InlineView::Image(image) => image.src,
        InlineView::LinkedImage { image, .. } => image.src,
        InlineView::Styled { parts, .. } => joined_text(parts),
    }
}

/// The texts of inline parts, joined by single spaces.
pub open spec fn joined_text(parts: Seq<InlineView>) -> Seq<char>
    decreases parts,
{
    if parts.len() == 0 {
        Seq::empty()
    } else if parts.len() == 1 {
        text_of(parts[0])
    } else {
        joined_text(parts.drop_last()) + " "@ + text_of(parts.last())
    }
}

/// An inline part under a link. A link cannot hold styled parts, so each
/// part becomes a link of its own, and an image a linked image.
pub open spec fn linked(part: InlineView, href: Seq<char>) -> InlineView {
    match part {
        InlineView::Text(text) => InlineView::Link(LinkView { text, href }),
        InlineView::Code(_) | InlineView::Styled { .. } => InlineView::Link(
            LinkView { text: text_of(part), href },
        ),
        InlineView::Image(image) => InlineView::LinkedImage {
            image,
            link: LinkView { text: Seq::empty(), href },
        },
        InlineView::LinkedImage { .. } | InlineView::Link(_) => InlineView::Link(
            LinkView { text: "Unexpected within link: "@ + inline_form(part), href },
        ),
    }
}

/// The alternative text of an image: the one text inside it or, where
/// that is empty, the reference id or, where that is empty too, the
/// address. Anything else inside the image leaves a note.
pub open spec fn image_alt(parts: Seq<InlineView>, id: Seq<char>, dest_url: Seq<char>) -> Seq<
    char,
> {
    let inner = if parts.len() == 0 {
        Seq::empty()
    } else if parts.len() > 1 {
        "(Error: Too many inline elements: "@ + inline_list_form(parts) + ")"@
    } else {
        match parts[0] {
            InlineView::Text(text) => text,
            other => "(Error: Unexpected inline element in image: "@ + inline_form(other) + ")"@,
        }
    };
    if inner.len() > 0 {
        inner
    } else if id.len() > 0 {
        id
    } else {
        dest_url
    }
}

/// The text of a heading whose opening tag has been read: the texts up to
/// the end of the heading, with everything else passed over. Gives the
/// text and the position after the heading.
pub open spec fn heading_text(ev: Seq<MdEventView>, pos: int, acc: Seq<char>) -> (Seq<char>, int)
    decreases ev.len() - pos,
{
    if 0 <= pos < ev.len() {
        match ev[pos] {
            MdEventView::End { end: MdTagEnd::Heading, .. } => (acc, pos + 1),
            MdEventView::Text(text) => heading_text(ev, pos + 1, acc + text),
            _ => heading_text(ev, pos + 1, acc),
        }
    } else {
        (acc, pos)
    }
}

/// The text of a code block whose opening tag has been read: the texts up
/// to the end of the block, and a note for any other event. Gives the
/// text and the position after the block.
pub open spec fn code_text(ev: Seq<MdEventView>, pos: int, acc: Seq<char>) -> (Seq<char>, int)
    decreases ev.len() - pos,
{
    if 0 <= pos < ev.len() {
        match ev[pos] {
            MdEventView::End { end: MdTagEnd::CodeBlock, .. } => (acc, pos + 1),
            MdEventView::Text(text) => code_text(ev, pos + 1, acc + text),
            other => code_text(ev, pos + 1, acc + code_note(other)),
        }
    } else {
        (acc, pos)
    }
}

/// The blocks from `pos` up to the end of the element that `stop` names,
/// or to the end of the events, added to `acc`; and the position after
/// them. An element that opens inside is read to its own end first.
pub open spec fn blocks_until(
    ev: Seq<MdEventView>,
    pos: int,
    stop: Stop,
    acc: Seq<BlockView>,
) -> (Seq<BlockView>, int)
    decreases ev.len() - pos, 0int,
{
    if 0 <= pos < ev.len() {
        match ev[pos] {
            MdEventView::End { end, .. } => if closes(stop, end) {
                (acc, pos + 1)
            } else {
                blocks_until(
                    ev,
                    pos + 1,
                    stop,
                    push_inline(acc, InlineView::Text(stray_note(ev[pos]))),
                )
            },
            MdEventView::Start { tag, debug } => {
                let (grown, next) = element(ev, pos + 1, tag, debug, acc);
                if pos < next <= ev.len() {
                    blocks_until(ev, next, stop, grown)
                } else {
                    (grown, pos + 1)
                }
            },
            MdEventView::Text(text) => blocks_until(
                ev,
                pos + 1,
                stop,
                push_inline(acc, InlineView::Text(text)),
            ),
            MdEventView::Code(text) => blocks_until(
                ev,
                pos + 1,
                stop,
                push_inline(acc, InlineView::Code(text)),
            ),
            MdEventView::SoftBreak => blocks_until(
                ev,
                pos + 1,
                stop,
                push_inline(acc, InlineView::Text(" "@)),
            ),
            MdEventView::HardBreak => blocks_until(
                ev,
                pos + 1,
                stop,
                push_inline(acc, InlineView::Text("\n"@)),
            ),
            MdEventView::Rule => blocks_until(ev, pos + 1, stop, acc.push(BlockView::Hr)),
            MdEventView::Other { .. } => blocks_until(
                ev,
                pos + 1,
                stop,
                push_inline(acc, InlineView::Text(stray_note(ev[pos]))),
            ),
        }
    } else {
        (acc, pos)
    }
}

/// The inline parts from `pos` up to the end of the element that `stop`
/// names, and the position after them.
pub open spec fn inline_until(ev: Seq<MdEventView>, pos: int, stop: Stop) -> (
    Seq<InlineView>,
    int,
)
    decreases ev.len() - pos, 1int,
{
    let (blocks, next) = blocks_until(ev, pos, stop, Seq::empty());
    (inline_parts(blocks), next)
}

/// Whether the tags of an element are passed over, so that only what the
/// element holds is shown: struck-through, raised or lowered text, and
/// metadata.
pub open spec fn passed_over(tag: MdTagView) -> bool {
    tag is Strikethrough || tag is Superscript || tag is Subscript || tag is MetadataBlock
}

/// The blocks `acc` with the element added whose opening tag `tag` stood
/// just before `pos`, and the position after the element. `written` is
/// the tag as the tokenizer writes it: an HTML block and a tag that this
/// library does not read leave a note with it.
pub open spec fn element(
    ev: Seq<MdEventView>,
    pos: int,
    tag: MdTagView,
    written: Seq<char>,
    acc: Seq<BlockView>,
) -> (Seq<BlockView>, int)
    decreases ev.len() - pos, 2int,
{
    match tag {
        MdTagView::Paragraph => {
            let (parts, next) = inline_until(ev, pos, Stop::Paragraph);
            (acc.push(BlockView::P { parts }), next)
        },
        MdTagView::Heading { level } => {
            let (text, next) = heading_text(ev, pos, Seq::empty());
            (acc.push(BlockView::Heading { level, text }), next)
        },
        MdTagView::BlockQuote => {
            let (blocks, next) = blocks_until(ev, pos, Stop::BlockQuote, Seq::empty());
            (acc.push(BlockView::BlockQuote { blocks }), next)
        },
        MdTagView::CodeBlock { fenced } => {
            let (text, next) = code_text(ev, pos, Seq::empty());
            (acc.push(BlockView::CodeBlock { fenced, text }), next)
        },
        MdTagView::List { start } => {
            let (blocks, next) = blocks_until(ev, pos, Stop::List, Seq::empty());
            (acc.push(BlockView::List { start_num: start, blocks }), next)
        },
        MdTagView::Item => {
            let (blocks, next) = blocks_until(ev, pos, Stop::Item, Seq::empty());
            (acc.push(BlockView::ListItem { blocks }), next)
        },
        MdTagView::Emphasis => {
            let (parts, next) = inline_until(ev, pos, Stop::Emphasis);
            (push_inline(acc, InlineView::Styled { style: Style::Italics, parts }), next)
        },
        MdTagView::Strong => {
            let (parts, next) = inline_until(ev, pos, Stop::Strong);
            (push_inline(acc, InlineView::Styled { style: Style::Bold, parts }), next)
        },
        MdTagView::Link { dest_url } => {
            let (parts, next) = inline_until(ev, pos, Stop::Link);
            (push_inlines(acc, parts.map_values(|p: InlineView| linked(p, dest_url))), next)
        },
        MdTagView::Image { dest_url, title, id } => {
            let (parts, next) = inline_until(ev, pos, Stop::Image);
            (
                push_inline(
                    acc,
                    InlineView::Image(
                        ImageView { src: dest_url, alt: image_alt(parts, id, dest_url), title },
                    ),
                ),
                next,
            )
        },
        MdTagView::HtmlBlock => (acc.push(note_block("TODO: Start Tag "@ + written)), pos),
        MdTagView::Strikethrough | MdTagView::Superscript | MdTagView::Subscript
        | MdTagView::MetadataBlock => (acc, pos),
        MdTagView::Unexpected => (acc.push(note_block("Unexpected tag: "@ + written)), pos),
    }
}

/// The document that a stream of events makes.
pub open spec fn document(ev: Seq<MdEventView>) -> Seq<BlockView> {
    blocks_until(ev, 0, Stop::Never, Seq::empty()).0
}

/// The models of inline parts, part by part.
pub proof fn lemma_inline_models(parts: Seq<Inline>)
    ensures
        inline_models(parts).len() == parts.len(),
        forall|i: int|
            0 <= i < parts.len() ==> (#[trigger] inline_models(parts)[i]) == parts[i].model(),
    decreases parts.len(),
{
    if parts.len() > 0 {
        lemma_inline_models(parts.drop_last());
    }
}

/// The models of blocks, block by block.
pub proof fn lemma_block_models(blocks: Seq<Block>)
    ensures
        block_models(blocks).len() == blocks.len(),
        forall|i: int|
            0 <= i < blocks.len() ==> (#[trigger] block_models(blocks)[i]) == blocks[i].model(),
    decreases blocks.len(),
{
    if blocks.len() > 0 {
        lemma_block_models(blocks.drop_last());
    }
}

/// The models of two runs of inline parts, one after the other.
pub proof fn lemma_inline_models_add(a: Seq<Inline>, b: Seq<Inline>)
    ensures
        inline_models(a + b) == inline_models(a) + inline_models(b),
{
    lemma_inline_models(a);
    lemma_inline_models(b);
    lemma_inline_models(a + b);
    assert(inline_models(a + b) =~= inline_models(a) + inline_models(b));
}

/// A copy of a text that may be there.
fn copy_option(text: &Option<String>) -> (r: Option<String>)
    ensures
        r is Some == text is Some,
        r is Some ==> r->0@ == text->0@,
{
    match text {
        Some(t) => Some(t.clone()),
        None => None,
    }
}

/// A copy of an opening tag.
fn copy_tag(tag: &MdTag) -> (r: MdTag)
    ensures
        r@ == tag@,
{
    match tag {
        MdTag::Paragraph => MdTag::Paragraph,
        MdTag::Heading { level } => MdTag::Heading { level: *level },
        MdTag::BlockQuote => MdTag::BlockQuote,
        MdTag::CodeBlock { fenced } => MdTag::CodeBlock { fenced: copy_option(fenced) },
        MdTag::HtmlBlock => MdTag::HtmlBlock,
        MdTag::List { start } => MdTag::List { start: *start },
        MdTag::Item => MdTag::Item,
        MdTag::Emphasis => MdTag::Emphasis,
        MdTag::Strong => MdTag::Strong,
        MdTag::Link { dest_url } => MdTag::Link { dest_url: dest_url.clone() },
        MdTag::Image { dest_url, title, id } => MdTag::Image {
            dest_url: dest_url.clone(),
            title: title.clone(),
            id: id.clone(),
        },
        MdTag::Strikethrough => MdTag::Strikethrough,
        MdTag::Superscript => MdTag::Superscript,
        MdTag::Subscript => MdTag::Subscript,
        MdTag::MetadataBlock => MdTag::MetadataBlock,
        MdTag::Unexpected => MdTag::Unexpected,
    }
}

/// A copy of an event.
fn copy_event(event: &MdEvent) -> (r: MdEvent)
    ensures
        r@ == event@,
{
    match event {
        MdEvent::Start { tag, debug } => MdEvent::Start {
            tag: copy_tag(tag),
            debug: debug.clone(),
        },
        MdEvent::End { end, debug } => MdEvent::End { end: *end, debug: debug.clone() },
        MdEvent::Text(text) => MdEvent::Text(text.clone()),
        MdEvent::Code(text) => MdEvent::Code(text.clone()),
        MdEvent::SoftBreak => MdEvent::SoftBreak,
        MdEvent::HardBreak => MdEvent::HardBreak,
        MdEvent::Rule => MdEvent::Rule,
        MdEvent::Other { debug } => MdEvent::Other { debug: debug.clone() },
    }
}

/// Tells whether `end` closes a run that waits for `stop`.
fn stop_closes(stop: Stop, end: &MdTagEnd) -> (r: bool)
    ensures
        r == closes(stop, *end),
{
    match stop {
        Stop::Never => false,
        Stop::Paragraph => matches!(end, MdTagEnd::Paragraph),
        Stop::BlockQuote => matches!(end, MdTagEnd::BlockQuote),
        Stop::List => matches!(end, MdTagEnd::List),
        Stop::Item => matches!(end, MdTagEnd::Item),
        Stop::Emphasis => matches!(end, MdTagEnd::Emphasis),
        Stop::Strong => matches!(end, MdTagEnd::Strong),
        Stop::Link => matches!(end, MdTagEnd::Link),
        Stop::Image => matches!(end, MdTagEnd::Image),
    }
}

/// The block that a note makes.
fn block_of_note(text: String) -> (r: Block)
    ensures
        r.model() == note_block(text@),
{
    let mut parts: Vec<Inline> = Vec::new();
    parts.push(Inline::Text(text));
    proof {
        lemma_inline_models(parts@);
        assert(inline_models(parts@) =~= seq![InlineView::Text(text@)]);
    }
    Block::P { parts }
}

/// Adds an inline part that stands outside any paragraph.
fn add_inline(blocks: &mut Vec<Block>, part: Inline)
    ensures
        block_models(final(blocks)@) == push_inline(block_models(old(blocks)@), part.model()),
{
    proof {
        lemma_block_models(blocks@);
    }
    let ghost before = blocks@;
    match blocks.pop() {
        Some(Block::PseudoP { parts }) => {
            let mut parts = parts;
            proof {
                lemma_inline_models_push(parts@, part);
                lemma_block_models(blocks@);
            }
            parts.push(part);
            proof {
                lemma_block_models(blocks@.push(Block::PseudoP { parts }));
                assert(block_models(blocks@.push(Block::PseudoP { parts })) =~= push_inline(
                    block_models(before),
                    part.model(),
                ));
            }
            blocks.push(Block::PseudoP { parts });
        },
        Some(other) => {
            let mut parts: Vec<Inline> = Vec::new();
            parts.push(part);
            proof {
                lemma_inline_models(parts@);
                assert(inline_models(parts@) =~= seq![part.model()]);
                assert(blocks@.push(other) == before);
                lemma_block_models_push(before, Block::PseudoP { parts });
            }
            blocks.push(other);
            blocks.push(Block::PseudoP { parts });
        },
        None => {
            let mut parts: Vec<Inline> = Vec::new();
            parts.push(part);
            proof {
                lemma_inline_models(parts@);
                assert(inline_models(parts@) =~= seq![part.model()]);
                lemma_block_models_push(before, Block::PseudoP { parts });
            }
            blocks.push(Block::PseudoP { parts });
        },
    }
}

/// Adds inline parts one by one.
fn add_inlines(blocks: &mut Vec<Block>, parts: Vec<Inline>)
    ensures
        block_models(final(blocks)@) == push_inlines(
            block_models(old(blocks)@),
            inline_models(parts@),
        ),
{
    let ghost all = parts@;
    let ghost start = block_models(blocks@);
    proof {
        lemma_inline_models(all);
        assert(inline_models(all.take(0)) =~= Seq::<InlineView>::empty());
    }
    for part in it: parts
        invariant
            it.seq() == all,
            block_models(blocks@) == push_inlines(start, inline_models(all.take(it.index()))),
    {
        proof {
            let done = all.take(it.index());
            assert(all.take(it.index() + 1) == done.push(part));
            lemma_inline_models_push(done, part);
            assert(inline_models(done).push(part.model()).drop_last() == inline_models(done));
        }
        add_inline(blocks, part);
    }
    assert(all.take(all.len() as int) == all);
}

impl Inline {
    /// The text of an inline part, without its styling.
    pub fn extract_text(&self) -> (r: String)
        ensures
            r@ == text_of(self.model()),
        decreases self,
    {
        match self {
            Inline::Text(text) => text.clone(),
            Inline::Code(text) => text.clone(),
            Inline::Link(link) => link.text.clone(),
            Inline::Image(image) => image.src.clone(),
            Inline::LinkedImage { image, .. } => image.src.clone(),
            Inline::Styled { parts, .. } => {
                let mut out = String::new();
                let mut i: usize = 0;
                proof {
                    lemma_inline_models(parts@);
                }
                while i < parts.len()
                    invariant
                        i <= parts.len(),
                        self matches Inline::Styled { parts: own, .. } && own == parts,
                        out@ == joined_text(inline_models(parts@).take(i as int)),
                        inline_models(parts@).len() == parts.len(),
                        forall|k: int|
                            0 <= k < parts.len() ==> (#[trigger] inline_models(parts@)[k])
                                == parts[k].model(),
                    decreases parts.len() - i,
                {
                    let ghost models = inline_models(parts@);
                    if i > 0 {
                        out.append(" ");
                    }
                    assert(decreases_to!(*self => parts[i as int]));
                    let text = parts[i].extract_text();
                    out.append(text.as_str());
                    proof {
                        let next = models.take(i + 1);
                        assert(next.drop_last() == models.take(i as int));
                        assert(next.last() == parts[i as int].model());
                        if i == 0 {
                            assert(next[0] == parts[0].model());
                            assert(out@ =~= text@);
                        }
                    }
                    i += 1;
                }
                assert(inline_models(parts@).take(parts.len() as int) == inline_models(parts@));
                out
            },
        }
    }
}

/// A cursor over a buffer of events.
pub struct Parser {
    events: Vec<MdEvent>,
    pos: usize,
}

impl Parser {
    /// What the events of the parser stand for.
    pub closed spec fn events(&self) -> Seq<MdEventView> {
        event_views(self.events@)
    }

    /// How many events have been read.
    pub closed spec fn position(&self) -> int {
        self.pos as int
    }

    /// A parser at the start of `events`.
    pub fn new(events: Vec<MdEvent>) -> (r: Self)
        ensures
            r.events() == event_views(events@),
            r.position() == 0,
    {
        Parser { events, pos: 0 }
    }

    /// Builds the document of a markdown text.
    pub fn from_md(md: &str) -> (r: Parsed)
        ensures
            r@ == document(md_events(md@, 0)),
    {
        Parser::from_events(tokenize(md))
    }

    /// Builds the document of a stream of events.
    pub fn from_events(events: Vec<MdEvent>) -> (r: Parsed)
        ensures
            r@ == document(event_views(events@)),
    {
        let mut parser = Parser::new(events);
        parser.parse_all()
    }

    /// Reads all events into a document.
    fn parse_all(&mut self) -> (r: Parsed)
        requires
            old(self).pos == 0,
        ensures
            r@ == document(old(self).events()),
    {
        Parsed { blocks: self.parse_blocks_until(Stop::Never) }
    }

    /// A copy of the event under the cursor.
    fn current(&self) -> (r: MdEvent)
        requires
            self.pos < self.events.len(),
        ensures
            r@ == self.events()[self.pos as int],
    {
        copy_event(&self.events[self.pos])
    }

    /// Reads blocks up to the end of the element that `stop` names.
    fn parse_blocks_until(&mut self, stop: Stop) -> (blocks: Vec<Block>)
        requires
            old(self).pos <= old(self).events.len(),
        ensures
            final(self).events == old(self).events,
            old(self).pos <= final(self).pos <= final(self).events.len(),
            (block_models(blocks@), final(self).pos as int) == blocks_until(
                old(self).events(),
                old(self).pos as int,
                stop,
                Seq::empty(),
            ),
        decreases old(self).events.len() - old(self).pos, 0int,
    {
        let ghost ev = self.events();
        let ghost start = self.pos as int;
        let mut blocks: Vec<Block> = Vec::new();
        while self.pos < self.events.len()
            invariant
                self.events == old(self).events,
                ev == self.events(),
                start == old(self).pos,
                start <= self.pos <= self.events.len(),
                blocks_until(ev, start, stop, Seq::empty()) == blocks_until(
                    ev,
                    self.pos as int,
                    stop,
                    block_models(blocks@),
                ),
            decreases self.events.len() - self.pos,
        {
            let event = self.current();
            let ghost here = self.pos as int;
            let ghost acc = block_models(blocks@);
            self.pos += 1;
            match event {
                MdEvent::End { end, debug } => {
                    if stop_closes(stop, &end) {
                        return blocks;
                    }
                    let note = wrapped(
                        "(Unimplemented top-level item: ",
                        event_text(&MdEvent::End { end, debug }).as_str(),
                        ")",
                    );
                    add_inline(&mut blocks, Inline::Text(note));
                },
                MdEvent::Start { tag, debug } => {
                    self.parse_element(tag, debug, &mut blocks);
                },
                MdEvent::Text(text) => {
                    add_inline(&mut blocks, Inline::Text(text));
                },
                MdEvent::Code(text) => {
                    add_inline(&mut blocks, Inline::Code(text));
                },
                MdEvent::SoftBreak => {
                    add_inline(&mut blocks, Inline::Text(String::from_str(" ")));
                },
                MdEvent::HardBreak => {
                    add_inline(&mut blocks, Inline::Text(String::from_str("\n")));
                },
                MdEvent::Rule => {
                    proof {
                        lemma_block_models_push(blocks@, Block::Hr);
                    }
                    blocks.push(Block::Hr);
                },
                MdEvent::Other { debug } => {
                    let note = wrapped(
                        "(Unimplemented top-level item: ",
                        event_text(&MdEvent::Other { debug }).as_str(),
                        ")",
                    );
                    add_inline(&mut blocks, Inline::Text(note));
                },
            }
        }
        blocks
    }

    /// Reads the element whose opening tag has just been read, and adds it
    /// to `blocks`.
    fn parse_element(&mut self, tag: MdTag, written: String, blocks: &mut Vec<Block>)
        requires
            old(self).pos <= old(self).events.len(),
        ensures
            final(self).events == old(self).events,
            old(self).pos <= final(self).pos <= final(self).events.len(),
            (block_models(final(blocks)@), final(self).pos as int) == element(
                old(self).events(),
                old(self).pos as int,
                tag@,
                written@,
                block_models(old(blocks)@),
            ),
        decreases old(self).events.len() - old(self).pos, 2int,
    {
        match tag {
            MdTag::Paragraph => {
                let block = self.parse_p();
                proof {
                    lemma_block_models_push(blocks@, block);
                }
                blocks.push(block);
            },
            MdTag::Heading { level } => {
                let block = self.parse_heading(level);
                proof {
                    lemma_block_models_push(blocks@, block);
                }
                blocks.push(block);
            },
            MdTag::BlockQuote => {
                let block = self.parse_bq();
                proof {
                    lemma_block_models_push(blocks@, block);
                }
                blocks.push(block);
            },
            MdTag::CodeBlock { fenced } => {
                let block = self.parse_code(fenced);
                proof {
                    lemma_block_models_push(blocks@, block);
                }
                blocks.push(block);
            },
            MdTag::List { start } => {
                let block = self.parse_list(start);
                proof {
                    lemma_block_models_push(blocks@, block);
                }
                blocks.push(block);
            },
            MdTag::Item => {
                let block = self.parse_list_item();
                proof {
                    lemma_block_models_push(blocks@, block);
                }
                blocks.push(block);
            },
            MdTag::Emphasis => {
                let parts = self.parse_inline(Stop::Emphasis);
                add_inline(blocks, Inline::Styled { style: Style::Italics, parts });
            },
            MdTag::Strong => {
                let parts = self.parse_inline(Stop::Strong);
                add_inline(blocks, Inline::Styled { style: Style::Bold, parts });
            },
            MdTag::Link { dest_url } => {
                let parts = self.parse_link(dest_url);
                add_inlines(blocks, parts);
            },
            MdTag::Image { dest_url, title, id } => {
                let image = self.parse_image(dest_url, title, id);
                add_inline(blocks, image);
            },
            MdTag::HtmlBlock => {
                let mut note = String::from_str("TODO: Start Tag ");
                note.append(written.as_str());
                let block = block_of_note(note);
                proof {
                    lemma_block_models_push(blocks@, block);
                }
                blocks.push(block);
            },
            MdTag::Strikethrough | MdTag::Superscript | MdTag::Subscript => {},
            MdTag::MetadataBlock => {},
            MdTag::Unexpected => {
                let mut note = String::from_str("Unexpected tag: ");
                note.append(written.as_str());
                let block = block_of_note(note);
                proof {
                    lemma_block_models_push(blocks@, block);
                }
                blocks.push(block);
            },
        }
    }

    /// Reads a paragraph whose opening tag has just been read.
    fn parse_p(&mut self) -> (block: Block)
        requires
            old(self).pos <= old(self).events.len(),
        ensures
            final(self).events == old(self).events,
            old(self).pos <= final(self).pos <= final(self).events.len(),
            block.model() == (BlockView::P {
                parts: inline_until(old(self).events(), old(self).pos as int, Stop::Paragraph).0,
            }),
            final(self).pos == inline_until(
                old(self).events(),
                old(self).pos as int,
                Stop::Paragraph,
            ).1,
        decreases old(self).events.len() - old(self).pos, 1int, 1int,
    {
        let parts = self.parse_inline(Stop::Paragraph);
        Block::P { parts }
    }

    /// Reads a list item whose opening tag has just been read.
    fn parse_list_item(&mut self) -> (block: Block)
        requires
            old(self).pos <= old(self).events.len(),
        ensures
            final(self).events == old(self).events,
            old(self).pos <= final(self).pos <= final(self).events.len(),
            block.model() == (BlockView::ListItem {
                blocks: blocks_until(
                    old(self).events(),
                    old(self).pos as int,
                    Stop::Item,
                    Seq::empty(),
                ).0,
            }),
            final(self).pos == blocks_until(
                old(self).events(),
                old(self).pos as int,
                Stop::Item,
                Seq::empty(),
            ).1,
        decreases old(self).events.len() - old(self).pos, 1int,
    {
        let blocks = self.parse_blocks_until(Stop::Item);
        Block::ListItem { blocks }
    }

    /// Reads inline parts up to the end of the element that `stop` names.
    fn parse_inline(&mut self, stop: Stop) -> (inlines: Vec<Inline>)
        requires
            old(self).pos <= old(self).events.len(),
        ensures
            final(self).events == old(self).events,
            old(self).pos <= final(self).pos <= final(self).events.len(),
            (inline_models(inlines@), final(self).pos as int) == inline_until(
                old(self).events(),
                old(self).pos as int,
                stop,
            ),
        decreases old(self).events.len() - old(self).pos, 1int, 0int,
    {
        let blocks = self.parse_blocks_until(stop);
        let ghost all = blocks@;
        let mut inlines: Vec<Inline> = Vec::new();
        proof {
            lemma_block_models(all);
            assert(block_models(all.take(0)) =~= Seq::<BlockView>::empty());
        }
        for block in it: blocks
            invariant
                it.seq() == all,
                inline_models(inlines@) == inline_parts(block_models(all.take(it.index()))),
        {
            proof {
                let done = all.take(it.index());
                assert(all.take(it.index() + 1) == done.push(block));
                lemma_block_models_push(done, block);
                assert(block_models(done).push(block.model()).drop_last() == block_models(done));
            }
            match block {
                Block::PseudoP { parts } => {
                    let mut parts = parts;
                    proof {
                        lemma_inline_models_add(inlines@, parts@);
                    }
                    inlines.append(&mut parts);
                },
                other => {
                    let note = wrapped(
                        "(Unexpected Inline Block: ",
                        block_text(&other).as_str(),
                        ")",
                    );
                    proof {
                        lemma_inline_models_push(inlines@, Inline::Text(note));
                        assert(inline_models(inlines@).push(InlineView::Text(note@))
                            =~= inline_models(inlines@) + seq![InlineView::Text(note@)]);
                    }
                    inlines.push(Inline::Text(note));
                },
            }
        }
        assert(all.take(all.len() as int) == all);
        inlines
    }

    /// Reads a list whose opening tag has just been read.
    fn parse_list(&mut self, start_num: Option<u64>) -> (block: Block)
        requires
            old(self).pos <= old(self).events.len(),
        ensures
            final(self).events == old(self).events,
            old(self).pos <= final(self).pos <= final(self).events.len(),
            block.model() == (BlockView::List {
                start_num,
                blocks: blocks_until(
                    old(self).events(),
                    old(self).pos as int,
                    Stop::List,
                    Seq::empty(),
                ).0,
            }),
            final(self).pos == blocks_until(
                old(self).events(),
                old(self).pos as int,
                Stop::List,
                Seq::empty(),
            ).1,
        decreases old(self).events.len() - old(self).pos, 1int,
    {
        let blocks = self.parse_blocks_until(Stop::List);
        Block::List { start_num, blocks }
    }

    /// Reads a heading whose opening tag has just been read: its texts are
    /// joined, and everything else in it is passed over.
    fn parse_heading(&mut self, level: u8) -> (block: Block)
        requires
            old(self).pos <= old(self).events.len(),
        ensures
            final(self).events == old(self).events,
            old(self).pos <= final(self).pos <= final(self).events.len(),
            block.model() == (BlockView::Heading {
                level,
                text: heading_text(old(self).events(), old(self).pos as int, Seq::empty()).0,
            }),
            final(self).pos == heading_text(
                old(self).events(),
                old(self).pos as int,
                Seq::empty(),
            ).1,
    {
        let ghost ev = self.events();
        let ghost start = self.pos as int;
        let mut text = String::new();
        while self.pos < self.events.len()
            invariant
                self.events == old(self).events,
                ev == self.events(),
                start == old(self).pos,
                start <= self.pos <= self.events.len(),
                heading_text(ev, start, Seq::empty()) == heading_text(ev, self.pos as int, text@),
            decreases self.events.len() - self.pos,
        {
            let event = self.current();
            self.pos += 1;
            match event {
                MdEvent::End { end: MdTagEnd::Heading, .. } => {
                    return Block::Heading { level, text };
                },
                MdEvent::Text(part) => {
                    text.append(part.as_str());
                },
                _ => {},
            }
        }
        Block::Heading { level, text }
    }

    /// Reads a quote whose opening tag has just been read.
    fn parse_bq(&mut self) -> (block: Block)
        requires
            old(self).pos <= old(self).events.len(),
        ensures
            final(self).events == old(self).events,
            old(self).pos <= final(self).pos <= final(self).events.len(),
            block.model() == (BlockView::BlockQuote {
                blocks: blocks_until(
                    old(self).events(),
                    old(self).pos as int,
                    Stop::BlockQuote,
                    Seq::empty(),
                ).0,
            }),
            final(self).pos == blocks_until(
                old(self).events(),
                old(self).pos as int,
                Stop::BlockQuote,
                Seq::empty(),
            ).1,
        decreases old(self).events.len() - old(self).pos, 1int,
    {
        let blocks = self.parse_blocks_until(Stop::BlockQuote);
        Block::BlockQuote { blocks }
    }

    /// Reads a code block whose opening tag has just been read: its texts
    /// are joined, and any other event leaves a note in the text.
    fn parse_code(&mut self, fenced: Option<String>) -> (block: Block)
        requires
            old(self).pos <= old(self).events.len(),
        ensures
            final(self).events == old(self).events,
            old(self).pos <= final(self).pos <= final(self).events.len(),
            block.model() == (BlockView::CodeBlock {
                fenced: match fenced {
                    Some(meta) => Some(meta@),
                    None => None,
                },
                text: code_text(old(self).events(), old(self).pos as int, Seq::empty()).0,
            }),
            final(self).pos == code_text(old(self).events(), old(self).pos as int, Seq::empty()).1,
    {
        let ghost ev = self.events();
        let ghost start = self.pos as int;
        let mut text = String::new();
        while self.pos < self.events.len()
            invariant
                self.events == old(self).events,
                ev == self.events(),
                start == old(self).pos,
                start <= self.pos <= self.events.len(),
                code_text(ev, start, Seq::empty()) == code_text(ev, self.pos as int, text@),
            decreases self.events.len() - self.pos,
        {
            let event = self.current();
            self.pos += 1;
            match event {
                MdEvent::End { end: MdTagEnd::CodeBlock, .. } => {
                    return Block::CodeBlock { fenced, text };
                },
                MdEvent::Text(part) => {
                    text.append(part.as_str());
                },
                other => {
                    let note = wrapped(
                        "\n\nERROR: Unexpected Markdown Event in code block: ",
                        event_text(&other).as_str(),
                        "\n\n",
                    );
                    text.append(note.as_str());
                },
            }
        }
        Block::CodeBlock { fenced, text }
    }

    /// Reads the inside of a link, and puts each part under the link.
    fn parse_link(&mut self, dest_url: String) -> (out: Vec<Inline>)
        requires
            old(self).pos <= old(self).events.len(),
        ensures
            final(self).events == old(self).events,
            old(self).pos <= final(self).pos <= final(self).events.len(),
            inline_models(out@) == inline_until(
                old(self).events(),
                old(self).pos as int,
                Stop::Link,
            ).0.map_values(|p: InlineView| linked(p, dest_url@)),
            final(self).pos == inline_until(old(self).events(), old(self).pos as int, Stop::Link).1,
        decreases old(self).events.len() - old(self).pos, 1int, 1int,
    {
        let parts = self.parse_inline(Stop::Link);
        let ghost all = parts@;
        let mut out: Vec<Inline> = Vec::new();
        proof {
            lemma_inline_models(all);
            lemma_inline_models(out@);
        }
        for part in it: parts
            invariant
                it.seq() == all,
                out@.len() == it.index(),
                inline_models(all).len() == all.len(),
                forall|k: int|
                    0 <= k < all.len() ==> (#[trigger] inline_models(all)[k]) == all[k].model(),
                forall|k: int|
                    0 <= k < out@.len() ==> (#[trigger] out@[k]).model() == linked(
                        all[k].model(),
                        dest_url@,
                    ),
        {
            let under = match part {
                Inline::Text(text) => Inline::Link(Link { text, href: dest_url.clone() }),
                Inline::Image(image) => Inline::LinkedImage {
                    image,
                    link: Link { text: String::new(), href: dest_url.clone() },
                },
                Inline::Code(text) => {
                    let inner = Inline::Code(text);
                    Inline::Link(Link { text: inner.extract_text(), href: dest_url.clone() })
                },
                Inline::Styled { style, parts } => {
                    let inner = Inline::Styled { style, parts };
                    Inline::Link(Link { text: inner.extract_text(), href: dest_url.clone() })
                },
                other => {
                    let mut text = String::from_str("Unexpected within link: ");
                    text.append(inline_text(&other).as_str());
                    Inline::Link(Link { text, href: dest_url.clone() })
                },
            };
            out.push(under);
        }
        proof {
            lemma_inline_models(out@);
            assert(inline_models(out@) =~= inline_models(all).map_values(
                |p: InlineView| linked(p, dest_url@),
            ));
        }
        out
    }

    /// Reads the inside of an image for its alternative text.
    fn parse_image(&mut self, dest_url: String, title: String, id: String) -> (image: Inline)
        requires
            old(self).pos <= old(self).events.len(),
        ensures
            final(self).events == old(self).events,
            old(self).pos <= final(self).pos <= final(self).events.len(),
            image.model() == InlineView::Image(
                ImageView {
                    src: dest_url@,
                    alt: image_alt(
                        inline_until(old(self).events(), old(self).pos as int, Stop::Image).0,
                        id@,
                        dest_url@,
                    ),
                    title: title@,
                },
            ),
            final(self).pos == inline_until(
                old(self).events(),
                old(self).pos as int,
                Stop::Image,
            ).1,
        decreases old(self).events.len() - old(self).pos, 1int, 1int,
    {
        let mut parts = self.parse_inline(Stop::Image);
        proof {
            lemma_inline_models(parts@);
        }
        let count = parts.len();
        let mut alt: String = if count == 0 {
            String::new()
        } else if count > 1 {
            wrapped("(Error: Too many inline elements: ", inline_list_text(&parts).as_str(), ")")
        } else {
            match parts.pop() {
                Some(Inline::Text(text)) => text,
                Some(other) => wrapped(
                    "(Error: Unexpected inline element in image: ",
                    inline_text(&other).as_str(),
                    ")",
                ),
                None => String::new(),
            }
        };
        if alt.as_str().unicode_len() == 0 {
            alt = id;
        }
        if alt.as_str().unicode_len() == 0 {
            alt = dest_url.clone();
        }
        Inline::Image(Image { src: dest_url, alt, title })
    }
}

/// An image inside a link, in a paragraph, becomes one linked image: the
/// link keeps its address and no text, and the image keeps its address,
/// its title and the text inside it as its alternative text. `w` holds
/// the six tags as the tokenizer writes them, which plays no part.
pub proof fn lemma_image_in_link(
    href: Seq<char>,
    src: Seq<char>,
    title: Seq<char>,
    id: Seq<char>,
    alt: Seq<char>,
    w: Seq<Seq<char>>,
)
    requires
        alt.len() > 0,
        w.len() == 6,
    ensures
        document(
            seq![
                MdEventView::Start { tag: MdTagView::Paragraph, debug: w[0] },
                MdEventView::Start { tag: MdTagView::Link { dest_url: href }, debug: w[1] },
                MdEventView::Start {
                    tag: MdTagView::Image { dest_url: src, title, id },
                    debug: w[2],
                },
                MdEventView::Text(alt),
                MdEventView::End { end: MdTagEnd::Image, debug: w[3] },
                MdEventView::End { end: MdTagEnd::Link, debug: w[4] },
                MdEventView::End { end: MdTagEnd::Paragraph, debug: w[5] },
            ],
        ) == seq![
            BlockView::P {
                parts: seq![
                    InlineView::LinkedImage {
                        link: LinkView { href, text: Seq::empty() },
                        image: ImageView { src, alt, title },
                    },
                ],
            },
        ],
{
    let ev = seq![
        MdEventView::Start { tag: MdTagView::Paragraph, debug: w[0] },
        MdEventView::Start { tag: MdTagView::Link { dest_url: href }, debug: w[1] },
        MdEventView::Start {
            tag: MdTagView::Image { dest_url: src, title, id },
            debug: w[2],
        },
        MdEventView::Text(alt),
        MdEventView::End { end: MdTagEnd::Image, debug: w[3] },
        MdEventView::End { end: MdTagEnd::Link, debug: w[4] },
        MdEventView::End { end: MdTagEnd::Paragraph, debug: w[5] },
    ];
    let none = Seq::<BlockView>::empty();
    let text = InlineView::Text(alt);
    let image = InlineView::Image(ImageView { src, alt, title });
    let both = InlineView::LinkedImage {
        link: LinkView { href, text: Seq::empty() },
        image: ImageView { src, alt, title },
    };
    // Inside the image.
    let in_image = seq![BlockView::PseudoP { parts: seq![text] }];
    assert(push_inline(none, text) == in_image);
    assert(blocks_until(ev, 4, Stop::Image, in_image) == (in_image, 5int));
    assert(blocks_until(ev, 3, Stop::Image, none) == (in_image, 5int));
    assert(inline_parts(in_image) == seq![text]) by {
        assert(in_image.drop_last() == none);
        assert(inline_parts(none) == Seq::<InlineView>::empty());
        assert(Seq::<InlineView>::empty() + seq![text] == seq![text]);
    }
    assert(inline_until(ev, 3, Stop::Image) == (seq![text], 5int));
    assert(image_alt(seq![text], id, src) == alt);
    // Inside the link.
    let in_link = seq![BlockView::PseudoP { parts: seq![image] }];
    assert(push_inline(none, image) == in_link);
    assert(element(ev, 3, ev[2]->Start_tag, w[2], none) == (in_link, 5int));
    assert(blocks_until(ev, 5, Stop::Link, in_link) == (in_link, 6int));
    assert(blocks_until(ev, 2, Stop::Link, none) == (in_link, 6int));
    assert(inline_parts(in_link) == seq![image]) by {
        assert(in_link.drop_last() == none);
        assert(inline_parts(none) == Seq::<InlineView>::empty());
        assert(Seq::<InlineView>::empty() + seq![image] == seq![image]);
    }
    assert(inline_until(ev, 2, Stop::Link) == (seq![image], 6int));
    assert(seq![image].map_values(|p: InlineView| linked(p, href)) == seq![both]);
    // Inside the paragraph.
    let in_paragraph = seq![BlockView::PseudoP { parts: seq![both] }];
    assert(push_inlines(none, seq![both]) == in_paragraph) by {
        assert(seq![both].drop_last() == Seq::<InlineView>::empty());
        assert(push_inlines(none, Seq::<InlineView>::empty()) == none);
        assert(push_inline(none, both) == in_paragraph);
    }
    assert(element(ev, 2, ev[1]->Start_tag, w[1], none) == (in_paragraph, 6int));
    assert(blocks_until(ev, 6, Stop::Paragraph, in_paragraph) == (in_paragraph, 7int));
    assert(blocks_until(ev, 1, Stop::Paragraph, none) == (in_paragraph, 7int));
    assert(inline_parts(in_paragraph) == seq![both]) by {
        assert(in_paragraph.drop_last() == none);
        assert(inline_parts(none) == Seq::<InlineView>::empty());
        assert(Seq::<InlineView>::empty() + seq![both] == seq![both]);
    }
    assert(inline_until(ev, 1, Stop::Paragraph) == (seq![both], 7int));
    // The document.
    let whole = seq![BlockView::P { parts: seq![both] }];
    assert(none.push(BlockView::P { parts: seq![both] }) == whole);
    assert(element(ev, 1, ev[0]->Start_tag, w[0], none) == (whole, 7int));
    assert(blocks_until(ev, 7, Stop::Never, whole) == (whole, 7int));
    assert(blocks_until(ev, 0, Stop::Never, none) == (whole, 7int));
}

/// Reading a heading moves forward, and not past the end of the events.
pub proof fn lemma_heading_moves_forward(ev: Seq<MdEventView>, pos: int, acc: Seq<char>)
    requires
        0 <= pos <= ev.len(),
    ensures
        pos <= heading_text(ev, pos, acc).1 <= ev.len(),
    decreases ev.len() - pos,
{
    if pos < ev.len() {
        match ev[pos] {
            MdEventView::End { end: MdTagEnd::Heading, .. } => {},
            MdEventView::Text(text) => {
                lemma_heading_moves_forward(ev, pos + 1, acc + text);
            },
            _ => {
                lemma_heading_moves_forward(ev, pos + 1, acc);
            },
        }
    }
}

/// Reading a code block moves forward, and not past the end of the
/// events.
pub proof fn lemma_code_moves_forward(ev: Seq<MdEventView>, pos: int, acc: Seq<char>)
    requires
        0 <= pos <= ev.len(),
    ensures
        pos <= code_text(ev, pos, acc).1 <= ev.len(),
    decreases ev.len() - pos,
{
    if pos < ev.len() {
        match ev[pos] {
            MdEventView::End { end: MdTagEnd::CodeBlock, .. } => {},
            MdEventView::Text(text) => {
                lemma_code_moves_forward(ev, pos + 1, acc + text);
            },
            other => {
                lemma_code_moves_forward(ev, pos + 1, acc + code_note(other));
            },
        }
    }
}

/// Reading blocks moves forward, and not past the end of the events;
/// where nothing closes the run, it reads all events.
pub proof fn lemma_blocks_move_forward(
    ev: Seq<MdEventView>,
    pos: int,
    stop: Stop,
    acc: Seq<BlockView>,
)
    requires
        0 <= pos <= ev.len(),
    ensures
        pos <= blocks_until(ev, pos, stop, acc).1 <= ev.len(),
        stop is Never ==> blocks_until(ev, pos, stop, acc).1 == ev.len(),
    decreases ev.len() - pos, 0int,
{
    if pos < ev.len() {
        match ev[pos] {
            MdEventView::End { end, .. } => {
                if !closes(stop, end) {
                    lemma_blocks_move_forward(
                        ev,
                        pos + 1,
                        stop,
                        push_inline(acc, InlineView::Text(stray_note(ev[pos]))),
                    );
                }
            },
            MdEventView::Start { tag, debug } => {
                lemma_element_moves_forward(ev, pos + 1, tag, debug, acc);
                let (grown, next) = element(ev, pos + 1, tag, debug, acc);
                lemma_blocks_move_forward(ev, next, stop, grown);
            },
            MdEventView::Text(text) => {
                lemma_blocks_move_forward(
                    ev,
                    pos + 1,
                    stop,
                    push_inline(acc, InlineView::Text(text)),
                );
            },
            MdEventView::Code(text) => {
                lemma_blocks_move_forward(
                    ev,
                    pos + 1,
                    stop,
                    push_inline(acc, InlineView::Code(text)),
                );
            },
            MdEventView::SoftBreak => {
                lemma_blocks_move_forward(
                    ev,
                    pos + 1,
                    stop,
                    push_inline(acc, InlineView::Text(" "@)),
                );
            },
            MdEventView::HardBreak => {
                lemma_blocks_move_forward(
                    ev,
                    pos + 1,
                    stop,
                    push_inline(acc, InlineView::Text("\n"@)),
                );
            },
            MdEventView::Rule => {
                lemma_blocks_move_forward(ev, pos + 1, stop, acc.push(BlockView::Hr));
            },
            MdEventView::Other { .. } => {
                lemma_blocks_move_forward(
                    ev,
                    pos + 1,
                    stop,
                    push_inline(acc, InlineView::Text(stray_note(ev[pos]))),
                );
            },
        }
    }
}

/// Reading an element moves forward, and not past the end of the events.
pub proof fn lemma_element_moves_forward(
    ev: Seq<MdEventView>,
    pos: int,
    tag: MdTagView,
    written: Seq<char>,
    acc: Seq<BlockView>,
)
    requires
        0 <= pos <= ev.len(),
    ensures
        pos <= element(ev, pos, tag, written, acc).1 <= ev.len(),
    decreases ev.len() - pos, 2int,
{
    let none = Seq::<BlockView>::empty();
    match tag {
        MdTagView::Paragraph => {
            lemma_blocks_move_forward(ev, pos, Stop::Paragraph, none);
        },
        MdTagView::Heading { .. } => {
            lemma_heading_moves_forward(ev, pos, Seq::empty());
        },
        MdTagView::BlockQuote => {
            lemma_blocks_move_forward(ev, pos, Stop::BlockQuote, none);
        },
        MdTagView::CodeBlock { .. } => {
            lemma_code_moves_forward(ev, pos, Seq::empty());
        },
        MdTagView::List { .. } => {
            lemma_blocks_move_forward(ev, pos, Stop::List, none);
        },
        MdTagView::Item => {
            lemma_blocks_move_forward(ev, pos, Stop::Item, none);
        },
        MdTagView::Emphasis => {
            lemma_blocks_move_forward(ev, pos, Stop::Emphasis, none);
        },
        MdTagView::Strong => {
            lemma_blocks_move_forward(ev, pos, Stop::Strong, none);
        },
        MdTagView::Link { .. } => {
            lemma_blocks_move_forward(ev, pos, Stop::Link, none);
        },
        MdTagView::Image { .. } => {
            lemma_blocks_move_forward(ev, pos, Stop::Image, none);
        },
        MdTagView::HtmlBlock => {},
        MdTagView::Strikethrough => {},
        MdTagView::Superscript => {},
        MdTagView::Subscript => {},
        MdTagView::MetadataBlock => {},
        MdTagView::Unexpected => {},
    }
}

/// An inline part that stands outside any paragraph ends up last in a
/// pseudo paragraph at the end of the blocks, and the blocks before that
/// one stay as they were.
pub proof fn lemma_push_inline_joins(blocks: Seq<BlockView>, part: InlineView)
    ensures
        push_inline(blocks, part).len() > 0,
        push_inline(blocks, part).last() matches BlockView::PseudoP { parts } && parts.len() > 0
            && parts.last() == part,
        blocks.len() > 0 && blocks.last() is PseudoP ==> push_inline(blocks, part).len()
            == blocks.len() && push_inline(blocks, part).drop_last() == blocks.drop_last(),
        !(blocks.len() > 0 && blocks.last() is PseudoP) ==> push_inline(blocks, part).drop_last()
            == blocks,
{
    if blocks.len() > 0 {
        match blocks.last() {
            BlockView::PseudoP { parts } => {
                let joined = BlockView::PseudoP { parts: parts.push(part) };
                assert(blocks.drop_last().push(joined).drop_last() == blocks.drop_last());
            },
            _ => {
                assert(blocks.push(BlockView::PseudoP { parts: seq![part] }).drop_last()
                    == blocks);
            },
        }
    } else {
        assert(blocks.push(BlockView::PseudoP { parts: seq![part] }).drop_last() == blocks);
    }
}

/// Which tags leave no trace of their own, and which leave a note: the
/// tags that are passed over add nothing and read nothing; an HTML block
/// and a tag that this library does not read add a paragraph that holds
/// the tag as the tokenizer writes it.
pub proof fn lemma_tags_without_a_place(
    ev: Seq<MdEventView>,
    pos: int,
    tag: MdTagView,
    written: Seq<char>,
    acc: Seq<BlockView>,
)
    ensures
        passed_over(tag) ==> element(ev, pos, tag, written, acc) == (acc, pos),
        tag is HtmlBlock ==> element(ev, pos, tag, written, acc) == (
            acc.push(note_block("TODO: Start Tag "@ + written)),
            pos,
        ),
        tag is Unexpected ==> element(ev, pos, tag, written, acc) == (
            acc.push(note_block("Unexpected tag: "@ + written)),
            pos,
        ),
{
}

} // verus!

//! How events, inline parts and blocks are written out in notes, so that
//! what has no place in a document stays visible with all it holds.
//!
//! Inline parts and blocks are written in the form of their
//! declarations; tags are written as the tokenizer wrote them. Texts
//! stand in double quotes, with a backslash before a backslash and a
//! double quote, and with `\n`, `\r`, `\t` and `\0` for those four
//! characters.

use vstd::prelude::*;
use vstd::string::StringExecFns;
use crate::browser::widgets::markdown::events::{MdEvent, MdEventView};
use crate::browser::widgets::markdown::tree::{
    block_models, inline_models, lemma_block_models, lemma_inline_models, Block, BlockView,
    Image, ImageView, Inline, InlineView, Link, LinkView, Style,
};
use crate::text::{chars_of, decimal, decimal_chars, string_of};

verus! {

/// A character as it stands inside quotes.
pub open spec fn escaped_char(c: char) -> Seq<char> {
    if c == '\\' {
        seq!['\\', '\\']
    } else if c == '"' {
        seq!['\\', '"']
    } else if c == '\n' {
        seq!['\\', 'n']
    } else if c == '\r' {
        seq!['\\', 'r']
    } else if c == '\t' {
        seq!['\\', 't']
    } else if c == '\0' {
        seq!['\\', '0']
    } else {
        seq![c]
    }
}

/// A text as it stands inside quotes.
pub open spec fn escaped(s: Seq<char>) -> Seq<char>
    decreases s.len(),
{
    if s.len() == 0 {
        Seq::empty()
    } else {
        escaped(s.drop_last()) + escaped_char(s.last())
    }
}

/// A text in quotes.
pub open spec fn quoted(s: Seq<char>) -> Seq<char> {
    seq!['"'] + escaped(s) + seq!['"']
}

/// A text that may be there.
pub open spec fn option_form(text: Option<Seq<char>>) -> Seq<char> {
    match text {
        Some(t) => "Some("@ + quoted(t) + ")"@,
        None => "None"@,
    }
}

/// A number that may be there.
pub open spec fn number_form(number: Option<u64>) -> Seq<char> {
    match number {
        Some(n) => "Some("@ + decimal(n as nat) + ")"@,
        None => "None"@,
    }
}

/// An event. Tags, and events that this library does not read, are
/// written as the tokenizer writes them.
pub open spec fn event_form(event: MdEventView) -> Seq<char> {
    match event {
        MdEventView::Start { debug, .. } => "Start("@ + debug + ")"@,
        MdEventView::End { debug, .. } => "End("@ + debug + ")"@,
        MdEventView::Text(text) => "Text("@ + quoted(text) + ")"@,
        MdEventView::Code(text) => "Code("@ + quoted(text) + ")"@,
        MdEventView::SoftBreak => "SoftBreak"@,
        MdEventView::HardBreak => "HardBreak"@,
        MdEventView::Rule => "Rule"@,
        MdEventView::Other { debug } => debug,
    }
}

/// A link.
pub open spec fn link_form(link: LinkView) -> Seq<char> {
    "Link { href: "@ + quoted(link.href) + ", text: "@ + quoted(link.text) + " }"@
}

/// An image.
pub open spec fn image_form(image: ImageView) -> Seq<char> {
    "Image { src: "@ + quoted(image.src) + ", alt: "@ + quoted(image.alt) + ", title: "@ + quoted(
        image.title,
    ) + " }"@
}

/// A style.
pub open spec fn style_form(style: Style) -> Seq<char> {
    match style {
        Style::Bold => "Bold"@,
        Style::Italics => "Italics"@,
    }
}

/// An inline part, with all that it holds.
pub open spec fn inline_form(part: InlineView) -> Seq<char>
    decreases part, 0int,
{
    match part {
        InlineView::Text(text) => "Text("@ + quoted(text) + ")"@,
        InlineView::Code(text) => "Code("@ + quoted(text) + ")"@,
        InlineView::Link(link) => "Link("@ + link_form(link) + ")"@,
        InlineView::Image(image) => "Image("@ + image_form(image) + ")"@,
        InlineView::LinkedImage { link, image } => "LinkedImage { link: "@ + link_form(link)
            + ", image: "@ + image_form(image) + " }"@,
        InlineView::Styled { style, parts } => "Styled { style: "@ + style_form(style)
            + ", parts: "@ + inline_list_form(parts) + " }"@,
    }
}

/// Inline parts, with a comma and a space between each two of them.
pub open spec fn inline_items(parts: Seq<InlineView>) -> Seq<char>
    decreases parts, 0int,
{
    if parts.len() == 0 {
        Seq::empty()
    } else if parts.len() == 1 {
        inline_form(parts[0])
    } else {
        inline_items(parts.drop_last()) + ", "@ + inline_form(parts.last())
    }
}

/// Inline parts, in square brackets.
pub open spec fn inline_list_form(parts: Seq<InlineView>) -> Seq<char>
    decreases parts, 1int,
{
    "["@ + inline_items(parts) + "]"@
}

/// A block, with all that it holds.
pub open spec fn block_form(block: BlockView) -> Seq<char>
    decreases block, 0int,
{
    match block {
        BlockView::Heading { level, text } => "Heading { level: "@ + decimal(level as nat)
            + ", text: "@ + quoted(text) + " }"@,
        BlockView::CodeBlock { fenced, text } => "CodeBlock { fenced: "@ + option_form(fenced)
            + ", text: "@ + quoted(text) + " }"@,
        BlockView::BlockQuote { blocks } => "BlockQuote { blocks: "@ + block_list_form(blocks)
            + " }"@,
        BlockView::P { parts } => "P { parts: "@ + inline_list_form(parts) + " }"@,
        BlockView::PseudoP { parts } => "PseudoP { parts: "@ + inline_list_form(parts) + " }"@,
        BlockView::List { start_num, blocks } => "List { start_num: "@ + number_form(start_num)
            + ", blocks: "@ + block_list_form(blocks) + " }"@,
        BlockView::ListItem { blocks } => "ListItem { blocks: "@ + block_list_form(blocks) + " }"@,
        BlockView::Hr => "Hr"@,
    }
}

/// Blocks, with a comma and a space between each two of them.
pub open spec fn block_items(blocks: Seq<BlockView>) -> Seq<char>
    decreases blocks, 0int,
{
    if blocks.len() == 0 {
        Seq::empty()
    } else if blocks.len() == 1 {
        block_form(blocks[0])
    } else {
        block_items(blocks.drop_last()) + ", "@ + block_form(blocks.last())
    }
}

/// Blocks, in square brackets.
pub open spec fn block_list_form(blocks: Seq<BlockView>) -> Seq<char>
    decreases blocks, 1int,
{
    "["@ + block_items(blocks) + "]"@
}

/// Writes a text in quotes.
pub fn quote_text(s: &str) -> (out: String)
    ensures
        out@ == quoted(s@),
{
    let chars = chars_of(s);
    let mut out = String::new();
    out.push('"');
    let mut i: usize = 0;
    assert(escaped(chars@.take(0)) == Seq::<char>::empty());
    while i < chars.len()
        invariant
            i <= chars.len(),
            chars@ == s@,
            out@ == seq!['"'] + escaped(chars@.take(i as int)),
        decreases chars.len() - i,
    {
        let c = chars[i];
        let ghost before = escaped(chars@.take(i as int));
        assert(chars@.take(i + 1).drop_last() == chars@.take(i as int));
        assert(chars@.take(i + 1).last() == c);
        if c == '\\' {
            out.push('\\');
            out.push('\\');
        } else if c == '"' {
            out.push('\\');
            out.push('"');
        } else if c == '\n' {
            out.push('\\');
            out.push('n');
        } else if c == '\r' {
            out.push('\\');
            out.push('r');
        } else if c == '\t' {
            out.push('\\');
            out.push('t');
        } else if c == '\0' {
            out.push('\\');
            out.push('0');
        } else {
            out.push(c);
        }
        assert(out@ =~= seq!['"'] + (before + escaped_char(c)));
        i += 1;
    }
    assert(chars@.take(chars.len() as int) == chars@);
    out.push('"');
    assert(out@ =~= quoted(s@));
    out
}

/// Writes a number in decimal.
fn number_text(n: u64) -> (out: String)
    ensures
        out@ == decimal(n as nat),
{
    let digits = decimal_chars(n);
    string_of(digits.as_slice())
}

/// Writes `text` between `before` and `after`.
pub fn wrapped(before: &str, text: &str, after: &str) -> (r: String)
    ensures
        r@ == before@ + text@ + after@,
{
    let mut out = String::from_str(before);
    out.append(text);
    out.append(after);
    out
}

/// Writes a text that may be there.
fn option_text(text: &Option<String>) -> (r: String)
    ensures
        r@ == option_form(
            match *text {
                Some(t) => Some(t@),
                None => None,
            },
        ),
{
    match text {
        Some(t) => wrapped("Some(", quote_text(t.as_str()).as_str(), ")"),
        None => String::from_str("None"),
    }
}

/// Writes a number that may be there.
fn option_number(number: Option<u64>) -> (r: String)
    ensures
        r@ == number_form(number),
{
    match number {
        Some(n) => wrapped("Some(", number_text(n).as_str(), ")"),
        None => String::from_str("None"),
    }
}

/// Writes an event.
pub fn event_text(event: &MdEvent) -> (r: String)
    ensures
        r@ == event_form(event@),
{
    match event {
        MdEvent::Start { debug, .. } => wrapped("Start(", debug.as_str(), ")"),
        MdEvent::End { debug, .. } => wrapped("End(", debug.as_str(), ")"),
        MdEvent::Text(text) => wrapped("Text(", quote_text(text.as_str()).as_str(), ")"),
        MdEvent::Code(text) => wrapped("Code(", quote_text(text.as_str()).as_str(), ")"),
        MdEvent::SoftBreak => String::from_str("SoftBreak"),
        MdEvent::HardBreak => String::from_str("HardBreak"),
        MdEvent::Rule => String::from_str("Rule"),
        MdEvent::Other { debug } => debug.clone(),
    }
}

/// Writes a link.
fn link_text(link: &Link) -> (r: String)
    ensures
        r@ == link_form(link@),
{
    let mut out = String::from_str("Link { href: ");
    out.append(quote_text(link.href.as_str()).as_str());
    out.append(", text: ");
    out.append(quote_text(link.text.as_str()).as_str());
    out.append(" }");
    out
}

/// Writes an image.
fn image_text(image: &Image) -> (r: String)
    ensures
        r@ == image_form(image@),
{
    let mut out = String::from_str("Image { src: ");
    out.append(quote_text(image.src.as_str()).as_str());
    out.append(", alt: ");
    out.append(quote_text(image.alt.as_str()).as_str());
    out.append(", title: ");
    out.append(quote_text(image.title.as_str()).as_str());
    out.append(" }");
    out
}

/// Writes an inline part.
pub fn inline_text(part: &Inline) -> (r: String)
    ensures
        r@ == inline_form(part.model()),
    decreases part,
{
    match part {
        Inline::Text(text) => wrapped("Text(", quote_text(text.as_str()).as_str(), ")"),
        Inline::Code(text) => wrapped("Code(", quote_text(text.as_str()).as_str(), ")"),
        Inline::Link(link) => wrapped("Link(", link_text(link).as_str(), ")"),
        Inline::Image(image) => wrapped("Image(", image_text(image).as_str(), ")"),
        Inline::LinkedImage { link, image } => {
            let mut out = String::from_str("LinkedImage { link: ");
            out.append(link_text(link).as_str());
            out.append(", image: ");
            out.append(image_text(image).as_str());
            out.append(" }");
            out
        },
        Inline::Styled { style, parts } => {
            let mut out = String::from_str("Styled { style: ");
            match style {
                Style::Bold => out.append("Bold"),
                Style::Italics => out.append("Italics"),
            }
            out.append(", parts: ");
            out.append(inline_list_text(parts).as_str());
            out.append(" }");
            out
        },
    }
}

/// Writes inline parts in square brackets.
pub fn inline_list_text(parts: &Vec<Inline>) -> (r: String)
    ensures
        r@ == inline_list_form(inline_models(parts@)),
    decreases parts,
{
    let ghost models = inline_models(parts@);
    let mut out = String::from_str("[");
    let mut i: usize = 0;
    proof {
        lemma_inline_models(parts@);
        assert(inline_items(models.take(0)) == Seq::<char>::empty());
        assert("["@ + Seq::<char>::empty() == "["@);
    }
    while i < parts.len()
        invariant
            i <= parts.len(),
            models == inline_models(parts@),
            models.len() == parts.len(),
            forall|k: int| 0 <= k < parts.len() ==> (#[trigger] models[k]) == parts[k].model(),
            out@ == "["@ + inline_items(models.take(i as int)),
        decreases parts.len() - i,
    {
        let ghost before = inline_items(models.take(i as int));
        if i > 0 {
            out.append(", ");
        }
        assert(decreases_to!(parts => parts[i as int]));
        let text = inline_text(&parts[i]);
        out.append(text.as_str());
        proof {
            let next = models.take(i + 1);
            assert(next.drop_last() == models.take(i as int));
            assert(next.last() == parts[i as int].model());
            if i == 0 {
                assert(next[0] == parts[0].model());
                assert(out@ =~= "["@ + text@);
            } else {
                assert(out@ =~= "["@ + (before + ", "@ + text@));
            }
        }
        i += 1;
    }
    assert(models.take(parts.len() as int) == models);
    out.append("]");
    out
}

/// Writes a block.
pub fn block_text(block: &Block) -> (r: String)
    ensures
        r@ == block_form(block.model()),
    decreases block,
{
    match block {
        Block::Heading { level, text } => {
            let mut out = String::from_str("Heading { level: ");
            out.append(number_text(*level as u64).as_str());
            out.append(", text: ");
            out.append(quote_text(text.as_str()).as_str());
            out.append(" }");
            out
        },
        Block::CodeBlock { fenced, text } => {
            let mut out = String::from_str("CodeBlock { fenced: ");
            out.append(option_text(fenced).as_str());
            out.append(", text: ");
            out.append(quote_text(text.as_str()).as_str());
            out.append(" }");
            out
        },
        Block::BlockQuote { blocks } => wrapped(
            "BlockQuote { blocks: ",
            block_list_text(blocks).as_str(),
            " }",
        ),
        Block::P { parts } => wrapped("P { parts: ", inline_list_text(parts).as_str(), " }"),
        Block::PseudoP { parts } => wrapped(
            "PseudoP { parts: ",
            inline_list_text(parts).as_str(),
            " }",
        ),
        Block::List { start_num, blocks } => {
            let mut out = String::from_str("List { start_num: ");
            out.append(option_number(*start_num).as_str());
            out.append(", blocks: ");
            out.append(block_list_text(blocks).as_str());
            out.append(" }");
            out
        },
        Block::ListItem { blocks } => wrapped(
            "ListItem { blocks: ",
            block_list_text(blocks).as_str(),
            " }",
        ),
        Block::Hr => String::from_str("Hr"),
    }
}

/// Writes blocks in square brackets.
pub fn block_list_text(blocks: &Vec<Block>) -> (r: String)
    ensures
        r@ == block_list_form(block_models(blocks@)),
    decreases blocks,
{
    let ghost models = block_models(blocks@);
    let mut out = String::from_str("[");
    let mut i: usize = 0;
    proof {
        lemma_block_models(blocks@);
        assert(block_items(models.take(0)) == Seq::<char>::empty());
        assert("["@ + Seq::<char>::empty() == "["@);
    }
    while i < blocks.len()
        invariant
            i <= blocks.len(),
            models == block_models(blocks@),
            models.len() == blocks.len(),
            forall|k: int| 0 <= k < blocks.len() ==> (#[trigger] models[k]) == blocks[k].model(),
            out@ == "["@ + block_items(models.take(i as int)),
        decreases blocks.len() - i,
    {
        let ghost before = block_items(models.take(i as int));
        if i > 0 {
            out.append(", ");
        }
        assert(decreases_to!(blocks => blocks[i as int]));
        let text = block_text(&blocks[i]);
        out.append(text.as_str());
        proof {
            let next = models.take(i + 1);
            assert(next.drop_last() == models.take(i as int));
            assert(next.last() == blocks[i as int].model());
            if i == 0 {
                assert(next[0] == blocks[0].model());
                assert(out@ =~= "["@ + text@);
            } else {
                assert(out@ =~= "["@ + (before + ", "@ + text@));
            }
        }
        i += 1;
    }
    assert(models.take(blocks.len() as int) == models);
    out.append("]");
    out
}

} // verus!

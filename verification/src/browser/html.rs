//! A much simplified, lossy reading of HTML: a document tree is
//! flattened to the paragraphs and headings in it.

use vstd::prelude::*;
use crate::text::{
    chars_of, collapse_spaces, collapsed, is_word, replace_all, replaced, same_word, string_of,
    trim, trimmed,
};

verus! {

/// A node of a document tree, with what flattening reads of it.
#[derive(Debug, PartialEq, Eq)]
pub enum HtmlNode {
    /// An element: its name, all the text inside it, and its children.
    Tag { name: String, inner_text: String, children: Vec<HtmlNode> },
    Comment,
    /// Text between elements.
    Raw(String),
}

/// What an [`HtmlNode`] stands for.
pub enum HtmlNodeView {
    Tag { name: Seq<char>, inner_text: Seq<char>, children: Seq<HtmlNodeView> },
    Comment,
    Raw(Seq<char>),
}

impl HtmlNode {
    /// The model of a node.
    pub open spec fn model(self) -> HtmlNodeView
        decreases self,
    {
        match self {
            HtmlNode::Tag { name, inner_text, children } => HtmlNodeView::Tag {
                name: name@,
                inner_text: inner_text@,
                children: node_models(children@),
            },
            HtmlNode::Comment => HtmlNodeView::Comment,
            HtmlNode::Raw(text) => HtmlNodeView::Raw(text@),
        }
    }
}

/// The models of a sequence of nodes.
pub open spec fn node_models(nodes: Seq<HtmlNode>) -> Seq<HtmlNodeView>
    decreases nodes,
{
    if nodes.len() == 0 {
        Seq::empty()
    } else {
        node_models(nodes.drop_last()).push(nodes.last().model())
    }
}

impl View for HtmlNode {
    type V = HtmlNodeView;

    open spec fn view(&self) -> HtmlNodeView {
        self.model()
    }
}

/// The models of nodes, node by node.
pub proof fn lemma_node_models(nodes: Seq<HtmlNode>)
    ensures
        node_models(nodes).len() == nodes.len(),
        forall|i: int|
            0 <= i < nodes.len() ==> (#[trigger] node_models(nodes)[i]) == nodes[i].model(),
    decreases nodes.len(),
{
    if nodes.len() > 0 {
        lemma_node_models(nodes.drop_last());
    }
}

/// A link. Attributes that the element lacks are empty.
#[derive(Debug, Clone, PartialEq, Eq)]
pub struct Link {
    pub text: String,
    pub href: String,
    pub title: String,
    pub alt: String,
}

/// A part of a paragraph.
#[derive(Debug, Clone, PartialEq, Eq)]
pub enum ParaParts {
    Text(String),
    Link(Link),
    /// Emphasis.
    Em(String),
    /// Strong emphasis.
    Strong(String),
}

/// A paragraph.
#[derive(Debug, Clone, PartialEq, Eq)]
pub struct P {
    pub parts: Vec<ParaParts>,
}

/// Preformatted text.
#[derive(Debug, Clone, PartialEq, Eq)]
pub struct Pre {
    pub text: String,
}

/// A heading of level 1 to 6.
#[derive(Debug, Clone, PartialEq, Eq)]
pub struct Heading {
    pub level: u8,
    pub text: String,
}

/// What a flattened document consists of.
#[derive(Debug, Clone, PartialEq, Eq)]
pub enum FlatNode {
    P(P),
    Heading(Heading),
    Pre(Pre),
}

/// What a [`Link`] stands for.
pub struct LinkView {
    pub text: Seq<char>,
    pub href: Seq<char>,
    pub title: Seq<char>,
    pub alt: Seq<char>,
}

/// What a part of a paragraph stands for.
pub enum ParaPartsView {
    Text(Seq<char>),
    Link(LinkView),
    Em(Seq<char>),
    Strong(Seq<char>),
}

/// What a [`FlatNode`] stands for.
pub enum FlatNodeView {
    P { parts: Seq<ParaPartsView> },
    Heading { level: u8, text: Seq<char> },
    Pre { text: Seq<char> },
}

impl View for ParaParts {
    type V = ParaPartsView;

    open spec fn view(&self) -> ParaPartsView {
        match *self {
            ParaParts::Text(text) => ParaPartsView::Text(text@),
            ParaParts::Link(link) => ParaPartsView::Link(
                LinkView { text: link.text@, href: link.href@, title: link.title@, alt: link.alt@ },
            ),
            ParaParts::Em(text) => ParaPartsView::Em(text@),
            ParaParts::Strong(text) => ParaPartsView::Strong(text@),
        }
    }
}

impl View for FlatNode {
    type V = FlatNodeView;

    open spec fn view(&self) -> FlatNodeView {
        match *self {
            FlatNode::P(p) => FlatNodeView::P {
                parts: p.parts@.map_values(|part: ParaParts| part@),
            },
            FlatNode::Heading(h) => FlatNodeView::Heading { level: h.level, text: h.text@ },
            FlatNode::Pre(pre) => FlatNodeView::Pre { text: pre.text@ },
        }
    }
}

/// A paragraph that holds one text.
pub open spec fn text_paragraph(text: Seq<char>) -> FlatNodeView {
    FlatNodeView::P { parts: seq![ParaPartsView::Text(text)] }
}

/// The views of a sequence of flat nodes.
pub open spec fn flat_views(nodes: Seq<FlatNode>) -> Seq<FlatNodeView> {
    nodes.map_values(|n: FlatNode| n@)
}

/// The text of an element as plain text: trimmed, every run of white
/// space written as one space, and then the entities for `&`, the
/// no-break space, `<` and `>` written out, in this order.
pub open spec fn plain_text(value: Seq<char>) -> Seq<char> {
    replaced(
        replaced(
            replaced(replaced(collapsed(trimmed(value)), "&amp;"@, "&"@), "&nbsp;"@, " "@),
            "&lt;"@,
            "<"@,
        ),
        "&gt;"@,
        ">"@,
    )
}

/// Whether an element is passed over with all that is in it.
pub open spec fn skipped(name: Seq<char>) -> bool {
    is_word(name, "script"@) || is_word(name, "style"@) || is_word(name, "head"@)
}

/// The level of the heading that an element of this name is.
pub open spec fn heading_level(name: Seq<char>) -> Option<u8> {
    if is_word(name, "h1"@) {
        Some(1u8)
    } else if is_word(name, "h2"@) {
        Some(2u8)
    } else if is_word(name, "h3"@) {
        Some(3u8)
    } else if is_word(name, "h4"@) {
        Some(4u8)
    } else if is_word(name, "h5"@) {
        Some(5u8)
    } else if is_word(name, "h6"@) {
        Some(6u8)
    } else {
        None
    }
}

/// The flat node that an element makes by itself, if it is a paragraph
/// or a heading.
pub open spec fn tag_node(name: Seq<char>, inner_text: Seq<char>) -> Option<FlatNodeView> {
    if is_word(name, "p"@) {
        Some(text_paragraph(plain_text(inner_text)))
    } else {
        match heading_level(name) {
            Some(level) => Some(FlatNodeView::Heading { level, text: plain_text(inner_text) }),
            None => None,
        }
    }
}

/// What a node flattens to: a paragraph or a heading is kept with its
/// text; scripts, styles and the head are passed over; any other element
/// gives way to its children; comments and loose text are left out.
pub open spec fn flat_node(node: HtmlNodeView) -> Seq<FlatNodeView>
    decreases node,
{
    match node {
        HtmlNodeView::Tag { name, inner_text, children } => if skipped(name) {
            Seq::empty()
        } else {
            match tag_node(name, inner_text) {
                Some(flat) => seq![flat],
                None => flat_nodes(children),
            }
        },
        HtmlNodeView::Comment => Seq::empty(),
        HtmlNodeView::Raw(_) => Seq::empty(),
    }
}

/// What nodes flatten to, in the order of the document.
pub open spec fn flat_nodes(nodes: Seq<HtmlNodeView>) -> Seq<FlatNodeView>
    decreases nodes,
{
    if nodes.len() == 0 {
        Seq::empty()
    } else {
        flat_nodes(nodes.drop_last()) + flat_node(nodes.last())
    }
}

/// Writes out an entity wherever it stands.
fn replace_entity(v: &[char], entity: &str, written: &str) -> (out: Vec<char>)
    ensures
        out@ == replaced(v@, entity@, written@),
{
    replace_all(v, chars_of(entity).as_slice(), chars_of(written).as_slice())
}

/// Turns the text of an element into plain text.
pub fn html_to_plaintext(value: &str) -> (r: String)
    ensures
        r@ == plain_text(value@),
{
    let chars = chars_of(value);
    let trimmed = trim(chars.as_slice());
    let collapsed = collapse_spaces(trimmed.as_slice());
    let amp = replace_entity(collapsed.as_slice(), "&amp;", "&");
    let nbsp = replace_entity(amp.as_slice(), "&nbsp;", " ");
    let lt = replace_entity(nbsp.as_slice(), "&lt;", "<");
    let gt = replace_entity(lt.as_slice(), "&gt;", ">");
    string_of(gt.as_slice())
}

/// Tells whether an element is passed over with all that is in it.
pub fn skip_tag(name: &str) -> (r: bool)
    ensures
        r == skipped(name@),
{
    same_word(name, "script") || same_word(name, "style") || same_word(name, "head")
}

/// Flattens document trees.
#[derive(Debug, Clone, Copy, PartialEq, Eq)]
pub struct FlatParser;

impl FlatParser {
    /// Flattens the top-level nodes of a document.
    pub fn parse(&self, dom: &Vec<HtmlNode>) -> (out: Vec<FlatNode>)
        ensures
            flat_views(out@) == flat_nodes(node_models(dom@)),
    {
        let mut out: Vec<FlatNode> = Vec::new();
        assert(flat_views(out@) =~= Seq::<FlatNodeView>::empty());
        self.parse_nodes(dom, &mut out);
        out
    }

    /// Flattens nodes and adds what they give to `out`.
    fn parse_nodes(&self, nodes: &Vec<HtmlNode>, out: &mut Vec<FlatNode>)
        ensures
            flat_views(final(out)@) == flat_views(old(out)@) + flat_nodes(node_models(nodes@)),
        decreases nodes,
    {
        let ghost start = flat_views(out@);
        let ghost models = node_models(nodes@);
        let mut i: usize = 0;
        proof {
            lemma_node_models(nodes@);
            assert(start + flat_nodes(models.take(0)) =~= start);
        }
        while i < nodes.len()
            invariant
                i <= nodes.len(),
                models == node_models(nodes@),
                models.len() == nodes.len(),
                forall|k: int| 0 <= k < nodes.len() ==> (#[trigger] models[k]) == nodes[k].model(),
                flat_views(out@) == start + flat_nodes(models.take(i as int)),
            decreases nodes.len() - i,
        {
            let ghost before = flat_views(out@);
            proof {
                let next = models.take(i + 1);
                assert(next.drop_last() == models.take(i as int));
                assert(next.last() == nodes[i as int].model());
                assert(start + (flat_nodes(models.take(i as int)) + flat_node(next.last()))
                    == before + flat_node(next.last()));
            }
            match &nodes[i] {
                HtmlNode::Tag { name, inner_text, children } => {
                    if !skip_tag(name.as_str()) {
                        match self.parse_tag(name.as_str(), inner_text.as_str()) {
                            Some(node) => {
                                assert(flat_views(out@.push(node)) =~= before + seq![node@]);
                                out.push(node);
                            },
                            None => {
                                assert(decreases_to!(nodes => nodes[i as int]));
                                self.parse_nodes(children, out);
                            },
                        }
                    } else {
                        assert(before + Seq::<FlatNodeView>::empty() == before);
                    }
                },
                HtmlNode::Comment => {
                    assert(before + Seq::<FlatNodeView>::empty() == before);
                },
                HtmlNode::Raw(_) => {
                    assert(before + Seq::<FlatNodeView>::empty() == before);
                },
            }
            i += 1;
        }
        assert(models.take(nodes.len() as int) == models);
    }

    /// Reads an element that makes a flat node by itself.
    pub fn parse_tag(&self, name: &str, inner_text: &str) -> (r: Option<FlatNode>)
        ensures
            match r {
                Some(node) => tag_node(name@, inner_text@) == Some(node@),
                None => tag_node(name@, inner_text@) is None,
            },
    {
        if same_word(name, "p") {
            return Some(self.parse_p(inner_text));
        }
        let head_level: Option<u8> = if same_word(name, "h1") {
            Some(1)
        } else if same_word(name, "h2") {
            Some(2)
        } else if same_word(name, "h3") {
            Some(3)
        } else if same_word(name, "h4") {
            Some(4)
        } else if same_word(name, "h5") {
            Some(5)
        } else if same_word(name, "h6") {
            Some(6)
        } else {
            None
        };
        match head_level {
            Some(level) => Some(
                FlatNode::Heading(Heading { level, text: html_to_plaintext(inner_text) }),
            ),
            None => None,
        }
    }

    /// Reads a paragraph.
    pub fn parse_p(&self, inner_text: &str) -> (r: FlatNode)
        ensures
            r@ == text_paragraph(plain_text(inner_text@)),
    {
        let mut parts: Vec<ParaParts> = Vec::new();
        parts.push(ParaParts::Text(html_to_plaintext(inner_text)));
        assert(parts@.map_values(|part: ParaParts| part@) =~= seq![
            ParaPartsView::Text(plain_text(inner_text@)),
        ]);
        FlatNode::P(P { parts })
    }
}

} // verus!

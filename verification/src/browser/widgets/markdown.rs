//! Documents built from a stream of markdown events.

pub mod events;
pub mod notes;
pub mod tree;

use vstd::prelude::*;
use crate::browser::widgets::markdown::events::md_events;
use crate::browser::widgets::markdown::tree::{
    block_models, document, lemma_block_models, Block, BlockView, Parser,
};
use crate::browser::widgets::DocumentResponse;
use crate::gemtext_widget::text_view;

verus! {

/// A document of markdown.
#[derive(Debug)]
pub struct MarkdownWidget {
    justify: bool,
    parsed_blocks: Vec<Block>,
    link_clicked: Option<String>,
    text_bold: bool,
    text_italics: bool,
}

/// What a [`MarkdownWidget`] stands for.
pub struct MarkdownWidgetView {
    pub justify: bool,
    pub blocks: Seq<BlockView>,
    pub link_clicked: Option<Seq<char>>,
    pub text_bold: bool,
    pub text_italics: bool,
}

impl View for MarkdownWidget {
    type V = MarkdownWidgetView;

    closed spec fn view(&self) -> MarkdownWidgetView {
        MarkdownWidgetView {
            justify: self.justify,
            blocks: block_models(self.parsed_blocks@),
            link_clicked: text_view(self.link_clicked),
            text_bold: self.text_bold,
            text_italics: self.text_italics,
        }
    }
}

/// A fresh document with the given blocks.
pub open spec fn fresh(blocks: Seq<BlockView>) -> MarkdownWidgetView {
    MarkdownWidgetView {
        justify: false,
        blocks,
        link_clicked: None,
        text_bold: false,
        text_italics: false,
    }
}

/// Whether space follows the block at `index`: between two blocks, unless
/// the first is a pseudo paragraph.
pub open spec fn spaced(blocks: Seq<BlockView>, index: int) -> bool {
    0 <= index && index + 1 < blocks.len() && !(blocks[index] is PseudoP)
}

impl MarkdownWidget {
    /// The document of a markdown text.
    pub fn for_md(md: &str) -> (r: Self)
        ensures
            r@ == fresh(document(md_events(md@, 0))),
    {
        let parsed = Parser::from_md(md);
        MarkdownWidget {
            justify: false,
            parsed_blocks: parsed.blocks,
            link_clicked: None,
            text_bold: false,
            text_italics: false,
        }
    }

    /// The blocks of the document.
    pub fn blocks(&self) -> (r: &Vec<Block>)
        ensures
            block_models(r@) == self@.blocks,
    {
        &self.parsed_blocks
    }

    /// Whether lines are justified.
    pub fn justify(&self) -> (r: bool)
        ensures
            r == self@.justify,
    {
        self.justify
    }

    /// Tells whether space follows the block at `index` of `blocks`.
    pub fn line_spacing(blocks: &Vec<Block>, index: usize) -> (r: bool)
        ensures
            r == spaced(block_models(blocks@), index as int),
    {
        proof {
            lemma_block_models(blocks@);
        }
        if index >= blocks.len() || blocks.len() - index < 2 {
            return false;
        }
        !matches!(&blocks[index], Block::PseudoP { .. })
    }

    /// Notes that a link was activated.
    pub fn click(&mut self, href: String)
        ensures
            final(self)@ == (MarkdownWidgetView { link_clicked: Some(href@), ..old(self)@ }),
    {
        self.link_clicked = Some(href);
    }

    /// Hands out the link that was activated since the last call, if any.
    pub fn respond(&mut self) -> (r: DocumentResponse)
        ensures
            text_view(r.link_clicked) == old(self)@.link_clicked,
            final(self)@ == (MarkdownWidgetView { link_clicked: None, ..old(self)@ }),
    {
        DocumentResponse { link_clicked: self.link_clicked.take() }
    }
}

} // verus!

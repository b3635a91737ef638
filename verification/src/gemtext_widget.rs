//! A document of line-oriented markup, as a tab holds it.

use vstd::prelude::*;
use crate::gemtext::{models, Block, BlockView};

verus! {

/// A document of line-oriented markup.
#[derive(Debug)]
pub struct GemtextWidget {
    blocks: Vec<Block>,
    justify: bool,
    link_clicked: Option<String>,
}

/// What a widget reports after it was shown.
#[derive(Debug, Clone, PartialEq, Eq)]
pub struct Response {
    pub link_clicked: Option<String>,
}

/// What a [`GemtextWidget`] stands for.
pub struct GemtextWidgetView {
    pub blocks: Seq<BlockView>,
    pub justify: bool,
    pub link_clicked: Option<Seq<char>>,
}

/// Whether the blocks start with a heading of level 1.
pub open spec fn is_title_block(blocks: Seq<BlockView>) -> bool {
    blocks.len() > 0 && (blocks[0] matches BlockView::Heading { level, .. } && level == 1)
}

/// The view of a text that may be there.
pub open spec fn text_view(text: Option<String>) -> Option<Seq<char>> {
    match text {
        Some(t) => Some(t@),
        None => None,
    }
}

impl View for GemtextWidget {
    type V = GemtextWidgetView;

    closed spec fn view(&self) -> GemtextWidgetView {
        GemtextWidgetView {
            blocks: models(self.blocks@),
            justify: self.justify,
            link_clicked: text_view(self.link_clicked),
        }
    }
}

impl Default for GemtextWidget {
    fn default() -> (r: Self)
        ensures
            r@ == (GemtextWidgetView { blocks: Seq::empty(), justify: false, link_clicked: None }),
    {
        GemtextWidget { blocks: Vec::new(), justify: false, link_clicked: None }
    }
}

impl GemtextWidget {
    /// Replaces the blocks of the document.
    pub fn set_blocks(&mut self, blocks: Vec<Block>)
        ensures
            final(self)@ == (GemtextWidgetView { blocks: models(blocks@), ..old(self)@ }),
    {
        self.blocks = blocks;
    }

    /// The blocks of the document.
    pub fn blocks(&self) -> (r: &Vec<Block>)
        ensures
            models(r@) == self@.blocks,
    {
        &self.blocks
    }

    /// Whether lines are justified.
    pub fn justify(&self) -> (r: bool)
        ensures
            r == self@.justify,
    {
        self.justify
    }

    /// Notes that a link was activated.
    pub fn click(&mut self, url: String)
        ensures
            final(self)@ == (GemtextWidgetView { link_clicked: Some(url@), ..old(self)@ }),
    {
        self.link_clicked = Some(url);
    }

    /// Hands out the link that was activated since the last call, if any.
    pub fn respond(&mut self) -> (r: Response)
        ensures
            text_view(r.link_clicked) == old(self)@.link_clicked,
            final(self)@ == (GemtextWidgetView { link_clicked: None, ..old(self)@ }),
    {
        Response { link_clicked: self.link_clicked.take() }
    }

    /// Whether the block at `index` is the title of the document: a
    /// heading of level 1 in the first place.
    pub fn is_title(&self, index: usize) -> (r: bool)
        ensures
            r == (index == 0 && is_title_block(self@.blocks)),
    {
        proof {
            crate::gemtext::lemma_models(self.blocks@);
        }
        if index != 0 || self.blocks.len() == 0 {
            return false;
        }
        match &self.blocks[0] {
            Block::Heading { level, .. } => *level == 1,
            _ => false,
        }
    }
}

/// A text style that is known by its name.
#[derive(Debug, Clone, Copy, PartialEq, Eq)]
pub enum TextStyle {
    H1,
    H2,
    H3,
    Mono,
    Title,
}

impl TextStyle {
    /// The name under which the style is registered.
    pub open spec fn name(self) -> Seq<char> {
        match self {
            TextStyle::H1 => "H1"@,
            TextStyle::H2 => "H2"@,
            TextStyle::H3 => "H3"@,
            TextStyle::Mono => "gemtext-mono"@,
            TextStyle::Title => "Title"@,
        }
    }

    /// The name under which the style is registered.
    pub fn named(&self) -> (r: &'static str)
        ensures
            r@ == self.name(),
    {
        match self {
            TextStyle::H1 => "H1",
            TextStyle::H2 => "H2",
            TextStyle::H3 => "H3",
            TextStyle::Mono => "gemtext-mono",
            TextStyle::Title => "Title",
        }
    }
}

/// The text styles of a document.
pub struct Style;

impl Style {
    /// The style of a heading: levels up to 1 are the largest, level 2 is
    /// smaller, and all further levels are alike.
    pub fn heading(level: u8) -> (r: TextStyle)
        ensures
            r == (if level <= 1 {
                TextStyle::H1
            } else if level == 2 {
                TextStyle::H2
            } else {
                TextStyle::H3
            }),
    {
        if level <= 1 {
            Self::h1()
        } else if level == 2 {
            Self::h2()
        } else {
            Self::h3()
        }
    }

    /// The style of headings of the first level.
    pub fn h1() -> (r: TextStyle)
        ensures
            r == TextStyle::H1,
    {
        TextStyle::H1
    }

    /// The style of headings of the second level.
    pub fn h2() -> (r: TextStyle)
        ensures
            r == TextStyle::H2,
    {
        TextStyle::H2
    }

    /// The style of headings of all further levels.
    pub fn h3() -> (r: TextStyle)
        ensures
            r == TextStyle::H3,
    {
        TextStyle::H3
    }

    /// The style of code.
    pub fn mono() -> (r: TextStyle)
        ensures
            r == TextStyle::Mono,
    {
        TextStyle::Mono
    }

    /// The style of the first heading of level 1: the title of the page.
    pub fn title() -> (r: TextStyle)
        ensures
            r == TextStyle::Title,
    {
        TextStyle::Title
    }
}

} // verus!

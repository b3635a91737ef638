//! An editor of line-oriented markup: the text on one side, what it
//! parses to on the other.

use vstd::prelude::*;
use vstd::string::StringExecFns;
use crate::gemtext::{lemma_models_push, models, parse_spec, Block, BlockView, Options};
use crate::gemtext_widget::{GemtextWidget, GemtextWidgetView};

verus! {

/// The blocks that the editor shows for a text: what the text parses to,
/// or one line that says that it does not parse.
pub open spec fn rendered(text: Seq<char>) -> Seq<BlockView> {
    match parse_spec(false, text) {
        Ok(blocks) => blocks,
        Err(_) => seq![BlockView::Text("Error parsing"@)],
    }
}

/// Shows in `gemtext` what `text` parses to.
pub fn rerender(gemtext: &mut GemtextWidget, text: &str)
    ensures
        final(gemtext)@ == (GemtextWidgetView { blocks: rendered(text@), ..old(gemtext)@ }),
{
    let result = Options::default().parse(text);
    match result {
        Ok(blocks) => {
            gemtext.set_blocks(blocks);
        },
        Err(_) => {
            let mut blocks: Vec<Block> = Vec::new();
            let block = Block::Text(String::from_str("Error parsing"));
            proof {
                lemma_models_push(blocks@, block);
                assert(models(blocks@) =~= Seq::<BlockView>::empty());
            }
            blocks.push(block);
            assert(models(blocks@) =~= rendered(text@));
            gemtext.set_blocks(blocks);
        },
    }
}

} // verus!

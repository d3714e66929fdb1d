use vstd::prelude::*;
use crate::html::{Block, BlockClass, BlockView, Span, blocks_view};

verus! {

/// A piece of text to lay out, with the size of its block relative to the
/// base font size, in hundredths.
pub struct TextRun<'a> {
    pub text: &'a str,
    pub scale_percent: u32,
}

impl<'a> View for TextRun<'a> {
    /// (text, scale in hundredths)
    type V = (Seq<char>, u32);

    open spec fn view(&self) -> (Seq<char>, u32) {
        (self.text@, self.scale_percent)
    }
}

pub open spec fn runs_view<'a>(s: Seq<TextRun<'a>>) -> Seq<(Seq<char>, u32)> {
    s.map_values(|r: TextRun<'a>| r@)
}

/// The size of a block's text relative to the base size, in hundredths:
/// headings `h1` to `h6` are 2, 1.5, 1.17, 1, 0.83 and 0.67 times the base,
/// other blocks the base size.
pub open spec fn heading_percent(class: BlockClass) -> u32 {
    match class {
        BlockClass::H1 => 200,
        BlockClass::H2 => 150,
        BlockClass::H3 => 117,
        BlockClass::H4 => 100,
        BlockClass::H5 => 83,
        BlockClass::H6 => 67,
        _ => 100,
    }
}

/// The runs of one block: each span's text, in order, at the block's size.
pub open spec fn block_runs_view(b: BlockView) -> Seq<(Seq<char>, u32)> {
    b.content.map_values(|s: crate::html::SpanView| (s.content, heading_percent(b.class)))
}

/// The runs of a sequence of blocks, block after block.
pub open spec fn document_runs_view(bs: Seq<BlockView>) -> Seq<(Seq<char>, u32)>
    decreases bs.len(),
{
    if bs.len() == 0 {
        seq![]
    } else {
        document_runs_view(bs.drop_last()) + block_runs_view(bs.last())
    }
}

/// The size of a block's text relative to the base size, in hundredths.
pub fn heading_scale_percent(class: BlockClass) -> (r: u32)
    ensures
        r == heading_percent(class),
{
    match class {
        BlockClass::H1 => 200,
        BlockClass::H2 => 150,
        BlockClass::H3 => 117,
        BlockClass::H4 => 100,
        BlockClass::H5 => 83,
        BlockClass::H6 => 67,
        _ => 100,
    }
}

/// The text runs of one block: one per span, in order, each at the block's size.
pub fn block_runs<'a>(block: &'a Block) -> (runs: Vec<TextRun<'a>>)
    ensures
        runs_view(runs@) == block_runs_view(block@),
{
    let percent = heading_scale_percent(block.class);
    let mut runs: Vec<TextRun<'a>> = Vec::new();
    let n = block.content.len();
    let mut i: usize = 0;
    while i < n
        invariant
            n == block.content@.len(),
            i <= n,
            percent == heading_percent(block.class),
            runs_view(runs@) =~= block_runs_view(block@).take(i as int),
        decreases n - i,
    {
        let span: &'a Span = &block.content[i];
        match span {
            Span::Text { content, .. } => {
                let ghost before = runs@;
                runs.push(TextRun { text: content.as_str(), scale_percent: percent });
                proof {
                    assert(block@.content[i as int] == block.content@[i as int]@);
                    assert(runs_view(runs@) =~= runs_view(before).push(runs@.last()@));
                    assert(block_runs_view(block@).take(i + 1) =~= block_runs_view(block@).take(
                        i as int,
                    ).push(block_runs_view(block@)[i as int]));
                }
            },
        }
        i = i + 1;
    }
    runs
}

/// The text runs of a document: those of each block, block after block.
pub fn document_runs<'a>(blocks: &'a Vec<Block>) -> (runs: Vec<TextRun<'a>>)
    ensures
        runs_view(runs@) == document_runs_view(blocks_view(blocks@)),
{
    let mut runs: Vec<TextRun<'a>> = Vec::new();
    let n = blocks.len();
    let mut i: usize = 0;
    while i < n
        invariant
            n == blocks@.len(),
            i <= n,
            runs_view(runs@) == document_runs_view(blocks_view(blocks@.take(i as int))),
        decreases n - i,
    {
        let mut more = block_runs(&blocks[i]);
        let ghost before = runs@;
        let ghost added = more@;
        runs.append(&mut more);
        proof {
            assert(blocks_view(blocks@.take(i + 1)).drop_last() =~= blocks_view(blocks@.take(i as int)));
            assert(runs_view(before + added) =~= runs_view(before) + runs_view(added));
        }
        i = i + 1;
    }
    proof {
        assert(blocks@.take(n as int) =~= blocks@);
    }
    runs
}

} // verus!

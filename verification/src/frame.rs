//! The frame assembler: the latest output of every block, merged in the
//! order in which the blocks were configured.

use crate::widget::{Widget, WidgetView};
use vstd::prelude::*;

verus! {

/// The latest output of each block, by block id, and whether it changed
/// since the last frame was handed out.
pub struct FrameAssembler {
    outputs: Vec<Vec<Widget>>,
    stale: bool,
}

/// The mathematical value of a [`FrameAssembler`].
pub struct FrameView {
    pub outputs: Seq<Seq<WidgetView>>,
    pub stale: bool,
}

impl FrameView {
    /// The frame: the outputs of block 0, then those of block 1, and so on.
    pub open spec fn frame(self) -> Seq<WidgetView> {
        self.outputs.flatten()
    }

    /// The state after block `id` delivered `output`. An id that names no
    /// block changes nothing.
    pub open spec fn stored(self, id: usize, output: Seq<WidgetView>) -> FrameView {
        if id < self.outputs.len() {
            FrameView { outputs: self.outputs.update(id as int, output), stale: true }
        } else {
            self
        }
    }
}

impl View for FrameAssembler {
    type V = FrameView;

    closed spec fn view(&self) -> FrameView {
        FrameView { outputs: self.outputs.deep_view(), stale: self.stale }
    }
}

/// The number of widgets that precede the output of block `id` in the frame.
pub open spec fn offset(outputs: Seq<Seq<WidgetView>>, id: int) -> int {
    outputs.take(id).flatten().len() as int
}

impl FrameAssembler {
    /// An assembler for `blocks` blocks, none of which has rendered yet.
    pub fn new(blocks: usize) -> (f: FrameAssembler)
        ensures
            f@.outputs == Seq::new(blocks as nat, |i: int| Seq::<WidgetView>::empty()),
            !f@.stale,
    {
        let mut outputs: Vec<Vec<Widget>> = Vec::new();
        let mut i: usize = 0;
        while i < blocks
            invariant
                i <= blocks,
                outputs@.len() == i,
                forall|k: int| 0 <= k < i ==> (#[trigger] outputs@[k])@.len() == 0,
            decreases blocks - i,
        {
            outputs.push(Vec::new());
            i += 1;
        }
        let f = FrameAssembler { outputs, stale: false };
        assert(f@.outputs =~~= Seq::new(blocks as nat, |i: int| Seq::<WidgetView>::empty()));
        f
    }

    /// The number of blocks.
    pub fn blocks(&self) -> (n: usize)
        ensures
            n == self@.outputs.len(),
    {
        self.outputs.len()
    }

    /// Whether an output changed since the last frame was handed out.
    pub fn is_stale(&self) -> (r: bool)
        ensures
            r == self@.stale,
    {
        self.stale
    }

    /// Replaces the output of block `id` and marks the frame stale. Returns
    /// whether `id` names a block; if not, nothing changes.
    pub fn store(&mut self, id: usize, output: Vec<Widget>) -> (known: bool)
        ensures
            known == (id < old(self)@.outputs.len()),
            final(self)@ == old(self)@.stored(id, output.deep_view()),
        no_unwind
    {
        if id < self.outputs.len() {
            self.outputs[id] = output;
            self.stale = true;
            assert(self@.outputs =~~= old(self)@.outputs.update(id as int, output.deep_view()));
            true
        } else {
            false
        }
    }

    /// The frame as it stands: every block's latest output, in block order.
    pub fn frame(&self) -> (frame: Vec<Widget>)
        ensures
            frame.deep_view() == self@.frame(),
    {
        let ghost outputs = self@.outputs;
        let mut frame: Vec<Widget> = Vec::new();
        let mut i: usize = 0;
        while i < self.outputs.len()
            invariant
                i <= self.outputs@.len(),
                outputs == self.outputs.deep_view(),
                frame.deep_view() == outputs.take(i as int).flatten_alt(),
            decreases self.outputs@.len() - i,
        {
            let output = &self.outputs[i];
            let ghost before = frame.deep_view();
            let mut k: usize = 0;
            while k < output.len()
                invariant
                    k <= output@.len(),
                    frame.deep_view() == before + output.deep_view().take(k as int),
                decreases output@.len() - k,
            {
                let ghost so_far = frame.deep_view();
                frame.push(output[k].clone());
                assert(frame.deep_view() =~= so_far.push(output@[k as int]@));
                assert(output.deep_view().take(k as int + 1) =~= output.deep_view().take(
                    k as int,
                ).push(output@[k as int]@));
                k += 1;
            }
            proof {
                assert(outputs.take(i as int + 1).drop_last() =~= outputs.take(i as int));
                assert(outputs.take(i as int + 1).last() == output.deep_view());
            }
            i += 1;
        }
        proof {
            assert(outputs.take(i as int) =~= outputs);
            outputs.lemma_flatten_and_flatten_alt_are_equivalent();
        }
        frame
    }

    /// Marks the frame fresh: no output changed since it was handed out.
    pub fn mark_fresh(&mut self)
        ensures
            final(self)@ == (FrameView { stale: false, ..old(self)@ }),
        no_unwind
    {
        self.stale = false;
    }

    /// Hands out the frame if an output changed since the last one was
    /// handed out, and marks it fresh.
    pub fn emit(&mut self) -> (frame: Option<Vec<Widget>>)
        ensures
            final(self)@ == (FrameView { stale: false, ..old(self)@ }),
            match frame {
                Some(widgets) => old(self)@.stale && widgets.deep_view() == old(self)@.frame(),
                None => !old(self)@.stale,
            },
    {
        if self.stale {
            let frame = self.frame();
            self.mark_fresh();
            Some(frame)
        } else {
            None
        }
    }
}

/// Flattening distributes over cutting the blocks in two at `at`.
proof fn lemma_flatten_split(outputs: Seq<Seq<WidgetView>>, at: int)
    requires
        0 <= at <= outputs.len(),
    ensures
        outputs.flatten() == outputs.take(at).flatten() + outputs.skip(at).flatten(),
{
    assert(outputs =~= outputs.take(at) + outputs.skip(at));
    vstd::seq_lib::lemma_flatten_concat(outputs.take(at), outputs.skip(at));
}

/// The frame lists the blocks in the order of their ids, whatever the order
/// in which their outputs arrived: widget `k` of block `id` stands in the
/// frame behind all widgets of the blocks before `id`, and a block with a
/// higher id starts behind it.
pub proof fn lemma_frame_in_block_order(f: FrameView, id: int, k: int)
    requires
        0 <= id < f.outputs.len(),
        0 <= k < f.outputs[id].len(),
    ensures
        0 <= offset(f.outputs, id) + k < f.frame().len(),
        f.frame()[offset(f.outputs, id) + k] == f.outputs[id][k],
        forall|later: int|
            id < later <= f.outputs.len() ==> offset(f.outputs, id) + k < #[trigger] offset(
                f.outputs,
                later,
            ),
{
    let outputs = f.outputs;
    lemma_flatten_split(outputs, id);
    assert(outputs.skip(id).first() == outputs[id]);
    assert forall|later: int| id < later <= outputs.len() implies offset(outputs, id) + k
        < #[trigger] offset(outputs, later) by {
        let head = outputs.take(later);
        lemma_flatten_split(head, id);
        assert(head.take(id) =~= outputs.take(id));
        assert(head.skip(id).first() == outputs[id]);
    }
}

/// The frame does not depend on the order in which renders complete: the
/// outputs of two different blocks may arrive either way round.
pub proof fn lemma_frame_order_invariant(
    f: FrameView,
    a: usize,
    x: Seq<WidgetView>,
    b: usize,
    y: Seq<WidgetView>,
)
    requires
        a != b,
    ensures
        f.stored(a, x).stored(b, y) == f.stored(b, y).stored(a, x),
        f.stored(a, x).stored(b, y).frame() == f.stored(b, y).stored(a, x).frame(),
{
    assert(f.stored(a, x).stored(b, y).outputs =~= f.stored(b, y).stored(a, x).outputs);
}

} // verus!

//! What the core asks of every block.
//!
//! A block renders by means of its own, which the core does not see: the
//! loop starts a render when the scheduler says so and reports its end. The
//! core itself asks a block for its cadence and its subscription when the
//! block is registered, and tells it of signals and clicks.

use crate::error::Error;
use crate::router::ClickEvent;
use crate::scheduler::BlockInfo;
use crate::update::Update;
use vstd::prelude::*;

verus! {

/// A program for the caller to run and not to wait for: `shell -c command`.
#[derive(Debug, PartialEq, Eq)]
pub struct Launch {
    pub shell: String,
    pub command: String,
}

/// The mathematical value of a [`Launch`].
pub struct LaunchView {
    pub shell: Seq<char>,
    pub command: Seq<char>,
}

impl View for Launch {
    type V = LaunchView;

    open spec fn view(&self) -> LaunchView {
        LaunchView { shell: self.shell@, command: self.command@ }
    }
}

impl DeepView for Launch {
    type V = LaunchView;

    open spec fn deep_view(&self) -> LaunchView {
        self@
    }
}

/// What a click came to: the program to launch, if the block has one for
/// clicks, and whether the handler succeeded.
#[derive(Debug, PartialEq, Eq)]
pub struct ClickOutcome {
    pub launch: Option<Launch>,
    pub result: Result<(), Error>,
}

/// The capabilities of a block. Handlers do not wait: they return at once,
/// and what takes long is done by the caller.
pub trait Block {
    /// The block's id: its place among the configured blocks.
    fn id(&self) -> usize;

    /// The cadence on which the block is rendered again.
    fn update_interval(&self) -> Update;

    /// The signal that the block subscribed to, if any.
    fn subscription(&self) -> Option<i32>;

    /// Tells the block of a signal at `now`.
    fn signal(&mut self, signal: i32, now: u64) -> Result<(), Error>;

    /// Tells the block of a click at `now`.
    fn click(&mut self, event: &ClickEvent, now: u64) -> ClickOutcome;
}

/// Registers `blocks` for a scheduler: one entry for each block, in their
/// order, with what the block says of its cadence and its subscription.
///
/// A block's id is its place among the blocks: the queue, the router and
/// the frame all go by it. Blocks whose ids are not 0, 1, 2 and so on, in
/// this order, are refused.
pub fn register<B: Block>(blocks: &Vec<B>) -> (r: Option<Vec<BlockInfo>>)
    ensures
        match r {
            Some(infos) => {
                &&& infos@.len() == blocks@.len()
                &&& forall|i: int|
                    #![trigger infos@[i]]
                    0 <= i < blocks@.len() ==> {
                        &&& call_ensures(B::id, (&blocks@[i],), i as usize)
                        &&& call_ensures(B::update_interval, (&blocks@[i],), infos@[i].update)
                        &&& call_ensures(B::subscription, (&blocks@[i],), infos@[i].signal)
                    }
            },
            None => exists|i: int, id: usize|
                0 <= i < blocks@.len() && id != i && call_ensures(B::id, (&blocks@[i],), id),
        },
{
    let mut infos: Vec<BlockInfo> = Vec::new();
    let mut i: usize = 0;
    while i < blocks.len()
        invariant
            i <= blocks@.len(),
            infos@.len() == i,
            forall|k: int|
                #![trigger infos@[k]]
                0 <= k < i ==> {
                    &&& call_ensures(B::id, (&blocks@[k],), k as usize)
                    &&& call_ensures(B::update_interval, (&blocks@[k],), infos@[k].update)
                    &&& call_ensures(B::subscription, (&blocks@[k],), infos@[k].signal)
                },
        decreases blocks@.len() - i,
    {
        let id: usize = blocks[i].id();
        if id != i {
            return None;
        }
        let update = blocks[i].update_interval();
        let signal = blocks[i].subscription();
        infos.push(BlockInfo { update, signal });
        i += 1;
    }
    Some(infos)
}

} // verus!

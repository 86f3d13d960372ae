//! The scheduler: which block renders when.
//!
//! The scheduler decides and never waits. The loop around it waits for the
//! wake time or for an event, tells the scheduler what happened, starts the
//! renders that the scheduler asks for, and reports each one when it is done.

use crate::block::{Block, ClickOutcome};
use crate::error::{Error, ErrorView};
use crate::frame::{FrameAssembler, FrameView};
use crate::queue::{fires_before, no_tasks, none_due, pending_after, upserted, Task, TaskQueue};
use crate::router::{subscribed, told, ClickEvent, EventRouter, Signalled};
use crate::update::Update;
use crate::widget::{error_widget_view, output_of, output_view, Widget, WidgetView};
use vstd::prelude::*;

verus! {

/// What the scheduler is told of a block when it is set up.
#[derive(Clone, Copy, Debug, PartialEq, Eq, Structural)]
pub struct BlockInfo {
    /// The cadence on which the block is rendered again.
    pub update: Update,
    /// The signal that the block subscribed to, if any.
    pub signal: Option<i32>,
}

/// What the loop tells the scheduler when it wakes it.
#[derive(Debug, PartialEq, Eq)]
pub enum Event {
    /// The wake time came.
    Wake,
    /// A block asked to be rendered again.
    Request(Task),
    /// A signal arrived.
    Signal(i32),
    /// A click came from the bar host.
    Click(ClickEvent),
    /// The render of block `id` ended.
    Completed { id: usize, result: Result<Vec<Widget>, Error> },
}

/// What waking the scheduler came to, and what the loop has to do now.
#[derive(Debug, PartialEq, Eq)]
pub struct Actions {
    /// What each block that was told of the signal returned, to be logged.
    pub signalled: Vec<Signalled>,
    /// What the block that was told of the click returned: the program to
    /// launch, and a failure to be logged.
    pub clicked: Option<ClickOutcome>,
    /// The blocks whose render is to be started, in this order.
    pub start: Vec<usize>,
    /// The frame to write.
    pub frame: Option<Vec<Widget>>,
}

/// The mathematical value of a [`Scheduler`]. Blocks are numbered from 0 in
/// the order in which they were configured.
pub struct SchedulerView {
    /// The cadence of each block.
    pub directives: Seq<Update>,
    /// The signal each block subscribed to.
    pub signals: Seq<Option<i32>>,
    /// For each block, whether a render of it is in flight.
    pub rendering: Seq<bool>,
    /// The latest output of each block.
    pub frame: FrameView,
    /// The due time of each block that has a pending task.
    pub queue: Map<usize, u64>,
}

impl SchedulerView {
    /// The number of blocks.
    pub open spec fn blocks(self) -> nat {
        self.directives.len()
    }

    /// Every part speaks of the same blocks, and only they have tasks.
    pub open spec fn wf(self) -> bool {
        &&& self.signals.len() == self.blocks()
        &&& self.rendering.len() == self.blocks()
        &&& self.frame.outputs.len() == self.blocks()
        &&& forall|id: usize| self.queue.contains_key(id) ==> id < self.blocks()
    }

    /// Block `id` has a task that is due at `now`.
    pub open spec fn is_due(self, id: usize, now: u64) -> bool {
        self.queue.contains_key(id) && self.queue[id] <= now
    }

    /// Firing at `now` starts a render of block `id`: its task is due and no
    /// render of it is in flight.
    pub open spec fn starts(self, id: usize, now: u64) -> bool {
        self.is_due(id, now) && id < self.rendering.len() && !self.rendering[id as int]
    }

    /// The state after firing at `now`: every due task has left the queue,
    /// and every block that had one is rendering.
    pub open spec fn fired(self, now: u64) -> SchedulerView {
        SchedulerView {
            queue: pending_after(self.queue, now),
            rendering: Seq::new(
                self.rendering.len(),
                |i: int| self.rendering[i] || self.is_due(i as usize, now),
            ),
            ..self
        }
    }

    /// The state after a request to render again. A request for an id that
    /// names no block is dropped.
    pub open spec fn requested(self, task: Task) -> SchedulerView {
        if task.id < self.blocks() {
            SchedulerView { queue: upserted(self.queue, task.id, task.update_time), ..self }
        } else {
            self
        }
    }

    /// A completed render of block `id` is taken: the block exists and a
    /// render of it is in flight.
    pub open spec fn awaits(self, id: usize) -> bool {
        id < self.blocks() && id < self.rendering.len() && self.rendering[id as int]
    }

    /// The state after a render of block `id` ended at `now` and left
    /// `output`: the output is stored, the block is idle, and it is
    /// scheduled again as its cadence says, counted from `now`.
    pub open spec fn completed(
        self,
        id: usize,
        output: Seq<WidgetView>,
        now: u64,
    ) -> SchedulerView {
        if self.awaits(id) {
            SchedulerView {
                rendering: self.rendering.update(id as int, false),
                frame: self.frame.stored(id, output),
                queue: match self.directives[id as int].next_due(now) {
                    Some(due) => upserted(self.queue, id, due),
                    None => self.queue,
                },
                ..self
            }
        } else {
            self
        }
    }

    /// The state after the frame was handed out.
    pub open spec fn emitted(self) -> SchedulerView {
        SchedulerView { frame: FrameView { stale: false, ..self.frame }, ..self }
    }

    /// The state after `event` itself was taken in at `now`: a request is
    /// put in the queue, the end of a render is recorded; a signal, a click
    /// and the wake time change nothing.
    pub open spec fn took(self, event: Event, now: u64) -> SchedulerView {
        match event {
            Event::Request(task) => self.requested(task),
            Event::Completed { id, result } => self.completed(id, output_view(id, result), now),
            _ => self,
        }
    }

    /// Waking the scheduler with `event` tells block `id` of it: the block
    /// subscribed to the signal, or is the one that the click names.
    pub open spec fn tells(self, event: Event, id: usize) -> bool {
        match event {
            Event::Signal(signal) => subscribed(self.signals, id, signal),
            Event::Click(click) => click.id == id && id < self.blocks(),
            _ => false,
        }
    }

    /// The state after the scheduler was woken at `now` with `event`: the
    /// event was taken in, what was due then has fired, and the frame was
    /// handed out.
    pub open spec fn handled(self, event: Event, now: u64) -> SchedulerView {
        self.took(event, now).fired(now).emitted()
    }
}

/// `id` had a task in `before` and has none in `after`.
spec fn popped(before: Map<usize, u64>, after: Map<usize, u64>, id: usize) -> bool {
    before.contains_key(id) && !after.contains_key(id)
}

/// The state in which `blocks` were set up at `now`: every block is due at
/// once, none is rendering, none has an output.
pub open spec fn initial(blocks: Seq<BlockInfo>, now: u64) -> SchedulerView {
    SchedulerView {
        directives: Seq::new(blocks.len(), |i: int| blocks[i].update),
        signals: Seq::new(blocks.len(), |i: int| blocks[i].signal),
        rendering: Seq::new(blocks.len(), |i: int| false),
        frame: FrameView {
            outputs: Seq::new(blocks.len(), |i: int| Seq::<WidgetView>::empty()),
            stale: false,
        },
        queue: Map::new(|id: usize| id < blocks.len(), |id: usize| now),
    }
}

/// The scheduler's state: the blocks' cadences, the task queue, which
/// blocks are rendering, the event router and the frame assembler.
pub struct Scheduler {
    directives: Vec<Update>,
    rendering: Vec<bool>,
    queue: TaskQueue,
    router: EventRouter,
    frame: FrameAssembler,
}

impl View for Scheduler {
    type V = SchedulerView;

    closed spec fn view(&self) -> SchedulerView {
        SchedulerView {
            directives: self.directives@,
            signals: self.router@,
            rendering: self.rendering@,
            frame: self.frame@,
            queue: self.queue@,
        }
    }
}

impl Scheduler {
    #[verifier::type_invariant]
    spec fn inv(&self) -> bool {
        &&& self.rendering@.len() == self.directives@.len()
        &&& self.router@.len() == self.directives@.len()
        &&& self.frame@.outputs.len() == self.directives@.len()
        &&& forall|id: usize| self.queue@.contains_key(id) ==> id < self.directives@.len()
    }

    /// A scheduler for `blocks`, in the order given, set up at `now`. Every
    /// block gets its first task, due at `now`.
    pub fn new(blocks: Vec<BlockInfo>, now: u64) -> (s: Scheduler)
        ensures
            s@ == initial(blocks@, now),
            s@.wf(),
    {
        let mut directives: Vec<Update> = Vec::new();
        let mut signals: Vec<Option<i32>> = Vec::new();
        let mut rendering: Vec<bool> = Vec::new();
        let mut queue = TaskQueue::new();
        let mut i: usize = 0;
        while i < blocks.len()
            invariant
                i <= blocks@.len(),
                directives@ == Seq::new(i as nat, |k: int| blocks@[k].update),
                signals@ == Seq::new(i as nat, |k: int| blocks@[k].signal),
                rendering@ == Seq::new(i as nat, |k: int| false),
                queue@ == Map::new(|id: usize| id < i, |id: usize| now),
            decreases blocks@.len() - i,
        {
            directives.push(blocks[i].update);
            signals.push(blocks[i].signal);
            rendering.push(false);
            queue.upsert(i, now);
            i += 1;
        }
        let frame = FrameAssembler::new(blocks.len());
        let router = EventRouter::new(signals);
        let s = Scheduler { directives, rendering, queue, router, frame };
        s
    }

    /// The number of blocks.
    pub fn blocks(&self) -> (n: usize)
        ensures
            n == self@.blocks(),
            self@.wf(),
    {
        proof {
            use_type_invariant(self);
        }
        self.directives.len()
    }

    /// The instant at which the loop has to wake the scheduler if no event
    /// comes before: the earliest due time, or `None` if no task is pending.
    pub fn wake_time(&self) -> (r: Option<u64>)
        ensures
            self@.wf(),
            r is None <==> no_tasks(self@.queue),
            r matches Some(t) ==> {
                &&& exists|id: usize| self@.queue.contains_key(id) && self@.queue[id] == t
                &&& forall|id: usize| self@.queue.contains_key(id) ==> t <= self@.queue[id]
            },
    {
        proof {
            use_type_invariant(self);
        }
        self.queue.peek_due()
    }

    /// Takes a request to render a block again: the block is scheduled at
    /// the requested time unless it is already due earlier. Returns whether
    /// the request names a block; if not, it is dropped.
    pub fn request(&mut self, task: Task) -> (known: bool)
        ensures
            known == (task.id < old(self)@.blocks()),
            final(self)@ == old(self)@.requested(task),
            final(self)@.wf(),
    {
        proof {
            use_type_invariant(&*self);
        }
        if task.id < self.directives.len() {
            // The queue is changed outside the scheduler and then put back,
            // so that the scheduler is well formed at every step.
            let mut queue = TaskQueue::new();
            core::mem::swap(&mut self.queue, &mut queue);
            queue.upsert(task.id, task.update_time);
            self.queue = queue;
            true
        } else {
            false
        }
    }

    /// Wakes the scheduler at `now`: every task that is due leaves the
    /// queue. Returns the blocks whose render the loop has to start, in the
    /// order in which their tasks fire. A block that is still rendering is
    /// not started again; its task is dropped, and the render in flight
    /// schedules the block when it completes.
    pub fn fire(&mut self, now: u64) -> (started: Vec<usize>)
        ensures
            final(self)@ == old(self)@.fired(now),
            final(self)@.wf(),
            forall|id: usize| started@.contains(id) <==> old(self)@.starts(id, now),
            forall|i: int, j: int|
                0 <= i < j < started@.len() ==> fires_before(
                    old(self)@.queue[started@[i]],
                    started@[i],
                    old(self)@.queue[started@[j]],
                    started@[j],
                ),
    {
        proof {
            use_type_invariant(&*self);
        }
        let mut queue = TaskQueue::new();
        core::mem::swap(&mut self.queue, &mut queue);
        let ghost q0 = queue@;
        let ghost r0 = self.rendering@;
        let mut started: Vec<usize> = Vec::new();
        let mut left: usize = queue.len();
        let mut more = true;
        while more && left > 0
            invariant
                old(self)@.wf(),
                q0 == old(self)@.queue,
                r0 == old(self)@.rendering,
                self.directives@ == old(self)@.directives,
                self.router@ == old(self)@.signals,
                self.frame@ == old(self)@.frame,
                self.queue@ == Map::<usize, u64>::empty(),
                self.rendering@.len() == r0.len(),
                queue@.dom().finite(),
                left == queue@.dom().len(),
                !more ==> none_due(queue@, now),
                forall|id: usize| #[trigger]
                    queue@.contains_key(id) ==> q0.contains_key(id) && q0[id] == queue@[id],
                forall|id: usize| #[trigger] popped(q0, queue@, id) ==> q0[id] <= now,
                forall|id: usize, other: usize|
                    #[trigger] popped(q0, queue@, id) && #[trigger] queue@.contains_key(other)
                        ==> fires_before(q0[id], id, q0[other], other),
                forall|id: usize|
                    id < r0.len() ==> #[trigger] self.rendering@[id as int] == (r0[id as int]
                        || popped(q0, queue@, id)),
                forall|id: usize|
                    started@.contains(id) <==> #[trigger] popped(q0, queue@, id) && !r0[id as int],
                forall|i: int, j: int|
                    0 <= i < j < started@.len() ==> fires_before(
                        q0[started@[i]],
                        started@[i],
                        q0[started@[j]],
                        started@[j],
                    ),
            decreases left + (if more { 1int } else { 0int }),
        {
            let ghost q1 = queue@;
            match queue.pop_due(now) {
                None => {
                    more = false;
                },
                Some(id) => {
                    left -= 1;
                    assert forall|p: usize| #[trigger] popped(q0, queue@, p) implies p == id
                        || popped(q0, q1, p) by {}
                    let ghost before = started@;
                    if !self.rendering[id] {
                        self.rendering[id] = true;
                        started.push(id);
                        proof {
                            assert forall|i: int, j: int|
                                0 <= i < j < started@.len() implies fires_before(
                                q0[started@[i]],
                                started@[i],
                                q0[started@[j]],
                                started@[j],
                            ) by {
                                if j == before.len() {
                                    assert(popped(q0, q1, before[i]));
                                }
                            }
                        }
                    }
                    proof {
                        assert forall|p: usize|
                            started@.contains(p) <==> #[trigger] popped(q0, queue@, p)
                                && !r0[p as int] by {
                            if started@.contains(p) {
                                let k: int = choose|k: int|
                                    0 <= k < started@.len() && started@[k] == p;
                                if k < before.len() {
                                    assert(popped(q0, q1, p));
                                }
                            }
                            if popped(q0, queue@, p) && !r0[p as int] {
                                if p == id {
                                    assert(started@[before.len() as int] == id);
                                } else {
                                    let k: int = choose|k: int|
                                        0 <= k < before.len() && before[k] == p;
                                    assert(started@[k] == p);
                                }
                            }
                        }
                    }
                },
            }
        }
        proof {
            assert forall|id: usize| queue@.contains_key(id) <==> (q0.contains_key(id) && q0[id]
                > now) by {
                if q0.contains_key(id) && !queue@.contains_key(id) {
                    assert(popped(q0, queue@, id));
                }
            }
            assert(queue@ =~= pending_after(q0, now));
            assert(r0.len() == old(self).rendering.len());
            assert(self.rendering@ =~= old(self)@.fired(now).rendering);
            assert forall|id: usize| started@.contains(id) <==> old(self)@.starts(id, now) by {
                assert(popped(q0, queue@, id) == old(self)@.is_due(id, now));
            }
        }
        self.queue = queue;
        started
    }

    /// Takes the end of a render of block `id` at `now`. Its output, or the
    /// error widget if it failed, replaces the block's output; the block is
    /// idle again and is scheduled as its cadence says, counted from `now`;
    /// the frame is stale. Returns whether a render of the block was in
    /// flight; if not, nothing changes.
    pub fn complete(&mut self, id: usize, result: Result<Vec<Widget>, Error>, now: u64) -> (taken:
        bool)
        ensures
            taken == old(self)@.awaits(id),
            final(self)@ == old(self)@.completed(id, output_view(id, result), now),
            final(self)@.wf(),
    {
        proof {
            use_type_invariant(&*self);
        }
        if id >= self.rendering.len() || !self.rendering[id] {
            return false;
        }
        let output = output_of(id, result);
        self.rendering[id] = false;
        self.frame.store(id, output);
        let next = self.directives[id].due_after(now);
        match next {
            Some(due) => {
                let mut queue = TaskQueue::new();
                core::mem::swap(&mut self.queue, &mut queue);
                queue.upsert(id, due);
                self.queue = queue;
            },
            None => {},
        }
        true
    }

    /// Hands out the frame if an output changed since the last one was
    /// handed out: every block's latest output, in block order.
    pub fn emit(&mut self) -> (frame: Option<Vec<Widget>>)
        ensures
            final(self)@ == old(self)@.emitted(),
            final(self)@.wf(),
            match frame {
                Some(widgets) => old(self)@.frame.stale && widgets.deep_view()
                    == old(self)@.frame.frame(),
                None => !old(self)@.frame.stale,
            },
    {
        proof {
            use_type_invariant(&*self);
        }
        if self.frame.is_stale() {
            let frame = self.frame.frame();
            self.frame.mark_fresh();
            Some(frame)
        } else {
            None
        }
    }

    /// Wakes the scheduler at `now` with `event`, and says what the loop
    /// has to do. The event is taken in: a request goes into the queue, the
    /// end of a render is recorded, of a signal or a click the blocks that
    /// it is for are told by a call of their own handlers, and no others.
    /// Then every task that is due fires, and the frame is handed out if an
    /// output changed.
    ///
    /// `blocks` are the blocks that the scheduler was set up for, in their
    /// order.
    pub fn handle<B: Block>(&mut self, blocks: &mut Vec<B>, event: Event, now: u64) -> (actions:
        Actions)
        ensures
            final(self)@ == old(self)@.handled(event, now),
            final(self)@.wf(),
            final(blocks)@.len() == old(blocks)@.len(),
            forall|i: int|
                0 <= i < old(blocks)@.len() && !old(self)@.tells(event, i as usize)
                    ==> final(blocks)@[i] == old(blocks)@[i],
            forall|id: usize|
                told(actions.signalled@, id) <==> (event is Signal && old(self)@.tells(event, id)
                    && id < old(blocks)@.len()),
            forall|i: int, j: int|
                0 <= i < j < actions.signalled@.len() ==> actions.signalled@[i].id
                    < actions.signalled@[j].id,
            forall|k: int|
                #![trigger actions.signalled@[k]]
                0 <= k < actions.signalled@.len() ==> (event matches Event::Signal(signal)
                    && exists|b: &mut B|
                    #![trigger call_ensures(
                        B::signal,
                        (b, signal, now),
                        actions.signalled@[k].result,
                    )]
                    mut_ref_current(b) == old(blocks)@[actions.signalled@[k].id as int]
                        && mut_ref_future(b) == final(blocks)@[actions.signalled@[k].id as int]
                        && call_ensures(
                        B::signal,
                        (b, signal, now),
                        actions.signalled@[k].result,
                    )),
            actions.clicked is Some <==> (event matches Event::Click(click) && old(self)@.tells(
                event,
                click.id,
            ) && click.id < old(blocks)@.len()),
            actions.clicked matches Some(outcome) ==> (event matches Event::Click(click)
                && exists|b: &mut B|
                #![trigger call_ensures(B::click, (b, &click, now), outcome)]
                mut_ref_current(b) == old(blocks)@[click.id as int] && mut_ref_future(b)
                    == final(blocks)@[click.id as int] && call_ensures(
                    B::click,
                    (b, &click, now),
                    outcome,
                )),
            forall|id: usize|
                actions.start@.contains(id) <==> old(self)@.took(event, now).starts(id, now),
            forall|i: int, j: int|
                0 <= i < j < actions.start@.len() ==> fires_before(
                    old(self)@.took(event, now).queue[actions.start@[i]],
                    actions.start@[i],
                    old(self)@.took(event, now).queue[actions.start@[j]],
                    actions.start@[j],
                ),
            match actions.frame {
                Some(widgets) => old(self)@.took(event, now).frame.stale && widgets.deep_view()
                    == old(self)@.took(event, now).frame.frame(),
                None => !old(self)@.took(event, now).frame.stale,
            },
    {
        proof {
            use_type_invariant(&*self);
        }
        let mut signalled: Vec<Signalled> = Vec::new();
        let mut clicked: Option<ClickOutcome> = None;
        match event {
            Event::Wake => {},
            Event::Request(task) => {
                self.request(task);
            },
            Event::Signal(signal) => {
                signalled = self.router.deliver_signal(blocks, signal, now);
            },
            Event::Click(click) => {
                clicked = self.router.deliver_click(blocks, &click, now);
            },
            Event::Completed { id, result } => {
                self.complete(id, result, now);
            },
        }
        let start = self.fire(now);
        let frame = self.emit();
        Actions { signalled, clicked, start, frame }
    }

    /// The blocks that are to be told of `signal`: all that subscribed to
    /// it, in ascending order of their ids.
    pub fn route_signal(&self, signal: i32) -> (ids: Vec<usize>)
        ensures
            forall|id: usize| ids@.contains(id) <==> subscribed(self@.signals, id, signal),
            forall|i: int, j: int| 0 <= i < j < ids@.len() ==> ids@[i] < ids@[j],
    {
        self.router.subscribers(signal)
    }

    /// The block that is to be told of the click `event`: the one it names,
    /// if there is such a block.
    pub fn route_click(&self, event: &ClickEvent) -> (target: Option<usize>)
        ensures
            target == (if event.id < self@.blocks() {
                Some(event.id)
            } else {
                None
            }),
    {
        proof {
            use_type_invariant(self);
        }
        self.router.click_target(event)
    }

    /// Whether a render of block `id` is in flight.
    pub fn is_rendering(&self, id: usize) -> (r: bool)
        ensures
            r == (id < self@.rendering.len() && self@.rendering[id as int]),
    {
        id < self.rendering.len() && self.rendering[id]
    }

    /// The cadence of block `id`, if there is such a block.
    pub fn update_interval(&self, id: usize) -> (r: Option<Update>)
        ensures
            r == (if id < self@.blocks() {
                Some(self@.directives[id as int])
            } else {
                None
            }),
    {
        if id < self.directives.len() {
            Some(self.directives[id])
        } else {
            None
        }
    }

    /// The due time of block `id`, if it has a pending task.
    pub fn due_time(&self, id: usize) -> (r: Option<u64>)
        ensures
            r == (if self@.queue.contains_key(id) {
                Some(self@.queue[id])
            } else {
                None
            }),
    {
        self.queue.due_time(id)
    }
}

/// One change of the scheduler's state: a call of `fire`, `request`,
/// `complete` or `emit`. The laws below speak of runs of such steps.
pub enum Step {
    /// What is due at `now` fires.
    Fire { now: u64 },
    /// A block asks to be rendered again.
    Request { task: Task },
    /// The render of block `id` ends at `now` and leaves `output`.
    Complete { id: usize, output: Seq<WidgetView>, now: u64 },
    /// The frame is handed out.
    Emit,
}

impl SchedulerView {
    /// The state after one step.
    pub open spec fn after(self, step: Step) -> SchedulerView {
        match step {
            Step::Fire { now } => self.fired(now),
            Step::Request { task } => self.requested(task),
            Step::Complete { id, output, now } => self.completed(id, output, now),
            Step::Emit => self.emitted(),
        }
    }

    /// The state after a run of steps, in their order.
    pub open spec fn after_all(self, steps: Seq<Step>) -> SchedulerView
        decreases steps.len(),
    {
        if steps.len() == 0 {
            self
        } else {
            self.after_all(steps.drop_last()).after(steps.last())
        }
    }

    /// The number of renders of block `id` that are in flight after a run of
    /// steps from a state in which none is: each render that `fire` starts
    /// counts up, each completion of a render in flight counts down.
    pub open spec fn in_flight(self, steps: Seq<Step>, id: usize) -> int
        decreases steps.len(),
    {
        if steps.len() == 0 {
            0
        } else {
            let before = self.after_all(steps.drop_last());
            let count: int = self.in_flight(steps.drop_last(), id);
            match steps.last() {
                Step::Fire { now } => if before.starts(id, now) {
                    count + 1
                } else {
                    count
                },
                Step::Complete { id: done, .. } => if done == id && count > 0 {
                    count - 1
                } else {
                    count
                },
                _ => count,
            }
        }
    }
}

/// The steps that waking the scheduler at `now` with `event` comes to.
pub open spec fn steps_of(event: Event, now: u64) -> Seq<Step> {
    match event {
        Event::Request(task) => seq![Step::Request { task }, Step::Fire { now }, Step::Emit],
        Event::Completed { id, result } => seq![
            Step::Complete { id, output: output_view(id, result), now },
            Step::Fire { now },
            Step::Emit,
        ],
        _ => seq![Step::Fire { now }, Step::Emit],
    }
}

/// Waking the scheduler with an event is a run of steps, so what holds of
/// every run holds of every sequence of events.
pub proof fn lemma_handle_is_a_run(s: SchedulerView, event: Event, now: u64)
    ensures
        s.handled(event, now) == s.after_all(steps_of(event, now)),
{
    reveal_with_fuel(SchedulerView::after_all, 4);
    let steps = steps_of(event, now);
    if steps.len() == 3 {
        assert(steps.drop_last().drop_last() =~= seq![steps[0]]);
    } else {
        assert(steps.drop_last() =~= seq![steps[0]]);
    }
}

/// No step breaks the scheduler's state.
pub proof fn lemma_step_keeps_wf(s: SchedulerView, step: Step)
    requires
        s.wf(),
    ensures
        s.after(step).wf(),
        s.after(step).directives == s.directives,
        s.after(step).signals == s.signals,
{
}

/// No run of steps breaks the scheduler's state.
pub proof fn lemma_run_keeps_wf(s: SchedulerView, steps: Seq<Step>)
    requires
        s.wf(),
    ensures
        s.after_all(steps).wf(),
        s.after_all(steps).directives == s.directives,
        s.after_all(steps).signals == s.signals,
    decreases steps.len(),
{
    if steps.len() > 0 {
        lemma_run_keeps_wf(s, steps.drop_last());
        lemma_step_keeps_wf(s.after_all(steps.drop_last()), steps.last());
    }
}

/// At most one render of a block is in flight, however firing, requests
/// and completions interleave: from a state in which no render of block
/// `id` is in flight, after every run of steps the number of its renders in
/// flight is 0 or 1, and it is 1 exactly when the scheduler holds the block
/// as rendering. A block that is rendering is never started again.
pub proof fn lemma_one_render_per_block(s: SchedulerView, steps: Seq<Step>, id: usize)
    requires
        s.wf(),
        id < s.blocks(),
        !s.rendering[id as int],
    ensures
        0 <= s.in_flight(steps, id) <= 1,
        s.in_flight(steps, id) == 1 <==> s.after_all(steps).rendering[id as int],
        forall|now: u64|
            s.after_all(steps).rendering[id as int] ==> !s.after_all(steps).starts(id, now),
    decreases steps.len(),
{
    if steps.len() > 0 {
        lemma_one_render_per_block(s, steps.drop_last(), id);
        lemma_run_keeps_wf(s, steps.drop_last());
    }
}

/// A completed render schedules its block as the block's cadence says,
/// counted from the instant of completion: with `Every(interval)` the block
/// is due at `now + interval`, or earlier where a request already asked for
/// that; with `Once` and `OnDemand` the block gets no task, and has one only
/// if a request left it there.
pub proof fn lemma_reschedule_follows_directive(
    s: SchedulerView,
    id: usize,
    output: Seq<WidgetView>,
    now: u64,
)
    requires
        s.wf(),
        s.awaits(id),
        s.directives[id as int] matches Update::Every(interval) ==> now + interval <= u64::MAX,
    ensures
        match s.directives[id as int] {
            Update::Every(interval) => {
                &&& s.completed(id, output, now).queue.contains_key(id)
                &&& s.completed(id, output, now).queue[id] <= now + interval
                &&& !s.queue.contains_key(id) ==> s.completed(id, output, now).queue[id] == now
                    + interval
                &&& s.queue.contains_key(id) && s.queue[id] <= now + interval ==> s.completed(
                    id,
                    output,
                    now,
                ).queue[id] == s.queue[id]
            },
            Update::Once => s.completed(id, output, now).queue == s.queue,
            Update::OnDemand => s.completed(id, output, now).queue == s.queue,
        },
        !s.completed(id, output, now).rendering[id as int],
{
}

/// The render of block `id` ends in this step at an instant from which the
/// clock cannot reach the block's next due time.
pub open spec fn ends_too_late(step: Step, id: usize, update: Update) -> bool {
    step matches Step::Complete { id: done, now, .. } && done == id && update.next_due(now) is None
}

/// A block that is rendered `Every` so often is never lost: from the start
/// on, after every run of steps it has a pending task or a render of it is
/// in flight, as long as the clock can reach its next due time whenever a
/// render of it ends.
pub proof fn lemma_periodic_block_stays_scheduled(
    blocks: Seq<BlockInfo>,
    start: u64,
    steps: Seq<Step>,
    id: usize,
)
    requires
        id < blocks.len(),
        blocks[id as int].update is Every,
        forall|k: int|
            0 <= k < steps.len() ==> !ends_too_late(
                #[trigger] steps[k],
                id,
                blocks[id as int].update,
            ),
    ensures
        initial(blocks, start).after_all(steps).queue.contains_key(id) || initial(
            blocks,
            start,
        ).after_all(steps).rendering[id as int],
    decreases steps.len(),
{
    let s = initial(blocks, start);
    if steps.len() > 0 {
        let before = steps.drop_last();
        assert forall|k: int| 0 <= k < before.len() implies !ends_too_late(
            #[trigger] before[k],
            id,
            blocks[id as int].update,
        ) by {
            assert(before[k] == steps[k]);
        }
        lemma_periodic_block_stays_scheduled(blocks, start, before, id);
        lemma_run_keeps_wf(s, before);
        assert(!ends_too_late(steps[steps.len() - 1], id, blocks[id as int].update));
    }
}

/// A step is a request for block `id`.
pub open spec fn asks_for(step: Step, id: usize) -> bool {
    step matches Step::Request { task } && task.id == id
}

/// A block that is rendered `Once` or `OnDemand` and has no task never
/// fires unless a request asks for it: in a run of steps without such a
/// request the block stays without a task, and no firing starts it.
pub proof fn lemma_idle_until_requested(s: SchedulerView, steps: Seq<Step>, id: usize, now: u64)
    requires
        s.wf(),
        id < s.blocks(),
        !(s.directives[id as int] is Every),
        !s.queue.contains_key(id),
        forall|k: int| 0 <= k < steps.len() ==> !asks_for(#[trigger] steps[k], id),
    ensures
        !s.after_all(steps).queue.contains_key(id),
        !s.after_all(steps).starts(id, now),
    decreases steps.len(),
{
    if steps.len() > 0 {
        let before = steps.drop_last();
        lemma_idle_until_requested(s, before, id, now);
        lemma_run_keeps_wf(s, before);
    }
}

/// The output that block `id` shows after a run of steps: what its last
/// render left that ended while the scheduler awaited it, or what it showed
/// before the run if no render of it ended.
pub open spec fn latest_output(s: SchedulerView, steps: Seq<Step>, id: usize) -> Seq<WidgetView>
    decreases steps.len(),
{
    if steps.len() == 0 {
        s.frame.outputs[id as int]
    } else {
        match steps.last() {
            Step::Complete { id: done, output, .. } => if done == id && s.after_all(
                steps.drop_last(),
            ).awaits(id) {
                output
            } else {
                latest_output(s, steps.drop_last(), id)
            },
            _ => latest_output(s, steps.drop_last(), id),
        }
    }
}

/// The frame goes by block order, never by the order in which renders
/// end: after every run of steps, however the completions interleave, each
/// block holds its own latest output in its own place, and the frame is
/// these outputs in the order of the blocks.
pub proof fn lemma_frame_shows_latest_outputs(s: SchedulerView, steps: Seq<Step>)
    requires
        s.wf(),
    ensures
        s.after_all(steps).frame.outputs.len() == s.blocks(),
        forall|id: usize|
            id < s.blocks() ==> #[trigger] s.after_all(steps).frame.outputs[id as int]
                == latest_output(s, steps, id),
        s.after_all(steps).frame.frame() == s.after_all(steps).frame.outputs.flatten(),
    decreases steps.len(),
{
    if steps.len() > 0 {
        lemma_frame_shows_latest_outputs(s, steps.drop_last());
        lemma_run_keeps_wf(s, steps.drop_last());
    }
}

/// A failed render harms no other block: when the render of block `a` ends
/// with an error, block `b` keeps its task, its state and its output, and
/// fires exactly when it would have fired otherwise. Block `a` itself is
/// idle again and is scheduled just as after a render that succeeded.
pub proof fn lemma_failure_is_isolated(
    s: SchedulerView,
    a: usize,
    b: usize,
    error: ErrorView,
    now: u64,
)
    requires
        s.wf(),
        b < s.blocks(),
        a != b,
    ensures
        ({
            let t = s.completed(a, seq![error_widget_view(a, error)], now);
            &&& t.wf()
            &&& t.queue.contains_key(b) == s.queue.contains_key(b)
            &&& t.queue[b] == s.queue[b]
            &&& t.rendering[b as int] == s.rendering[b as int]
            &&& t.frame.outputs[b as int] == s.frame.outputs[b as int]
            &&& forall|later: u64| t.starts(b, later) == s.starts(b, later)
            &&& forall|output: Seq<WidgetView>|
                (#[trigger] s.completed(a, output, now)).queue == t.queue && s.completed(
                    a,
                    output,
                    now,
                ).rendering == t.rendering
        }),
{
}

} // verus!

//! The channel on which a block asks the scheduler to render it again.

use crate::queue::Task;
use vstd::prelude::*;

verus! {

/// The sending half of a `crossbeam_channel` channel. Verus sees nothing
/// inside it.
#[verifier::external_type_specification]
#[verifier::external_body]
#[verifier::reject_recursive_types(T)]
pub struct ExSender<T>(crossbeam_channel::Sender<T>);

/// Calls `Sender::try_send`, which never blocks, and tells whether the task
/// was taken. Trusted; nothing is promised of the outcome: the channel may
/// be full, or its receiver gone.
#[verifier::external_body]
fn try_send(tx: &crossbeam_channel::Sender<Task>, task: Task) -> (sent: bool) {
    tx.try_send(task).is_ok()
}

/// `task` was handed to `tx` by a call of `Sender::try_send`, and `sent` is
/// what the call told. This names the call and promises nothing of what it
/// tells: whether a task is taken is the channel's to decide.
pub closed spec fn tried(tx: crossbeam_channel::Sender<Task>, task: Task, sent: bool) -> bool {
    call_ensures(try_send, (&tx, task), sent)
}

/// Hands `task` to `tx` without waiting, and tells whether the channel took
/// it.
pub(crate) fn send(tx: &crossbeam_channel::Sender<Task>, task: Task) -> (sent: bool)
    ensures
        tried(*tx, task, sent),
{
    try_send(tx, task)
}

} // verus!

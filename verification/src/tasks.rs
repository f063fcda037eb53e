//! Bookkeeping of the tasks that a worker has been sent and that still wait
//! for their response.
use std::collections::HashMap;
use vstd::prelude::*;

verus! {

broadcast use vstd::std_specs::hash::group_hash_axioms;

/// The abstract state of a task table: the id that the next task gets, and the
/// reply handle of each task that still waits for its response, by task id.
pub struct TaskTableModel<S> {
    pub next_id: usize,
    pub pending: Map<usize, S>,
}

/// The id that follows `id`: one more, wrapping around to zero after `usize::MAX`.
pub open spec fn following_id(id: usize) -> usize {
    if id == usize::MAX {
        0
    } else {
        (id + 1) as usize
    }
}

/// The state after a task with reply handle `reply` has been registered.
pub open spec fn begin_model<S>(m: TaskTableModel<S>, reply: S) -> TaskTableModel<S> {
    TaskTableModel { next_id: following_id(m.next_id), pending: m.pending.insert(m.next_id, reply) }
}

/// The state after the response to task `id` has arrived.
pub open spec fn complete_model<S>(m: TaskTableModel<S>, id: usize) -> TaskTableModel<S> {
    TaskTableModel { next_id: m.next_id, pending: m.pending.remove(id) }
}

/// The reply handle that the response to task `id` is handed to, if the task is pending.
pub open spec fn completed_reply<S>(m: TaskTableModel<S>, id: usize) -> Option<S> {
    if m.pending.contains_key(id) {
        Some(m.pending[id])
    } else {
        None
    }
}

/// The tasks of one worker that wait for their response, each under the id
/// that was sent along with its request. `S` is the handle through which a
/// response is passed on to whoever waits for it.
pub struct TaskRegistry<S> {
    next_id: usize,
    open: HashMap<usize, S>,
}

impl<S> View for TaskRegistry<S> {
    type V = TaskTableModel<S>;

    closed spec fn view(&self) -> TaskTableModel<S> {
        TaskTableModel { next_id: self.next_id, pending: self.open@ }
    }
}

impl<S> TaskRegistry<S> {
    /// An empty table; the first task gets id 0.
    pub fn new() -> (r: Self)
        ensures
            r@.next_id == 0,
            r@.pending == Map::<usize, S>::empty(),
            r@.pending.dom().finite(),
    {
        TaskRegistry { next_id: 0, open: HashMap::new() }
    }

    /// Registers a new task with the handle that its response goes to, and
    /// returns the id under which the request is sent. Ids are handed out in
    /// order and wrap around after `usize::MAX`.
    pub fn begin(&mut self, reply: S) -> (id: usize)
        ensures
            id == old(self)@.next_id,
            final(self)@ == begin_model(old(self)@, reply),
            final(self)@.pending.dom().finite(),
    {
        let id = self.next_id;
        self.next_id = id.wrapping_add(1);
        self.open.insert(id, reply);
        id
    }

    /// Takes the task `id` out of the table when its response has arrived,
    /// and gives back the handle that the response goes to; `None` for an id
    /// that is not pending.
    pub fn complete(&mut self, id: usize) -> (reply: Option<S>)
        ensures
            reply == completed_reply(old(self)@, id),
            final(self)@ == complete_model(old(self)@, id),
            old(self)@.pending.dom().finite(),
            final(self)@.pending.dom().finite(),
    {
        self.open.remove(&id)
    }

    /// The number of tasks that wait for their response.
    pub fn load(&self) -> (n: usize)
        ensures
            n == self@.pending.len(),
            self@.pending.dom().finite(),
    {
        self.open.len()
    }
}

/// The id handed out after `k` further tasks, starting from `id`.
pub open spec fn id_after(id: usize, k: nat) -> usize
    decreases k,
{
    if k == 0 {
        id
    } else {
        following_id(id_after(id, (k - 1) as nat))
    }
}

/// The response to a task reaches the handle that the task was registered with.
pub proof fn law_response_reaches_its_task<S>(m: TaskTableModel<S>, reply: S)
    ensures
        completed_reply(begin_model(m, reply), m.next_id) == Some(reply),
{
}

/// Registering a task under a fresh id and then completing it leaves the
/// pending tasks as they were before.
pub proof fn law_complete_undoes_begin<S>(m: TaskTableModel<S>, reply: S)
    requires
        !m.pending.contains_key(m.next_id),
    ensures
        complete_model(begin_model(m, reply), m.next_id).pending == m.pending,
{
    assert(m.pending.insert(m.next_id, reply).remove(m.next_id) =~= m.pending);
}

/// A response whose id is not pending is dropped and changes nothing.
pub proof fn law_unknown_response_is_ignored<S>(m: TaskTableModel<S>, id: usize)
    requires
        !m.pending.contains_key(id),
    ensures
        completed_reply(m, id) is None,
        complete_model(m, id) == m,
{
    assert(m.pending.remove(id) =~= m.pending);
}

/// The load (the number of pending tasks) grows by one when a task is
/// registered under a fresh id and shrinks by one when a pending task completes.
pub proof fn law_load_counts_pending_tasks<S>(m: TaskTableModel<S>, reply: S, id: usize)
    requires
        m.pending.dom().finite(),
    ensures
        !m.pending.contains_key(m.next_id) ==> begin_model(m, reply).pending.len()
            == m.pending.len() + 1,
        m.pending.contains_key(id) ==> complete_model(m, id).pending.len() + 1
            == m.pending.len(),
{
}

/// Registering a new task leaves every other pending task, and the handle its
/// response goes to, as it was.
pub proof fn law_begin_keeps_other_tasks<S>(m: TaskTableModel<S>, reply: S, other: usize)
    requires
        other != m.next_id,
    ensures
        completed_reply(begin_model(m, reply), other) == completed_reply(m, other),
{
}

/// The arrival of one response leaves every other pending task, and the
/// handle its response goes to, as it was.
pub proof fn law_complete_keeps_other_tasks<S>(m: TaskTableModel<S>, id: usize, other: usize)
    requires
        other != id,
    ensures
        completed_reply(complete_model(m, id), other) == completed_reply(m, other),
{
}

/// Two tasks registered one after the other get different ids, and the
/// response to each reaches its own handle, whichever arrives first.
pub proof fn law_overlapping_tasks_keep_their_replies<S>(m: TaskTableModel<S>, first: S, second: S)
    ensures
        m.next_id != begin_model(m, first).next_id,
        completed_reply(begin_model(begin_model(m, first), second), m.next_id) == Some(first),
        completed_reply(
            begin_model(begin_model(m, first), second),
            begin_model(m, first).next_id,
        ) == Some(second),
        completed_reply(
            complete_model(begin_model(begin_model(m, first), second), m.next_id),
            begin_model(m, first).next_id,
        ) == Some(second),
        completed_reply(
            complete_model(
                begin_model(begin_model(m, first), second),
                begin_model(m, first).next_id,
            ),
            m.next_id,
        ) == Some(first),
{
}

/// Ids depend only on how many tasks were registered: a new task takes the
/// next id, one more than the last (wrapping after `usize::MAX`), and the
/// arrival of a response, for any id, never changes which id comes next.
pub proof fn law_only_registration_advances_ids<S>(m: TaskTableModel<S>, reply: S, id: usize)
    ensures
        begin_model(m, reply).next_id as int == (m.next_id + 1) % (usize::MAX + 1),
        complete_model(m, id).next_id == m.next_id,
{
    law_ids_count_up(m.next_id, 1);
    reveal_with_fuel(id_after, 2);
}

/// Completing an earlier task does not let a new task take the id of a task
/// that still waits: after tasks `a` and `b` are registered and `a`'s response
/// arrives, a third task `c` gets the id two past `a`'s, different from `b`'s,
/// and `b`'s response still goes to `b`'s handle.
pub proof fn law_new_task_never_takes_a_waiting_id<S>(m: TaskTableModel<S>, a: S, b: S, c: S)
    ensures
        ({
            let id_a = m.next_id;
            let m1 = begin_model(m, a);
            let id_b = m1.next_id;
            let m2 = begin_model(m1, b);
            let m3 = complete_model(m2, id_a);
            let id_c = m3.next_id;
            let m4 = begin_model(m3, c);
            &&& id_c as int == (id_a + 2) % (usize::MAX + 1)
            &&& id_c != id_b
            &&& completed_reply(m4, id_b) == Some(b)
            &&& completed_reply(m4, id_c) == Some(c)
        }),
{
    reveal_with_fuel(id_after, 3);
    let id_a = m.next_id;
    let id_b = following_id(id_a);
    law_ids_count_up(id_a, 2);
    assert(id_after(id_a, 2) == following_id(id_b));
    law_ids_not_reused_early(id_b, 1);
    assert(id_after(id_b, 1) == following_id(id_b));
}

/// Ids are handed out in order modulo `usize::MAX + 1`.
pub proof fn law_ids_count_up(id: usize, k: nat)
    ensures
        id_after(id, k) as int == (id + k) % (usize::MAX + 1),
    decreases k,
{
    let modulus: int = usize::MAX + 1;
    if k == 0 {
        vstd::arithmetic::div_mod::lemma_small_mod(id as nat, modulus as nat);
    } else {
        law_ids_count_up(id, (k - 1) as nat);
        let prev: int = id_after(id, (k - 1) as nat) as int;
        assert(prev == (id + k - 1) % modulus);
        vstd::arithmetic::div_mod::lemma_add_mod_noop(id + k - 1, 1, modulus);
        vstd::arithmetic::div_mod::lemma_small_mod(1, modulus as nat);
        if prev == usize::MAX {
            assert((prev + 1) % modulus == 0) by {
                vstd::arithmetic::div_mod::lemma_mod_self_0(modulus);
            }
        } else {
            vstd::arithmetic::div_mod::lemma_small_mod((prev + 1) as nat, modulus as nat);
        }
    }
}

/// A task id is not handed out again before `usize::MAX + 1` further tasks
/// have been registered.
pub proof fn law_ids_not_reused_early(id: usize, k: nat)
    requires
        0 < k <= usize::MAX,
    ensures
        id_after(id, k) != id,
{
    let modulus: int = usize::MAX + 1;
    law_ids_count_up(id, k);
    vstd::arithmetic::div_mod::lemma_small_mod(id as nat, modulus as nat);
    if id_after(id, k) == id {
        vstd::arithmetic::div_mod::lemma_sub_mod_noop(id + k, id as int, modulus);
        assert((id + k) % modulus - (id as int) % modulus == 0);
        assert(0int % modulus == 0) by {
            vstd::arithmetic::div_mod::lemma_small_mod(0, modulus as nat);
        }
        assert(id + k - id == k);
        vstd::arithmetic::div_mod::lemma_small_mod(k, modulus as nat);
    }
}

} // verus!

//! Worker coordination: a fixed batch of numeric inputs is handed out,
//! one task per input; each task computes its payload and sends a
//! `(task identity, payload)` pair over the shared channel exactly once;
//! the coordinator receives until closure and folds every payload into a
//! running total. The final total is the seed plus the sum of all
//! inputs, whatever order the results arrive in.

use vstd::prelude::*;
use vstd::seq_lib::commutative_foldl;
use vstd::seq_lib::group_to_multiset_ensures;
use vstd::seq_lib::lemma_fold_left_permutation;
use vstd::set_lib::lemma_int_range;
use vstd::set_lib::lemma_len_subset;
use vstd::set_lib::lemma_subset_equality;
use vstd::set_lib::set_int_range;
use crate::channel::ChannelModel;
use crate::channel::RecvOutcome;

verus! {

/// One unit of work: an input value and the identity of the task that
/// will carry it. `dispatch` assigns each input to exactly one task.
#[derive(Clone, Copy, Debug, PartialEq, Eq, Structural)]
pub struct Task {
    pub id: usize,
    pub input: i64,
}

/// What a task hands back: its own identity and the payload it computed.
#[derive(Clone, Copy, Debug, PartialEq, Eq, Structural)]
pub struct TaskResult {
    pub task_id: usize,
    pub payload: i64,
}

/// The sum of a sequence of payloads, folded left to right.
pub open spec fn seq_sum(s: Seq<i64>) -> int {
    s.fold_left(0int, |acc: int, x: i64| acc + x)
}

/// The payloads of a sequence of results, in arrival order.
pub open spec fn payloads_of(results: Seq<TaskResult>) -> Seq<i64> {
    results.map_values(|r: TaskResult| r.payload)
}

/// The task identities of a sequence of results, in arrival order.
pub open spec fn result_ids(results: Seq<TaskResult>) -> Seq<usize> {
    results.map_values(|r: TaskResult| r.task_id)
}

pub proof fn lemma_seq_sum_push(s: Seq<i64>, x: i64)
    ensures
        seq_sum(s.push(x)) == seq_sum(s) + x,
{
    assert(s.push(x).drop_last() =~= s);
    assert(s.push(x).last() == x);
}

/// Extending the received prefix by one moves the running total by
/// exactly that payload.
pub proof fn lemma_seq_sum_take_step(s: Seq<i64>, m: int)
    requires
        0 <= m < s.len(),
    ensures
        seq_sum(s.take(m + 1)) == seq_sum(s.take(m)) + s[m],
{
    assert(s.take(m + 1).drop_last() =~= s.take(m));
    assert(s.take(m + 1).last() == s[m]);
}

/// Commutativity of aggregation: two arrival orders that deliver the
/// same multiset of payloads fold to the same sum, so the final running
/// total cannot depend on task scheduling.
pub proof fn lemma_seq_sum_order_independent(order1: Seq<i64>, order2: Seq<i64>)
    requires
        order1.to_multiset() == order2.to_multiset(),
    ensures
        seq_sum(order1) == seq_sum(order2),
{
    let f = |acc: int, x: i64| acc + x;
    assert(commutative_foldl(f)) by {
        assert forall|x: i64, y: i64, v: int| #[trigger] f(f(v, x), y) == f(f(v, y), x) by {
        }
    }
    lemma_fold_left_permutation(order1, order2, f, 0int);
}

/// The payloads in arrival order: position `k` holds the payload of
/// task `order[k]`, which in this demo is that task's input.
pub open spec fn selected_payloads(inputs: Seq<i64>, order: Seq<usize>) -> Seq<i64> {
    Seq::new(order.len(), |k: int| inputs[order[k] as int])
}

/// Whether the running total stays within bounds after every prefix of
/// the arrivals, starting from the seed.
pub open spec fn partials_in_range(seed: int, payloads: Seq<i64>) -> bool {
    forall|m: int| 0 <= m <= payloads.len() ==> i64::MIN <= seed + seq_sum(
        #[trigger] payloads.take(m),
    ) <= i64::MAX
}

/// A sufficient condition a caller can check without walking prefixes:
/// when every payload is within `bound` of zero and the seed leaves
/// room for all of them at once, no partial total can overflow.
pub proof fn lemma_bounded_payloads_keep_partials_in_range(
    seed: int,
    payloads: Seq<i64>,
    bound: int,
)
    requires
        0 <= bound,
        forall|i: int| 0 <= i < payloads.len() ==> -bound <= #[trigger] payloads[i] <= bound,
        i64::MIN <= seed - payloads.len() * bound,
        seed + payloads.len() * bound <= i64::MAX,
    ensures
        partials_in_range(seed, payloads),
{
    let n: int = payloads.len() as int;
    assert forall|m: int| 0 <= m <= n implies i64::MIN <= seed + seq_sum(
        #[trigger] payloads.take(m),
    ) <= i64::MAX by {
        lemma_prefix_sum_bounded(payloads, bound, m);
        assert(m * bound <= n * bound && -(n * bound) <= -(m * bound)) by (nonlinear_arith)
            requires
                0 <= bound,
                0 <= m <= n,
        ;
    }
}

proof fn lemma_prefix_sum_bounded(payloads: Seq<i64>, bound: int, m: int)
    requires
        0 <= bound,
        0 <= m <= payloads.len(),
        forall|i: int| 0 <= i < payloads.len() ==> -bound <= #[trigger] payloads[i] <= bound,
    ensures
        -(m * bound) <= seq_sum(payloads.take(m)) <= m * bound,
    decreases m,
{
    if m == 0 {
        assert(payloads.take(0) =~= Seq::<i64>::empty());
    } else {
        lemma_prefix_sum_bounded(payloads, bound, m - 1);
        lemma_seq_sum_take_step(payloads, m - 1);
        assert((m - 1) * bound + bound == m * bound) by (nonlinear_arith);
    }
}

/// Pigeonhole: a duplicate-free sequence of `n` task identities, all
/// below `n`, names every identity below `n`.
pub proof fn lemma_distinct_indices_cover(ids: Seq<usize>, n: nat)
    requires
        ids.len() == n,
        n <= usize::MAX,
        ids.no_duplicates(),
        forall|k: int| 0 <= k < ids.len() ==> (#[trigger] ids[k]) < n,
    ensures
        forall|id: usize| id < n ==> #[trigger] ids.contains(id),
{
    broadcast use vstd::seq_lib::group_seq_properties;
    broadcast use vstd::set_lib::group_set_lib_default;

    let s = ids.map_values(|x: usize| x as int);
    assert(s.no_duplicates()) by {
        assert forall|i: int, j: int|
            0 <= i < s.len() && 0 <= j < s.len() && i != j implies s[i] != s[j] by {
            assert(ids[i] != ids[j]);
        }
    }
    s.unique_seq_to_set();
    let range = set_int_range(0, n as int);
    lemma_int_range(0, n as int);
    assert(s.to_set().subset_of(range)) by {
        assert forall|x: int| s.to_set().contains(x) implies range.contains(x) by {
            let k = choose|k: int| 0 <= k < s.len() && s[k] == x;
            assert(ids[k] < n);
        }
    }
    lemma_len_subset(s.to_set(), range);
    lemma_subset_equality(s.to_set(), range);
    assert forall|id: usize| id < n implies #[trigger] ids.contains(id) by {
        assert(range.contains(id as int));
        assert(s.to_set().contains(id as int));
        assert(s.contains(id as int));
        let k = choose|k: int| 0 <= k < s.len() && s[k] == id as int;
        assert(ids[k] == id);
    }
}

/// Selecting by a duplicate-free, complete sequence of task identities
/// rearranges the inputs without adding, dropping or changing any:
/// exactly-once delivery leaves the multiset of payloads equal to the
/// multiset of inputs.
pub proof fn lemma_selection_is_permutation(inputs: Seq<i64>, order: Seq<usize>)
    requires
        order.len() == inputs.len(),
        inputs.len() <= usize::MAX,
        order.no_duplicates(),
        forall|k: int| 0 <= k < order.len() ==> (#[trigger] order[k]) < inputs.len(),
    ensures
        selected_payloads(inputs, order).to_multiset() == inputs.to_multiset(),
    decreases inputs.len(),
{
    broadcast use group_to_multiset_ensures;
    broadcast use vstd::multiset::group_multiset_axioms;

    let n: int = inputs.len() as int;
    let sel = selected_payloads(inputs, order);
    if n == 0 {
        assert(sel =~= Seq::<i64>::empty());
        assert(inputs =~= Seq::<i64>::empty());
    } else {
        lemma_distinct_indices_cover(order, inputs.len());
        let last_id = (n - 1) as usize;
        assert(order.contains(last_id));
        let j = choose|j: int| 0 <= j < order.len() && order[j] == last_id;
        let order2 = order.remove(j);
        let inputs2 = inputs.drop_last();
        assert(order2.no_duplicates());
        assert forall|k: int| 0 <= k < order2.len() implies (#[trigger] order2[k])
            < inputs2.len() by {
            if k < j {
                assert(order2[k] == order[k]);
                assert(order[k] != order[j]);
            } else {
                assert(order2[k] == order[k + 1]);
                assert(order[k + 1] != order[j]);
            }
        }
        lemma_selection_is_permutation(inputs2, order2);
        let sel2 = selected_payloads(inputs2, order2);
        assert(sel.remove(j) =~= sel2) by {
            assert forall|i: int| 0 <= i < sel2.len() implies sel.remove(j)[i] == sel2[i] by {
                if i < j {
                    assert(sel.remove(j)[i] == sel[i]);
                    assert(order2[i] == order[i]);
                } else {
                    assert(sel.remove(j)[i] == sel[i + 1]);
                    assert(order2[i] == order[i + 1]);
                }
            }
        }
        // Taking the chosen position out of the selection and the last
        // input out of the inputs removes the same value from each side.
        let v = inputs[n - 1];
        assert(sel[j] == v);
        assert(sel.remove(j).to_multiset() =~= sel.to_multiset().remove(v));
        assert(inputs.drop_last() =~= inputs.remove(n - 1));
        assert(inputs2.to_multiset() =~= inputs.to_multiset().remove(v));
        assert(sel.to_multiset().contains(v)) by {
            assert(sel.contains(v)) by {
                assert(sel[j] == v);
            }
        }
        assert(inputs.to_multiset().contains(v)) by {
            assert(inputs.contains(v)) by {
                assert(inputs[n - 1] == v);
            }
        }
        assert(sel.to_multiset() =~= sel.to_multiset().remove(v).insert(v));
        assert(inputs.to_multiset() =~= inputs.to_multiset().remove(v).insert(v));
    }
}

/// Give every input to a task of its own: task `i` carries input `i`.
pub fn dispatch(inputs: &Vec<i64>) -> (tasks: Vec<Task>)
    ensures
        tasks@.len() == inputs@.len(),
        forall|i: int| 0 <= i < tasks@.len() ==> (#[trigger] tasks@[i]).id == i
            && tasks@[i].input == inputs@[i],
{
    let mut tasks: Vec<Task> = Vec::new();
    let mut i: usize = 0;
    while i < inputs.len()
        invariant
            i <= inputs@.len(),
            tasks@.len() == i,
            forall|j: int| 0 <= j < i ==> (#[trigger] tasks@[j]).id == j
                && tasks@[j].input == inputs@[j],
        decreases inputs@.len() - i,
    {
        tasks.push(Task { id: i, input: inputs[i] });
        i = i + 1;
    }
    tasks
}

/// The work itself: in this demo each task's payload is its input.
pub fn worker_payload(input: i64) -> (p: i64)
    ensures
        p == input,
{
    input
}

/// A whole task run: compute the payload and pair it with the task's
/// identity, ready to be handed off exactly once.
pub fn run_task(task: &Task) -> (r: TaskResult)
    ensures
        r.task_id == task.id,
        r.payload == task.input,
{
    TaskResult { task_id: task.id, payload: worker_payload(task.input) }
}

/// The completion line a worker sends on the message-passing demos.
pub fn worker_message(item: &str) -> (m: String)
    ensures
        m@ == "Worker "@ + item@ + ": Task complete!"@,
{
    let mut s = String::from_str("Worker ");
    s.append(item);
    s.append(": Task complete!");
    s
}

/// The coordinator's life: start tasks, collect their results, stop
/// when the channel reports closure.
#[derive(Clone, Copy, Debug, PartialEq, Eq, Structural)]
pub enum CoordinatorPhase {
    Dispatching,
    Collecting,
    Closed,
}

/// The collecting side: the sole consumer of the channel. It owns the
/// running total, which only it ever touches, once per received result.
pub struct Coordinator {
    pub seed: i64,
    pub total: i64,
    pub results: Vec<TaskResult>,
    pub phase: CoordinatorPhase,
}

impl Coordinator {
    /// The running total always equals the seed plus the payloads
    /// received so far.
    pub open spec fn wf(&self) -> bool {
        self.total == self.seed + seq_sum(payloads_of(self.results@))
    }

    pub fn new(seed: i64) -> (c: Self)
        ensures
            c.seed == seed,
            c.total == seed,
            c.results@ =~= Seq::<TaskResult>::empty(),
            c.phase == CoordinatorPhase::Dispatching,
            c.wf(),
    {
        let c = Coordinator {
            seed,
            total: seed,
            results: Vec::new(),
            phase: CoordinatorPhase::Dispatching,
        };
        proof {
            assert(payloads_of(c.results@) =~= Seq::<i64>::empty());
        }
        c
    }

    /// Task start-up is done; from here on the coordinator only
    /// receives.
    pub fn start_collecting(&mut self)
        requires
            old(self).phase == CoordinatorPhase::Dispatching,
        ensures
            final(self).phase == CoordinatorPhase::Collecting,
            final(self).seed == old(self).seed,
            final(self).total == old(self).total,
            final(self).results@ == old(self).results@,
            old(self).wf() ==> final(self).wf(),
    {
        self.phase = CoordinatorPhase::Collecting;
    }

    /// Fold one received result into the total and record it.
    pub fn on_result(&mut self, result: TaskResult)
        requires
            old(self).phase == CoordinatorPhase::Collecting,
            i64::MIN <= old(self).total + result.payload <= i64::MAX,
        ensures
            final(self).total == old(self).total + result.payload,
            final(self).results@ == old(self).results@.push(result),
            final(self).phase == CoordinatorPhase::Collecting,
            final(self).seed == old(self).seed,
            old(self).wf() ==> final(self).wf(),
    {
        self.total = self.total + result.payload;
        self.results.push(result);
        proof {
            assert(payloads_of(self.results@) =~= payloads_of(old(self).results@).push(
                result.payload,
            ));
            lemma_seq_sum_push(payloads_of(old(self).results@), result.payload);
        }
    }

    /// The channel reported closure: every producer handle is gone, so
    /// no further result can arrive and collection ends.
    pub fn on_closed(&mut self)
        requires
            old(self).phase == CoordinatorPhase::Collecting,
        ensures
            final(self).phase == CoordinatorPhase::Closed,
            final(self).seed == old(self).seed,
            final(self).total == old(self).total,
            final(self).results@ == old(self).results@,
            old(self).wf() ==> final(self).wf(),
    {
        self.phase = CoordinatorPhase::Closed;
    }
}

/// One complete session, played out against the channel model. The
/// `order` argument stands for the scheduler's choice: the order in
/// which task results reach the channel, any duplicate-free assignment
/// of one send to each task. A send meeting a full channel waits for
/// the coordinator to drain one result first; after its single send a
/// task releases its handle; once every handle is gone the coordinator
/// drains the rest and observes closure. Whatever the order:
/// every task's result is delivered exactly once — no duplicates, no
/// loss — collection terminates, and the final total is the seed plus
/// the sum of all inputs.
pub fn run_to_completion(inputs: &Vec<i64>, seed: i64, capacity: usize, order: &Vec<usize>) -> (coord:
    Coordinator)
    requires
        capacity >= 1,
        order@.len() == inputs@.len(),
        order@.no_duplicates(),
        forall|k: int| 0 <= k < order@.len() ==> (#[trigger] order@[k]) < inputs@.len(),
        partials_in_range(seed as int, selected_payloads(inputs@, order@)),
    ensures
        coord.seed == seed,
        coord.phase == CoordinatorPhase::Closed,
        coord.wf(),
        coord.results@.len() == inputs@.len(),
        forall|k: int| 0 <= k < coord.results@.len() ==> (#[trigger] coord.results@[k]).task_id
            == order@[k] && coord.results@[k].payload == inputs@[order@[k] as int],
        forall|k1: int, k2: int|
            0 <= k1 < coord.results@.len() && 0 <= k2 < coord.results@.len() && k1 != k2
                ==> (#[trigger] coord.results@[k1]).task_id
                != (#[trigger] coord.results@[k2]).task_id,
        forall|id: usize| id < inputs@.len() ==> #[trigger] result_ids(coord.results@).contains(id),
        coord.total == seed + seq_sum(inputs@),
{
    let tasks = dispatch(inputs);
    let n: usize = inputs.len();
    let mut coord = Coordinator::new(seed);
    coord.start_collecting();
    let mut chan: ChannelModel<TaskResult> = ChannelModel::new_bounded(capacity, n);
    let ghost sel = selected_payloads(inputs@, order@);
    let mut sent: usize = 0;
    let mut received: usize = 0;
    while sent < n
        invariant
            n == inputs@.len(),
            tasks@.len() == n,
            forall|i: int| 0 <= i < n ==> (#[trigger] tasks@[i]).id == i && tasks@[i].input
                == inputs@[i],
            order@.len() == n,
            forall|k: int| 0 <= k < n ==> (#[trigger] order@[k]) < n,
            sel == selected_payloads(inputs@, order@),
            partials_in_range(seed as int, sel),
            capacity >= 1,
            received <= sent <= n,
            chan.bound == Some(capacity),
            chan.senders == n - sent,
            chan.wf(),
            chan.queue@.len() == sent - received,
            forall|i: int| 0 <= i < chan.queue@.len() ==> (#[trigger] chan.queue@[i]).task_id
                == order@[received + i] && chan.queue@[i].payload == inputs@[order@[received
                + i] as int],
            coord.phase == CoordinatorPhase::Collecting,
            coord.seed == seed,
            coord.wf(),
            coord.results@.len() == received,
            forall|k: int| 0 <= k < received ==> (#[trigger] coord.results@[k]).task_id
                == order@[k] && coord.results@[k].payload == inputs@[order@[k] as int],
            coord.total == seed + seq_sum(sel.take(received as int)),
        decreases n - sent,
    {
        if chan.is_full() {
            // The sending task would block; the coordinator drains the
            // oldest result to make room.
            let outcome = chan.recv();
            match outcome {
                RecvOutcome::Received(result) => {
                    proof {
                        assert(result.payload == sel[received as int]);
                        lemma_seq_sum_take_step(sel, received as int);
                        assert(sel.take(received as int + 1) =~= sel.take((received + 1) as int));
                    }
                    coord.on_result(result);
                    received = received + 1;
                },
                RecvOutcome::Closed => {},
            }
        }
        let picked: usize = order[sent];
        let result = run_task(&tasks[picked]);
        chan.send(result);
        chan.release_sender();
        sent = sent + 1;
    }
    // Every producer has sent once and released its handle; the
    // coordinator drains what is left until the channel reports closure.
    loop
        invariant_except_break
            n == inputs@.len(),
            order@.len() == n,
            forall|k: int| 0 <= k < n ==> (#[trigger] order@[k]) < n,
            sel == selected_payloads(inputs@, order@),
            partials_in_range(seed as int, sel),
            received <= n,
            chan.senders == 0,
            chan.wf(),
            chan.queue@.len() == n - received,
            forall|i: int| 0 <= i < chan.queue@.len() ==> (#[trigger] chan.queue@[i]).task_id
                == order@[received + i] && chan.queue@[i].payload == inputs@[order@[received
                + i] as int],
            coord.phase == CoordinatorPhase::Collecting,
            coord.seed == seed,
            coord.wf(),
            coord.results@.len() == received,
            forall|k: int| 0 <= k < received ==> (#[trigger] coord.results@[k]).task_id
                == order@[k] && coord.results@[k].payload == inputs@[order@[k] as int],
            coord.total == seed + seq_sum(sel.take(received as int)),
        ensures
            received == n,
            coord.phase == CoordinatorPhase::Closed,
            coord.seed == seed,
            coord.wf(),
            coord.results@.len() == n,
            forall|k: int| 0 <= k < n ==> (#[trigger] coord.results@[k]).task_id == order@[k]
                && coord.results@[k].payload == inputs@[order@[k] as int],
            coord.total == seed + seq_sum(sel.take(n as int)),
        decreases chan.queue@.len(),
    {
        let outcome = chan.recv();
        match outcome {
            RecvOutcome::Received(result) => {
                proof {
                    assert(result.payload == sel[received as int]);
                    lemma_seq_sum_take_step(sel, received as int);
                    assert(sel.take(received as int + 1) =~= sel.take((received + 1) as int));
                }
                coord.on_result(result);
                received = received + 1;
            },
            RecvOutcome::Closed => {
                coord.on_closed();
                break ;
            },
        }
    }
    proof {
        assert(sel.take(n as int) =~= sel);
        lemma_selection_is_permutation(inputs@, order@);
        lemma_seq_sum_order_independent(sel, inputs@);
        lemma_distinct_indices_cover(order@, n as nat);
        assert(result_ids(coord.results@) =~= order@);
        assert forall|k1: int, k2: int|
            0 <= k1 < coord.results@.len() && 0 <= k2 < coord.results@.len() && k1 != k2
                implies (#[trigger] coord.results@[k1]).task_id
            != (#[trigger] coord.results@[k2]).task_id by {
            assert(order@[k1] != order@[k2]);
        }
    }
    coord
}

/// The same session over the unbounded channel variant: no send ever
/// blocks, so every task sends before the coordinator starts draining.
/// Exactly-once delivery, termination of the collection loop, and the
/// final total are preserved unchanged.
pub fn run_unbounded_to_completion(inputs: &Vec<i64>, seed: i64, order: &Vec<usize>) -> (coord:
    Coordinator)
    requires
        order@.len() == inputs@.len(),
        order@.no_duplicates(),
        forall|k: int| 0 <= k < order@.len() ==> (#[trigger] order@[k]) < inputs@.len(),
        partials_in_range(seed as int, selected_payloads(inputs@, order@)),
    ensures
        coord.seed == seed,
        coord.phase == CoordinatorPhase::Closed,
        coord.wf(),
        coord.results@.len() == inputs@.len(),
        forall|k: int| 0 <= k < coord.results@.len() ==> (#[trigger] coord.results@[k]).task_id
            == order@[k] && coord.results@[k].payload == inputs@[order@[k] as int],
        forall|k1: int, k2: int|
            0 <= k1 < coord.results@.len() && 0 <= k2 < coord.results@.len() && k1 != k2
                ==> (#[trigger] coord.results@[k1]).task_id
                != (#[trigger] coord.results@[k2]).task_id,
        forall|id: usize| id < inputs@.len() ==> #[trigger] result_ids(coord.results@).contains(id),
        coord.total == seed + seq_sum(inputs@),
{
    let tasks = dispatch(inputs);
    let n: usize = inputs.len();
    let mut coord = Coordinator::new(seed);
    coord.start_collecting();
    let mut chan: ChannelModel<TaskResult> = ChannelModel::new_unbounded(n);
    let ghost sel = selected_payloads(inputs@, order@);
    let mut sent: usize = 0;
    while sent < n
        invariant
            n == inputs@.len(),
            tasks@.len() == n,
            forall|i: int| 0 <= i < n ==> (#[trigger] tasks@[i]).id == i && tasks@[i].input
                == inputs@[i],
            order@.len() == n,
            forall|k: int| 0 <= k < n ==> (#[trigger] order@[k]) < n,
            sel == selected_payloads(inputs@, order@),
            sent <= n,
            chan.bound is None,
            chan.senders == n - sent,
            chan.queue@.len() == sent,
            forall|i: int| 0 <= i < chan.queue@.len() ==> (#[trigger] chan.queue@[i]).task_id
                == order@[i] && chan.queue@[i].payload == inputs@[order@[i] as int],
        decreases n - sent,
    {
        let picked: usize = order[sent];
        let result = run_task(&tasks[picked]);
        chan.send(result);
        chan.release_sender();
        sent = sent + 1;
    }
    let mut received: usize = 0;
    loop
        invariant_except_break
            n == inputs@.len(),
            order@.len() == n,
            forall|k: int| 0 <= k < n ==> (#[trigger] order@[k]) < n,
            sel == selected_payloads(inputs@, order@),
            partials_in_range(seed as int, sel),
            received <= n,
            chan.senders == 0,
            chan.queue@.len() == n - received,
            forall|i: int| 0 <= i < chan.queue@.len() ==> (#[trigger] chan.queue@[i]).task_id
                == order@[received + i] && chan.queue@[i].payload == inputs@[order@[received
                + i] as int],
            coord.phase == CoordinatorPhase::Collecting,
            coord.seed == seed,
            coord.wf(),
            coord.results@.len() == received,
            forall|k: int| 0 <= k < received ==> (#[trigger] coord.results@[k]).task_id
                == order@[k] && coord.results@[k].payload == inputs@[order@[k] as int],
            coord.total == seed + seq_sum(sel.take(received as int)),
        ensures
            received == n,
            coord.phase == CoordinatorPhase::Closed,
            coord.seed == seed,
            coord.wf(),
            coord.results@.len() == n,
            forall|k: int| 0 <= k < n ==> (#[trigger] coord.results@[k]).task_id == order@[k]
                && coord.results@[k].payload == inputs@[order@[k] as int],
            coord.total == seed + seq_sum(sel.take(n as int)),
        decreases chan.queue@.len(),
    {
        let outcome = chan.recv();
        match outcome {
            RecvOutcome::Received(result) => {
                proof {
                    assert(result.payload == sel[received as int]);
                    lemma_seq_sum_take_step(sel, received as int);
                    assert(sel.take(received as int + 1) =~= sel.take((received + 1) as int));
                }
                coord.on_result(result);
                received = received + 1;
            },
            RecvOutcome::Closed => {
                coord.on_closed();
                break ;
            },
        }
    }
    proof {
        assert(sel.take(n as int) =~= sel);
        lemma_selection_is_permutation(inputs@, order@);
        lemma_seq_sum_order_independent(sel, inputs@);
        lemma_distinct_indices_cover(order@, n as nat);
        assert(result_ids(coord.results@) =~= order@);
        assert forall|k1: int, k2: int|
            0 <= k1 < coord.results@.len() && 0 <= k2 < coord.results@.len() && k1 != k2
                implies (#[trigger] coord.results@[k1]).task_id
            != (#[trigger] coord.results@[k2]).task_id by {
            assert(order@[k1] != order@[k2]);
        }
    }
    coord
}

} // verus!

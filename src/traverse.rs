use vstd::prelude::*;
use crate::key::{ReorderKey, key_lt, key_inc, key_push, key_can_inc};
use crate::options::Options;

verus! {

/// A deferred side effect of the traversal.
#[derive(Debug)]
pub enum TaskPostProc {
    /// Write the path bytes followed by a newline.
    Show(Vec<u8>),
}

/// The bytes an action writes to the output: the path, then a newline.
pub open spec fn postproc_output(t: TaskPostProc) -> Seq<u8> {
    match t {
        TaskPostProc::Show(p) => p@.push(10u8),
    }
}

/// The bytes to write for one action.
pub fn postproc_bytes(t: TaskPostProc) -> (r: Vec<u8>)
    ensures
        r@ == postproc_output(t),
{
    match t {
        TaskPostProc::Show(p) => {
            let mut v = p;
            v.push(10u8);
            v
        },
    }
}

/// Work sent to a worker. `H` is the program's directory handle and `D` its
/// dependency handle.
pub enum Task<H, D> {
    /// Read the directory `path` (relative to `parent_dir` when there is one)
    /// once `dep_pred` completes, emitting at positions from `key` on, and
    /// complete `dep_succ` when the whole subtree is done.
    ReadDir {
        parent_dir: Option<H>,
        path: Vec<u8>,
        dep_pred: D,
        dep_succ: D,
        key: ReorderKey,
    },
    /// Leave the worker loop.
    Quit,
}

/// A traversal to run.
pub struct Traverser {
    pub opt: Options,
}

impl Traverser {
    /// The first task of the traversal: the source directory, as a root,
    /// after `pred` and before `succ`, at the first position.
    pub fn root_task<H, D>(&self, pred: D, succ: D) -> (r: Task<H, D>)
        ensures
            r matches Task::ReadDir { parent_dir, path, dep_pred, dep_succ, key } && parent_dir is None
                && path@ == self.opt.src_path@ && dep_pred == pred && dep_succ == succ && key@ == seq![
                0usize,
            ],
    {
        Task::ReadDir {
            parent_dir: None,
            path: vstd::slice::slice_to_vec(self.opt.src_path.as_slice()),
            dep_pred: pred,
            dep_succ: succ,
            key: ReorderKey::root(),
        }
    }
}

/// How a worker handles a task it received.
#[derive(Clone, Copy, Debug, PartialEq, Eq, Structural)]
pub enum Disposition {
    /// Leave the worker loop.
    Quit,
    /// Read the directory.
    Run,
    /// The worker has failed: keep the order chain, read nothing.
    PassThrough,
}

/// A worker that has failed keeps consuming directory tasks without reading
/// them, so that every task's successor still completes.
pub fn task_disposition<H, D>(task: &Task<H, D>, failed: bool) -> (r: Disposition)
    ensures
        *task is Quit ==> r == Disposition::Quit,
        *task is ReadDir && !failed ==> r == Disposition::Run,
        *task is ReadDir && failed ==> r == Disposition::PassThrough,
{
    match task {
        Task::Quit => Disposition::Quit,
        Task::ReadDir { .. } => {
            if failed {
                Disposition::PassThrough
            } else {
                Disposition::Run
            }
        },
    }
}

/// A batch of post-processing actions bound to a predecessor and a successor
/// dependency, at a position of the serial order.
///
/// `D` is the dependency handle of the program around the library.
pub struct DepPostProcs<D> {
    /// The worker is still appending to this batch.
    pub current: bool,
    /// Dependency to wait for before the actions are applied.
    pub pred: D,
    /// Dependency to complete once the actions are applied; `None` is the
    /// always-completed dependency.
    pub succ: Option<D>,
    /// Actions in the order they were appended.
    pub postprocs: Vec<TaskPostProc>,
    pub key: ReorderKey,
}

/// The state of one worker: its pending batches, ordered by key, and the key
/// of the next emission position of the live frame.
pub struct TraverseState<D> {
    pub pendings: Vec<DepPostProcs<D>>,
    pub current_key: ReorderKey,
}

/// What a worker does after one step of pumping its pending set.
pub enum PumpStep<D> {
    /// Nothing ordered earlier is left: apply `actions`, then take new work.
    Idle { actions: Vec<TaskPostProc> },
    /// The first batch was retired: apply `actions`, then complete `succ`
    /// (if any), then pump again.
    Released { actions: Vec<TaskPostProc>, succ: Option<D> },
    /// The first batch waits on its predecessor.
    Blocked,
}

pub open spec fn sorted_by_key<D>(s: Seq<DepPostProcs<D>>) -> bool {
    forall|i: int, j: int|
        0 <= i < j < s.len() ==> !key_lt(#[trigger] s[j].key@, #[trigger] s[i].key@)
}

pub open spec fn at_most_one_current<D>(s: Seq<DepPostProcs<D>>) -> bool {
    forall|i: int, j: int|
        0 <= i < s.len() && 0 <= j < s.len() && #[trigger] s[i].current && #[trigger] s[j].current
            ==> i == j
}

pub open spec fn has_current<D>(s: Seq<DepPostProcs<D>>) -> bool {
    exists|i: int| 0 <= i < s.len() && #[trigger] s[i].current
}

/// Index of the live frame.
pub open spec fn cur_index<D>(s: Seq<DepPostProcs<D>>) -> int {
    choose|i: int| 0 <= i < s.len() && #[trigger] s[i].current
}

/// The pending set is ordered by key, holds at most one live frame, and the
/// next emission position `ck` is the one after the live frame's key.
pub open spec fn pendings_wf<D>(s: Seq<DepPostProcs<D>>, ck: Seq<usize>) -> bool {
    &&& sorted_by_key(s)
    &&& at_most_one_current(s)
    &&& forall|i: int|
        0 <= i < s.len() && #[trigger] s[i].current ==> {
            &&& key_can_inc(s[i].key@)
            &&& ck == key_inc(s[i].key@)
        }
}

/// Keeping every key and clearing live flags keeps the set well formed.
proof fn lemma_wf_relabel<D>(s: Seq<DepPostProcs<D>>, n: Seq<DepPostProcs<D>>, ck: Seq<usize>)
    requires
        pendings_wf(s, ck),
        n.len() == s.len(),
        forall|i: int| 0 <= i < s.len() ==> (#[trigger] n[i]).key == s[i].key,
        forall|i: int| 0 <= i < s.len() && (#[trigger] n[i]).current ==> s[i].current,
    ensures
        pendings_wf(n, ck),
{
    assert forall|a: int, b: int| 0 <= a < b < n.len() implies !key_lt(
        #[trigger] n[b].key@,
        #[trigger] n[a].key@,
    ) by {
        assert(n[a].key == s[a].key);
        assert(n[b].key == s[b].key);
    }
    assert forall|a: int, b: int|
        0 <= a < n.len() && 0 <= b < n.len() && #[trigger] n[a].current
            && #[trigger] n[b].current implies a == b by {
        assert(s[a].current);
        assert(s[b].current);
    }
    assert forall|a: int| 0 <= a < n.len() && #[trigger] n[a].current implies {
        &&& key_can_inc(n[a].key@)
        &&& ck == key_inc(n[a].key@)
    } by {
        assert(s[a].current);
        assert(n[a].key == s[a].key);
    }
}

/// The batch `e` once its outgoing edge is bound to `succ`.
pub open spec fn fixed_up<D>(e: DepPostProcs<D>, succ: D) -> DepPostProcs<D> {
    DepPostProcs { current: false, pred: e.pred, succ: Some(succ), postprocs: e.postprocs, key: e.key }
}

/// `f` is `e` with a different list of actions.
pub open spec fn same_but_actions<D>(e: DepPostProcs<D>, f: DepPostProcs<D>) -> bool {
    &&& f.current == e.current
    &&& f.pred == e.pred
    &&& f.succ == e.succ
    &&& f.key == e.key
}

/// A fresh live frame keyed `key`, waiting on `pred`.
pub open spec fn fresh_frame<D>(e: DepPostProcs<D>, pred: D, key: Seq<usize>) -> bool {
    &&& e.current
    &&& e.pred == pred
    &&& e.succ is None
    &&& e.postprocs@.len() == 0
    &&& e.key@ == key
}

impl<D> DepPostProcs<D> {
    /// Binds the outgoing edge: the worker has moved past this batch.
    pub fn fixup(&mut self, succ: D)
        ensures
            *final(self) == fixed_up(*old(self), succ),
    {
        self.succ = Some(succ);
        self.current = false;
    }

    /// Takes the actions out, in append order, leaving none.
    pub fn flush_postprocs(&mut self) -> (r: Vec<TaskPostProc>)
        ensures
            r@ == old(self).postprocs@,
            final(self).postprocs@.len() == 0,
            same_but_actions(*old(self), *final(self)),
    {
        let mut v: Vec<TaskPostProc> = Vec::new();
        std::mem::swap(&mut v, &mut self.postprocs);
        v
    }
}

impl<D> TraverseState<D> {
    pub open spec fn wf(&self) -> bool {
        pendings_wf(self.pendings@, self.current_key@)
    }

    /// A worker with nothing pending.
    pub fn new() -> (r: TraverseState<D>)
        ensures
            r.wf(),
            r.pendings@.len() == 0,
            r.current_key@ == seq![0usize],
    {
        TraverseState { pendings: Vec::new(), current_key: ReorderKey::root() }
    }

    /// Index of the live frame, if there is one.
    pub fn find_current(&self) -> (r: Option<usize>)
        requires
            self.wf(),
        ensures
            r is Some == has_current(self.pendings@),
            r is Some ==> r->0 == cur_index(self.pendings@),
            r is Some ==> r->0 < self.pendings@.len() && self.pendings@[r->0 as int].current,
    {
        let mut i: usize = 0;
        while i < self.pendings.len()
            invariant
                self.wf(),
                0 <= i <= self.pendings@.len(),
                forall|j: int| 0 <= j < i ==> !(#[trigger] self.pendings@[j]).current,
            decreases self.pendings@.len() - i,
        {
            if self.pendings[i].current {
                proof {
                    let c = cur_index(self.pendings@);
                    assert(has_current(self.pendings@));
                    assert(self.pendings@[c].current);
                    assert(self.pendings@[i as int].current);
                    assert(c == i as int);
                }
                return Some(i);
            }
            i = i + 1;
        }
        None
    }

    /// Inserts a batch after every batch whose key is not greater.
    fn insert_sorted(&mut self, e: DepPostProcs<D>) -> (p: usize)
        requires
            sorted_by_key(old(self).pendings@),
        ensures
            p <= old(self).pendings@.len(),
            final(self).pendings@ == old(self).pendings@.insert(p as int, e),
            final(self).current_key == old(self).current_key,
            sorted_by_key(final(self).pendings@),
    {
        let mut i: usize = 0;
        while i < self.pendings.len()
            invariant
                0 <= i <= self.pendings@.len(),
                self.pendings@ == old(self).pendings@,
                self.current_key == old(self).current_key,
                forall|j: int| 0 <= j < i ==> !key_lt(e.key@, (#[trigger] self.pendings@[j]).key@),
            ensures
                0 <= i <= self.pendings@.len(),
                self.pendings@ == old(self).pendings@,
                self.current_key == old(self).current_key,
                forall|j: int| 0 <= j < i ==> !key_lt(e.key@, (#[trigger] self.pendings@[j]).key@),
                i < self.pendings@.len() ==> key_lt(e.key@, self.pendings@[i as int].key@),
            decreases self.pendings@.len() - i,
        {
            if e.key.lt(&self.pendings[i].key) {
                break;
            }
            i = i + 1;
        }
        let ghost s = self.pendings@;
        let ghost ek = e.key@;
        self.pendings.insert(i, e);
        proof {
            let n = self.pendings@;
            assert forall|a: int, b: int| 0 <= a < b < n.len() implies !key_lt(
                #[trigger] n[b].key@,
                #[trigger] n[a].key@,
            ) by {
                if a == i as int {
                    let q = b - 1;
                    assert(n[a].key@ == ek);
                    assert(n[b] == s[q]);
                    crate::key::key_order_is_total(s[q].key@, ek, s[i as int].key@);
                    crate::key::key_order_is_total(s[q].key@, s[i as int].key@, ek);
                    if q > i as int {
                        assert(!key_lt(s[q].key@, s[i as int].key@));
                    }
                } else if b == i as int {
                    assert(n[a] == s[a]);
                    assert(n[b].key@ == ek);
                } else if a > i as int {
                    assert(n[a] == s[a - 1]);
                    assert(n[b] == s[b - 1]);
                } else if b > i as int {
                    assert(n[a] == s[a]);
                    assert(n[b] == s[b - 1]);
                } else {
                    assert(n[a] == s[a]);
                    assert(n[b] == s[b]);
                }
            }
        }
        i
    }

    /// Starts a directory task: its batch becomes the live frame, waiting on
    /// `pred`, and the next emission position is the one after `key`.
    pub fn begin_task(&mut self, pred: D, key: ReorderKey)
        requires
            old(self).wf(),
            !has_current(old(self).pendings@),
            key_can_inc(key@),
        ensures
            final(self).wf(),
            final(self).current_key@ == key_inc(key@),
            exists|p: int|
                0 <= p < final(self).pendings@.len()
                    && final(self).pendings@.remove(p) == old(self).pendings@
                    && fresh_frame(#[trigger] final(self).pendings@[p], pred, key@),
    {
        let mut next = key.duplicate();
        next.inc();
        let ghost k = key@;
        let ghost pr = pred;
        let e = DepPostProcs { current: true, pred, succ: None, postprocs: Vec::new(), key };
        let p = self.insert_sorted(e);
        self.current_key = next;
        proof {
            let n = self.pendings@;
            assert(n.remove(p as int) =~= old(self).pendings@);
            assert(fresh_frame(n[p as int], pr, k));
            assert forall|i: int| 0 <= i < n.len() && #[trigger] n[i].current implies i == p as int by {
                if i < p {
                    assert(n[i] == old(self).pendings@[i]);
                } else if i > p {
                    assert(n[i] == old(self).pendings@[i - 1]);
                }
            }
        }
    }

    /// Predecessor of the first pending batch, if any.
    pub fn head_pred(&self) -> (r: Option<&D>)
        ensures
            r is Some == (self.pendings@.len() > 0),
            r is Some ==> *r->0 == self.pendings@[0].pred,
    {
        if self.pendings.len() == 0 {
            None
        } else {
            Some(&self.pendings[0].pred)
        }
    }

    /// Predecessor of the live frame, if any.
    pub fn current_pred(&self) -> (r: Option<&D>)
        requires
            self.wf(),
        ensures
            r is Some == has_current(self.pendings@),
            r is Some ==> *r->0 == self.pendings@[cur_index(self.pendings@)].pred,
    {
        match self.find_current() {
            Some(c) => Some(&self.pendings[c].pred),
            None => None,
        }
    }

    /// Whether a subdirectory can be handed off from the live frame: the next
    /// emission position must be able to advance past it.
    pub fn can_hand_off(&self) -> (r: bool)
        ensures
            r == key_can_inc(self.current_key@),
    {
        self.current_key.can_inc()
    }

    /// One step of draining the pending set in key order. `head_completed`
    /// tells whether the predecessor of the first batch has completed.
    ///
    /// The actions of a batch are handed out only once its predecessor has
    /// completed, and a retired batch hands out its successor together with
    /// its actions, to be completed after they are applied.
    pub fn pump(&mut self, head_completed: bool) -> (r: PumpStep<D>)
        requires
            old(self).wf(),
        ensures
            final(self).wf(),
            final(self).current_key == old(self).current_key,
            old(self).pendings@.len() == 0 ==> {
                &&& r matches PumpStep::Idle { actions } && actions@.len() == 0
                &&& final(self).pendings@ == old(self).pendings@
            },
            old(self).pendings@.len() > 0 && !head_completed ==> {
                &&& r is Blocked
                &&& final(self).pendings@ == old(self).pendings@
            },
            old(self).pendings@.len() > 0 && head_completed && old(self).pendings@[0].current ==> {
                &&& r matches PumpStep::Idle { actions } && actions@ == old(self).pendings@[0].postprocs@
                &&& final(self).pendings@.len() == old(self).pendings@.len()
                &&& same_but_actions(old(self).pendings@[0], final(self).pendings@[0])
                &&& final(self).pendings@[0].postprocs@.len() == 0
                &&& final(self).pendings@.drop_first() == old(self).pendings@.drop_first()
            },
            old(self).pendings@.len() > 0 && head_completed && !old(self).pendings@[0].current ==> {
                &&& r matches PumpStep::Released { actions, succ }
                    && actions@ == old(self).pendings@[0].postprocs@
                    && succ == old(self).pendings@[0].succ
                &&& final(self).pendings@ == old(self).pendings@.drop_first()
            },
    {
        if self.pendings.len() == 0 {
            return PumpStep::Idle { actions: Vec::new() };
        }
        if !head_completed {
            return PumpStep::Blocked;
        }
        let ghost s = self.pendings@;
        let mut e = self.pendings.remove(0);
        if e.current {
            let actions = e.flush_postprocs();
            self.pendings.insert(0, e);
            proof {
                let n = self.pendings@;
                assert(n.drop_first() =~= s.drop_first());
                assert forall|i: int| 0 < i < n.len() implies n[i] == s[i] by {
                    assert(n[i] == n.drop_first()[i - 1]);
                }
                lemma_wf_relabel(s, n, self.current_key@);
            }
            PumpStep::Idle { actions }
        } else {
            proof {
                let n = self.pendings@;
                assert(n =~= s.drop_first());
                assert forall|i: int| 0 <= i < n.len() implies n[i] == s[i + 1] by {}
                assert(sorted_by_key(n)) by {
                    assert forall|a: int, b: int| 0 <= a < b < n.len() implies !key_lt(
                        #[trigger] n[b].key@,
                        #[trigger] n[a].key@,
                    ) by {
                        assert(n[a] == s[a + 1]);
                        assert(n[b] == s[b + 1]);
                    }
                }
                assert forall|a: int, b: int|
                    0 <= a < n.len() && 0 <= b < n.len() && #[trigger] n[a].current
                        && #[trigger] n[b].current implies a == b by {
                    assert(n[a] == s[a + 1]);
                    assert(n[b] == s[b + 1]);
                }
                assert forall|a: int| 0 <= a < n.len() && #[trigger] n[a].current implies {
                    &&& key_can_inc(n[a].key@)
                    &&& self.current_key@ == key_inc(n[a].key@)
                } by {
                    assert(n[a] == s[a + 1]);
                }
            }
            let DepPostProcs { current: _, pred: _, succ, postprocs, key: _ } = e;
            PumpStep::Released { actions: postprocs, succ }
        }
    }

    /// Appends an action to the live frame. When the live frame's
    /// predecessor has completed (`current_pred_completed`), its earlier
    /// actions and the new one are handed back to be applied now, in order;
    /// otherwise the action waits in the frame.
    pub fn push_postproc(&mut self, t: TaskPostProc, current_pred_completed: bool) -> (r: Vec<
        TaskPostProc,
    >)
        requires
            old(self).wf(),
            has_current(old(self).pendings@),
        ensures
            final(self).wf(),
            final(self).current_key == old(self).current_key,
            ({
                let c = cur_index(old(self).pendings@);
                &&& 0 <= c < old(self).pendings@.len()
                &&& final(self).pendings@.len() == old(self).pendings@.len()
                &&& forall|i: int|
                    0 <= i < old(self).pendings@.len() && i != c ==> #[trigger] final(self).pendings@[i]
                        == old(self).pendings@[i]
                &&& same_but_actions(old(self).pendings@[c], final(self).pendings@[c])
                &&& current_pred_completed ==> r@ == old(self).pendings@[c].postprocs@.push(t)
                    && final(self).pendings@[c].postprocs@.len() == 0
                &&& !current_pred_completed ==> r@.len() == 0 && final(self).pendings@[c].postprocs@
                    == old(self).pendings@[c].postprocs@.push(t)
            }),
    {
        let ghost s = self.pendings@;
        let c = match self.find_current() {
            Some(c) => c,
            None => {
                return Vec::new();
            },
        };
        let mut e = self.pendings.remove(c);
        let mut r: Vec<TaskPostProc> = Vec::new();
        if current_pred_completed {
            r = e.flush_postprocs();
            r.push(t);
        } else {
            e.postprocs.push(t);
        }
        self.pendings.insert(c, e);
        proof {
            let n = self.pendings@;
            assert(n =~= s.update(c as int, n[c as int]));
            lemma_wf_relabel(s, n, self.current_key@);
        }
        r
    }

    /// Binds the live frame's outgoing edge to `succ` and retires it as a
    /// live frame; its batch stays pending until drained.
    pub fn finish_task(&mut self, succ: D)
        requires
            old(self).wf(),
            has_current(old(self).pendings@),
        ensures
            final(self).wf(),
            !has_current(final(self).pendings@),
            final(self).current_key == old(self).current_key,
            final(self).pendings@ == old(self).pendings@.update(
                cur_index(old(self).pendings@),
                fixed_up(old(self).pendings@[cur_index(old(self).pendings@)], succ),
            ),
    {
        let ghost s = self.pendings@;
        let c = match self.find_current() {
            Some(c) => c,
            None => {
                return;
            },
        };
        let mut e = self.pendings.remove(c);
        e.fixup(succ);
        self.pendings.insert(c, e);
        proof {
            let n = self.pendings@;
            assert(n =~= s.update(c as int, n[c as int]));
            lemma_wf_relabel(s, n, self.current_key@);
            if has_current(n) {
                let j = cur_index(n);
                assert(s[j].current);
                assert(s[c as int].current);
            }
        }
    }

    /// Hands a subdirectory off to another worker. The live frame's outgoing
    /// edge becomes `child_pred` (completed by the program once the child
    /// task may start emitting); a new live frame at the next emission
    /// position waits on `child_succ` (completed when the child subtree is
    /// done). Returns the root key of the child task, which lies strictly
    /// between the two frames.
    pub fn gen_chain(&mut self, child_pred: D, child_succ: D) -> (child_key: ReorderKey)
        requires
            old(self).wf(),
            has_current(old(self).pendings@),
            key_can_inc(old(self).current_key@),
        ensures
            final(self).wf(),
            child_key@ == key_push(old(self).current_key@),
            final(self).current_key@ == key_inc(old(self).current_key@),
            ({
                let c = cur_index(old(self).pendings@);
                let mid = old(self).pendings@.update(c, fixed_up(old(self).pendings@[c], child_pred));
                &&& 0 <= c < old(self).pendings@.len()
                &&& key_lt(old(self).pendings@[c].key@, child_key@)
                &&& key_lt(child_key@, old(self).current_key@)
                &&& exists|p: int|
                    0 <= p < final(self).pendings@.len() && final(self).pendings@.remove(p) == mid
                        && fresh_frame(
                        #[trigger] final(self).pendings@[p],
                        child_succ,
                        old(self).current_key@,
                    )
            }),
    {
        let ghost s = self.pendings@;
        let ghost ck = self.current_key@;
        let ghost cp = child_pred;
        let ghost cs = child_succ;
        let c = match self.find_current() {
            Some(c) => c,
            None => {
                return self.current_key.duplicate();
            },
        };
        let mut e = self.pendings.remove(c);
        e.fixup(child_pred);
        self.pendings.insert(c, e);
        proof {
            let n = self.pendings@;
            assert(n =~= s.update(c as int, n[c as int]));
            lemma_wf_relabel(s, n, ck);
            crate::key::child_key_extends_next(s[c as int].key@);
            crate::key::handoff_keys_between(s[c as int].key@, key_push(ck));
        }
        let ghost mid = self.pendings@;
        let frame_key = self.current_key.duplicate();
        let mut child_key = self.current_key.duplicate();
        child_key.push();
        self.current_key.inc();
        let f = DepPostProcs {
            current: true,
            pred: child_succ,
            succ: None,
            postprocs: Vec::new(),
            key: frame_key,
        };
        let p = self.insert_sorted(f);
        proof {
            let n = self.pendings@;
            assert(n.remove(p as int) =~= mid);
            assert(fresh_frame(n[p as int], cs, ck));
            assert forall|i: int| 0 <= i < mid.len() implies !(#[trigger] mid[i]).current by {
                if i == c as int {
                } else {
                    assert(mid[i] == s[i]);
                    if s[i].current {
                        assert(s[c as int].current);
                    }
                }
            }
            assert forall|i: int| 0 <= i < n.len() && #[trigger] n[i].current implies i == p as int by {
                if i < p {
                    assert(n[i] == mid[i]);
                } else if i > p {
                    assert(n[i] == mid[i - 1]);
                }
            }
        }
        child_key
    }

    /// A task that reads nothing: its frame waits on `pred` and completes
    /// `succ`, so that the order chain through it is kept.
    pub fn pass_through(&mut self, pred: D, key: ReorderKey, succ: D)
        requires
            old(self).wf(),
            !has_current(old(self).pendings@),
            key_can_inc(key@),
        ensures
            final(self).wf(),
            !has_current(final(self).pendings@),
            exists|p: int|
                0 <= p < final(self).pendings@.len() && final(self).pendings@.remove(p) == old(
                    self,
                ).pendings@ && (#[trigger] final(self).pendings@[p]).pred == pred
                    && final(self).pendings@[p].succ == Some(succ)
                    && final(self).pendings@[p].postprocs@.len() == 0
                    && final(self).pendings@[p].key@ == key@,
    {
        let ghost k = key@;
        let ghost pr = pred;
        self.begin_task(pred, key);
        let ghost mid = self.pendings@;
        let ghost p = choose|p: int|
            0 <= p < mid.len() && mid.remove(p) == old(self).pendings@ && fresh_frame(
                #[trigger] mid[p],
                pr,
                k,
            );
        proof {
            assert(mid[p].current);
            assert(cur_index(mid) == p) by {
                assert(mid[cur_index(mid)].current);
            }
        }
        self.finish_task(succ);
        proof {
            let n = self.pendings@;
            assert(n.remove(p) =~= mid.remove(p));
            assert(n[p] == fixed_up(mid[p], succ));
            assert(n[p].pred == pr);
        }
    }
}

} // verus!

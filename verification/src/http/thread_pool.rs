//! Bookkeeping of a pool of worker threads: which workers exist, which run a
//! job, which wait for one, and when a worker is started or stopped.
//!
//! The threads and channels themselves belong to the caller; the pool says
//! which worker takes a job, whether a new one must be started, and whether a
//! worker that finished a job is kept or stopped.

use vstd::prelude::*;
use vstd::std_specs::hash::spec_hash_keys_iter;
use vstd::std_specs::iter::IteratorSpec;
use std::collections::VecDeque;
use std::collections::HashSet;

verus! {

/// A message between the pool and a worker.
pub enum Signal<T, R> {
    /// A job to run.
    Job(T),
    /// The result of a job.
    Return(R),
    /// Stop.
    Quit,
}

/// Why a job's result cannot be had.
#[derive(Clone, Copy, Debug, PartialEq, Eq, Structural)]
pub enum PoolError {
    /// No job runs on that worker.
    NotFound,
    /// The worker answered with something other than a result.
    NoReturn,
}

impl PoolError {
    /// The error's text.
    pub fn message(&self) -> (r: &'static str)
        ensures
            r@ == (match *self {
                PoolError::NotFound => "not found"@,
                PoolError::NoReturn => "no recv"@,
            }),
    {
        match self {
            PoolError::NotFound => "not found",
            PoolError::NoReturn => "no recv",
        }
    }
}

/// The job's result carried by a worker's answer.
pub fn take_return<T, R>(sig: Signal<T, R>) -> (r: Result<R, PoolError>)
    ensures
        match sig {
            Signal::Return(x) => r == Ok::<R, PoolError>(x),
            _ => r == Err::<R, PoolError>(PoolError::NoReturn),
        },
{
    match sig {
        Signal::Return(r) => Ok(r),
        _ => Err(PoolError::NoReturn),
    }
}

/// Which worker takes a job.
#[derive(Clone, Copy, Debug, PartialEq, Eq, Structural)]
pub enum Acquire {
    /// A waiting worker.
    Reuse(usize),
    /// A new worker with this id, to be started.
    Spawn(usize),
}

/// What happens to a worker that finished its job.
#[derive(Clone, Copy, Debug, PartialEq, Eq, Structural)]
pub enum Release {
    /// It waits for the next job.
    Park,
    /// It is stopped: the pool holds more workers than its size.
    Kill,
}

/// The pool's state: its size, the largest size it may grow to, how many
/// workers exist, the next fresh id, the ids of existing workers, of those
/// running a job, and the queue of waiting workers (the last one is taken
/// first).
pub struct PoolView {
    pub pool_size: nat,
    pub max_pool_size: nat,
    pub now_size: nat,
    pub top_id: nat,
    pub channels: Set<usize>,
    pub running: Set<usize>,
    pub waits: Seq<usize>,
}

/// The pool's consistency: every running worker exists; ids are below the
/// next fresh one; and the count of workers is the number that exist. The
/// queue of waiting workers is a plain queue: a worker handed back twice is
/// queued twice, and a stopped worker may still be queued.
pub open spec fn pool_wf(p: PoolView) -> bool {
    &&& p.channels.finite()
    &&& p.running.subset_of(p.channels)
    &&& forall|x: usize| #[trigger] p.channels.contains(x) ==> x < p.top_id
    &&& p.now_size == p.channels.len()
    &&& p.top_id <= usize::MAX
}

/// The worker that an `Acquire` names.
pub open spec fn acquired_id(a: Acquire) -> usize {
    match a {
        Acquire::Reuse(id) => id,
        Acquire::Spawn(id) => id,
    }
}

/// Bookkeeping of a worker pool.
pub struct Pool {
    pool_size: usize,
    max_pool_size: usize,
    now_size: usize,
    top_id: usize,
    channels: HashSet<usize>,
    running: HashSet<usize>,
    waits: VecDeque<usize>,
}

fn index_of(v: &Vec<usize>, x: usize) -> (r: Option<usize>)
    ensures
        match r {
            Some(i) => i < v@.len() && v@[i as int] == x,
            None => !v@.contains(x),
        },
{
    let n = v.len();
    let mut i: usize = 0;
    while i < n
        invariant
            n == v@.len(),
            i <= n,
            forall|j: int| 0 <= j < i ==> v@[j] != x,
        decreases n - i,
    {
        if v[i] == x {
            return Some(i);
        }
        i = i + 1;
    }
    None
}

/// The ids of a hash set, each once, in the order the set walks them.
fn set_ids(s: &HashSet<usize>) -> (r: Vec<usize>)
    ensures
        r@.to_set() == s@,
        r@.no_duplicates(),
{
    broadcast use vstd::std_specs::hash::group_hash_axioms;
    let mut r: Vec<usize> = Vec::new();
    for x in it: s.iter()
        invariant
            r.len() == it.index(),
            forall|i: int| 0 <= i < r.len() ==> r@[i] == *it.seq()[i],
    {
        r.push(*x);
    }
    assert(r@ =~= spec_hash_keys_iter(s).remaining().unref());
    r
}

/// The ids of a queue, front to back.
fn deque_ids(d: &VecDeque<usize>) -> (r: Vec<usize>)
    ensures
        r@ == d@,
{
    let mut r: Vec<usize> = Vec::new();
    let n = d.len();
    let mut i: usize = 0;
    while i < n
        invariant
            n == d@.len(),
            i <= n,
            r@ == d@.subrange(0, i as int),
        decreases n - i,
    {
        r.push(d[i]);
        assert(d@.subrange(0, i + 1) =~= d@.subrange(0, i as int).push(d@[i as int]));
        i = i + 1;
    }
    assert(d@.subrange(0, n as int) =~= d@);
    r
}

impl View for Pool {
    type V = PoolView;

    closed spec fn view(&self) -> PoolView {
        PoolView {
            pool_size: self.pool_size as nat,
            max_pool_size: self.max_pool_size as nat,
            now_size: self.now_size as nat,
            top_id: self.top_id as nat,
            channels: self.channels@,
            running: self.running@,
            waits: self.waits@,
        }
    }
}

impl Pool {
    /// A pool of `size` waiting workers with ids `0..size`; it may grow to three
    /// times its size.
    pub fn new(size: usize) -> (r: Pool)
        requires
            size <= usize::MAX / 3,
        ensures
            pool_wf(r@),
            r@.pool_size == size,
            r@.max_pool_size == 3 * size,
            r@.now_size == size,
            r@.top_id == size,
            r@.channels == Set::new(|i: usize| i < size),
            r@.waits == Seq::new(size as nat, |i: int| i as usize),
            r@.running == Set::<usize>::empty(),
    {
        broadcast use vstd::std_specs::hash::group_hash_axioms;
        let mut channels: HashSet<usize> = HashSet::new();
        let mut waits: VecDeque<usize> = VecDeque::new();
        let mut i: usize = 0;
        assert(channels@ =~= Set::new(|j: usize| j < i));
        while i < size
            invariant
                i <= size,
                channels@ == Set::new(|j: usize| j < i),
                channels@.finite(),
                channels@.len() == i,
                waits@ == Seq::new(i as nat, |j: int| j as usize),
            decreases size - i,
        {
            assert(!channels@.contains(i));
            channels.insert(i);
            waits.push_back(i);
            assert(channels@ =~= Set::new(|j: usize| j < i + 1));
            assert(waits@ =~= Seq::new((i + 1) as nat, |j: int| j as usize));
            i = i + 1;
        }
        let r = Pool {
            pool_size: size,
            max_pool_size: size * 3,
            now_size: size,
            top_id: size,
            channels,
            running: HashSet::new(),
            waits,
        };
        r
    }

    /// The ids of all existing workers, each once, in no particular order.
    pub fn worker_ids(&self) -> (r: Vec<usize>)
        ensures
            r@.to_set() == self@.channels,
            r@.no_duplicates(),
    {
        set_ids(&self.channels)
    }

    /// The ids of the waiting workers, in queue order (the last is taken first).
    pub fn waiting_ids(&self) -> (r: Vec<usize>)
        ensures
            r@ == self@.waits,
    {
        deque_ids(&self.waits)
    }

    /// The ids of the workers running a job, each once, in no particular order.
    pub fn running_ids(&self) -> (r: Vec<usize>)
        ensures
            r@.to_set() == self@.running,
            r@.no_duplicates(),
    {
        set_ids(&self.running)
    }

    /// How many workers exist.
    pub fn worker_count(&self) -> (r: usize)
        ensures
            r == self@.now_size,
    {
        self.now_size
    }

    /// The number of workers the pool keeps.
    pub fn size(&self) -> (r: usize)
        ensures
            r == self@.pool_size,
    {
        self.pool_size
    }

    /// The id that the next new worker gets.
    pub fn fresh_id(&self) -> (r: usize)
        ensures
            r == self@.top_id,
    {
        self.top_id
    }

    /// Whether `id` is an existing worker that is not waiting for a job.
    pub fn is_busy_worker(&self, id: usize) -> (r: bool)
        ensures
            r == (self@.channels.contains(id) && !self@.waits.contains(id)),
    {
        broadcast use vstd::std_specs::hash::group_hash_axioms;
        self.channels.contains(&id) && index_of(&deque_ids(&self.waits), id).is_none()
    }

    /// Picks the worker for a new job: the last waiting one, else a new worker
    /// with the next fresh id.
    fn poll_thread(&mut self) -> (r: Acquire)
        requires
            pool_wf(old(self)@),
            old(self)@.top_id < usize::MAX,
        ensures
            pool_wf(final(self)@),
            final(self)@.running == old(self)@.running,
            final(self)@.pool_size == old(self)@.pool_size,
            final(self)@.max_pool_size == old(self)@.max_pool_size,
            if old(self)@.waits.len() > 0 {
                &&& r == Acquire::Reuse(old(self)@.waits.last())
                &&& final(self)@.waits == old(self)@.waits.drop_last()
                &&& final(self)@.channels == old(self)@.channels
                &&& final(self)@.now_size == old(self)@.now_size
                &&& final(self)@.top_id == old(self)@.top_id
            } else {
                &&& r == Acquire::Spawn(old(self)@.top_id as usize)
                &&& final(self)@.waits == old(self)@.waits
                &&& final(self)@.channels == old(self)@.channels.insert(old(self)@.top_id as usize)
                &&& final(self)@.now_size == old(self)@.now_size + 1
                &&& final(self)@.top_id == old(self)@.top_id + 1
            },
    {
        broadcast use vstd::std_specs::hash::group_hash_axioms;
        match self.waits.pop_back() {
            Some(id) => Acquire::Reuse(id),
            None => {
                let id = self.top_id;
                proof {
                    assert(!self.channels@.contains(id));
                    lemma_bounded_ids(self.channels@, self.top_id as nat);
                }
                self.top_id = self.top_id + 1;
                self.now_size = self.now_size + 1;
                self.channels.insert(id);
                Acquire::Spawn(id)
            },
        }
    }

    /// The worker that the next job would reuse: the last waiting one, if any.
    pub fn next_waiting(&self) -> (r: Option<usize>)
        ensures
            r == (if self@.waits.len() > 0 {
                Some(self@.waits.last())
            } else {
                None::<usize>
            }),
    {
        let n = self.waits.len();
        if n > 0 {
            Some(self.waits[n - 1])
        } else {
            None
        }
    }

    /// Assigns a job to a worker, which then counts as running. A reused
    /// worker must still exist.
    pub fn add_job(&mut self) -> (r: Acquire)
        requires
            pool_wf(old(self)@),
            old(self)@.top_id < usize::MAX,
            old(self)@.waits.len() > 0 ==> old(self)@.channels.contains(old(self)@.waits.last()),
        ensures
            pool_wf(final(self)@),
            final(self)@.pool_size == old(self)@.pool_size,
            final(self)@.max_pool_size == old(self)@.max_pool_size,
            match r {
                Acquire::Reuse(id) => old(self)@.waits.len() > 0 && id == old(self)@.waits.last(),
                Acquire::Spawn(id) => old(self)@.waits.len() == 0 && id == old(self)@.top_id,
            },
            final(self)@.running == old(self)@.running.insert(acquired_id(r)),
            if old(self)@.waits.len() > 0 {
                &&& final(self)@.waits == old(self)@.waits.drop_last()
                &&& final(self)@.channels == old(self)@.channels
                &&& final(self)@.now_size == old(self)@.now_size
                &&& final(self)@.top_id == old(self)@.top_id
            } else {
                &&& final(self)@.waits == old(self)@.waits
                &&& final(self)@.channels == old(self)@.channels.insert(old(self)@.top_id as usize)
                &&& final(self)@.now_size == old(self)@.now_size + 1
                &&& final(self)@.top_id == old(self)@.top_id + 1
            },
    {
        broadcast use vstd::std_specs::hash::group_hash_axioms;
        let a = self.poll_thread();
        let id = match a {
            Acquire::Reuse(id) => id,
            Acquire::Spawn(id) => id,
        };
        self.running.insert(id);
        a
    }

    /// Whether the result of a job on worker `id` can be waited for: only while
    /// a job runs on it.
    pub fn wait_res(&self, id: usize) -> (r: Result<(), PoolError>)
        ensures
            r is Ok <==> self@.running.contains(id),
            r is Err ==> r == Err::<(), PoolError>(PoolError::NotFound),
    {
        broadcast use vstd::std_specs::hash::group_hash_axioms;
        if self.running.contains(&id) {
            Ok(())
        } else {
            Err(PoolError::NotFound)
        }
    }

    /// Worker `id` finished its job: it no longer runs; it is stopped if the
    /// pool holds more workers than its size (it must then exist), else it is
    /// queued to wait for the next job (also when it was queued already).
    pub fn return_thread(&mut self, id: usize) -> (r: Release)
        requires
            pool_wf(old(self)@),
            old(self)@.now_size > old(self)@.pool_size ==> old(self)@.channels.contains(id),
        ensures
            pool_wf(final(self)@),
            final(self)@.pool_size == old(self)@.pool_size,
            final(self)@.max_pool_size == old(self)@.max_pool_size,
            final(self)@.top_id == old(self)@.top_id,
            final(self)@.running == old(self)@.running.remove(id),
            if old(self)@.now_size > old(self)@.pool_size {
                &&& r == Release::Kill
                &&& final(self)@.now_size == old(self)@.now_size - 1
                &&& final(self)@.channels == old(self)@.channels.remove(id)
                &&& final(self)@.waits == old(self)@.waits
            } else {
                &&& r == Release::Park
                &&& final(self)@.now_size == old(self)@.now_size
                &&& final(self)@.channels == old(self)@.channels
                &&& final(self)@.waits == old(self)@.waits.push(id)
            },
    {
        broadcast use vstd::std_specs::hash::group_hash_axioms;
        self.running.remove(&id);
        if self.now_size > self.pool_size {
            self.kill_thread(id);
            Release::Kill
        } else {
            self.waits.push_back(id);
            Release::Park
        }
    }

    /// Stops worker `id`: it no longer exists.
    fn kill_thread(&mut self, id: usize)
        requires
            old(self)@.channels.contains(id),
            old(self)@.channels.finite(),
            old(self)@.now_size == old(self)@.channels.len(),
        ensures
            final(self)@.now_size == old(self)@.now_size - 1,
            final(self)@.channels == old(self)@.channels.remove(id),
            final(self)@.channels.finite(),
            final(self)@.now_size == final(self)@.channels.len(),
            final(self)@.running == old(self)@.running,
            final(self)@.waits == old(self)@.waits,
            final(self)@.top_id == old(self)@.top_id,
            final(self)@.pool_size == old(self)@.pool_size,
            final(self)@.max_pool_size == old(self)@.max_pool_size,
    {
        broadcast use vstd::std_specs::hash::group_hash_axioms;
        self.channels.remove(&id);
        self.now_size = self.now_size - 1;
    }

    /// Stops every worker, waiting ones first, in queue order, then running
    /// ones, in no particular order; returns the ids stopped, in that order.
    /// Each must exist once: the waiting ones are queued once, exist, and do
    /// not run. The queue and the set of running workers are left as they
    /// were: the pool is spent.
    pub fn shutdown(&mut self) -> (r: Vec<usize>)
        requires
            pool_wf(old(self)@),
            old(self)@.waits.no_duplicates(),
            forall|i: int| 0 <= i < old(self)@.waits.len() ==> old(self)@.channels.contains(#[trigger] old(self)@.waits[i]),
            forall|i: int| 0 <= i < old(self)@.waits.len() ==> !old(self)@.running.contains(#[trigger] old(self)@.waits[i]),
        ensures
            r@.subrange(0, old(self)@.waits.len() as int) == old(self)@.waits,
            r@.subrange(old(self)@.waits.len() as int, r@.len() as int).to_set() == old(self)@.running,
            r@.no_duplicates(),
            final(self)@.waits == old(self)@.waits,
            final(self)@.running == old(self)@.running,
            final(self)@.top_id == old(self)@.top_id,
            final(self)@.pool_size == old(self)@.pool_size,
            final(self)@.now_size == old(self)@.now_size - r@.len(),
            forall|x: usize| final(self)@.channels.contains(x) <==> (old(self)@.channels.contains(x) && !r@.contains(x)),
    {
        let ghost old_view = self@;
        let mut kill_list: Vec<usize> = deque_ids(&self.waits);
        let run = set_ids(&self.running);
        let nw = kill_list.len();
        let mut k: usize = 0;
        while k < run.len()
            invariant
                self@ == old_view,
                nw == old_view.waits.len(),
                k <= run@.len(),
                kill_list@ == old_view.waits + run@.subrange(0, k as int),
            decreases run@.len() - k,
        {
            kill_list.push(run[k]);
            assert(run@.subrange(0, k + 1) =~= run@.subrange(0, k as int).push(run@[k as int]));
            k = k + 1;
        }
        assert(run@.subrange(0, run@.len() as int) =~= run@);
        let ghost all = kill_list@;
        assert(all.subrange(0, nw as int) =~= old_view.waits);
        assert(all.subrange(nw as int, all.len() as int) =~= run@);
        assert forall|i: int| 0 <= i < all.len() implies old_view.channels.contains(#[trigger] all[i]) by {
            if i >= nw {
                assert(all[i] == run@[i - nw]);
                assert(run@.to_set().contains(run@[i - nw]));
            } else {
                assert(all[i] == old_view.waits[i]);
            }
        }
        assert(all.no_duplicates()) by {
            assert forall|a: int, b: int| 0 <= a < all.len() && 0 <= b < all.len() && a != b implies all[a] != all[b] by {
                if a < nw && b < nw {
                    assert(all[a] == old_view.waits[a] && all[b] == old_view.waits[b]);
                } else if a >= nw && b >= nw {
                    assert(all[a] == run@[a - nw] && all[b] == run@[b - nw]);
                } else if a < nw {
                    assert(all[a] == old_view.waits[a]);
                    assert(all[b] == run@[b - nw]);
                    assert(run@.to_set().contains(run@[b - nw]));
                } else {
                    assert(all[b] == old_view.waits[b]);
                    assert(all[a] == run@[a - nw]);
                    assert(run@.to_set().contains(run@[a - nw]));
                }
            }
        }
        let n = kill_list.len();
        let mut i: usize = 0;
        while i < n
            invariant
                n == all.len(),
                kill_list@ == all,
                all.no_duplicates(),
                forall|t: int| 0 <= t < all.len() ==> old_view.channels.contains(#[trigger] all[t]),
                i <= n,
                self@.channels.finite(),
                self@.now_size == self@.channels.len(),
                self@.now_size == old_view.now_size - i,
                self@.waits == old_view.waits,
                self@.running == old_view.running,
                self@.top_id == old_view.top_id,
                self@.pool_size == old_view.pool_size,
                forall|x: usize| self@.channels.contains(x) <==> (old_view.channels.contains(x) && !all.subrange(0, i as int).contains(x)),
            decreases n - i,
        {
            let id = kill_list[i];
            assert(!all.subrange(0, i as int).contains(id)) by {
                let pre = all.subrange(0, i as int);
                if pre.contains(id) {
                    let j = choose|j: int| 0 <= j < pre.len() && pre[j] == id;
                    assert(all[j] == all[i as int]);
                }
            }
            assert(old_view.channels.contains(all[i as int]));
            self.kill_thread(id);
            let ghost pre = all.subrange(0, i as int);
            let ghost post = all.subrange(0, i + 1);
            assert(post =~= pre.push(id));
            assert forall|x: usize| self@.channels.contains(x) <==> (old_view.channels.contains(x) && !post.contains(x)) by {
                if x == id {
                    assert(post[i as int] == x);
                } else {
                    if post.contains(x) {
                        let j = choose|j: int| 0 <= j < post.len() && post[j] == x;
                        assert(pre[j] == x);
                    }
                    if pre.contains(x) {
                        let j = choose|j: int| 0 <= j < pre.len() && pre[j] == x;
                        assert(post[j] == x);
                    }
                }
            }
            i = i + 1;
        }
        assert(all.subrange(0, n as int) =~= all);
        kill_list
    }
}

proof fn lemma_bounded_ids(s: Set<usize>, top: nat)
    requires
        s.finite(),
        forall|x: usize| #[trigger] s.contains(x) ==> x < top,
    ensures
        s.len() <= top,
{
    assert(s.subset_of(Set::new(|x: usize| (x as int) < top)));
    lemma_small_set_card(top);
    vstd::set_lib::lemma_len_subset(s, Set::new(|x: usize| (x as int) < top));
}

proof fn lemma_small_set_card(top: nat)
    ensures
        Set::new(|x: usize| (x as int) < top).finite(),
        Set::new(|x: usize| (x as int) < top).len() <= top,
    decreases top,
{
    if top == 0 {
        assert(Set::new(|x: usize| (x as int) < top) =~= Set::<usize>::empty());
    } else {
        lemma_small_set_card((top - 1) as nat);
        let smaller = Set::new(|x: usize| (x as int) < top - 1);
        let s = Set::new(|x: usize| (x as int) < top);
        if top - 1 <= usize::MAX {
            assert(s =~= smaller.insert((top - 1) as usize));
        } else {
            assert(s =~= smaller);
        }
    }
}

} // verus!

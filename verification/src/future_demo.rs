//! A future that is ready after a number of polls, the ids given to such
//! futures, and the random delay of a simulated download.

use vstd::prelude::*;
use rand::Rng;

verus! {

/// How often a future answers "pending" before it runs its function.
pub const PENDING_POLLS: i32 = 5;

/// What a poll of a future yields.
pub enum PollStep<T> {
    /// Not ready yet; the caller wakes the task to be polled again.
    Pending,
    /// Ready: the function to run for the future's output.
    Ready(T),
}

/// A future that runs `func` on its sixth poll.
pub struct SimpleFuture<T> {
    func: Option<T>,
    times: i32,
    id: i32,
}

/// What a future holds: the function still to run, how often it has been
/// polled, and its id.
pub struct FutureState<T> {
    pub func: Option<T>,
    pub times: int,
    pub id: int,
}

/// A new future with id `id` that will run `f`.
pub open spec fn fresh_future<T>(f: T, id: int) -> FutureState<T> {
    FutureState { func: Some(f), times: 0, id }
}

/// One poll: the count goes up by one; up to the fifth poll it is pending,
/// afterwards it hands out the function, which is then gone.
pub open spec fn poll_step<T>(st: FutureState<T>) -> (FutureState<T>, PollStep<T>) {
    let t = st.times + 1;
    if t <= PENDING_POLLS {
        (FutureState { times: t, ..st }, PollStep::Pending)
    } else {
        (FutureState { func: None, times: t, ..st }, PollStep::Ready(st.func->0))
    }
}

/// The state after `n` polls from `st`.
pub open spec fn polls<T>(st: FutureState<T>, n: nat) -> FutureState<T>
    decreases n,
{
    if n == 0 {
        st
    } else {
        poll_step(polls(st, (n - 1) as nat)).0
    }
}

/// Whether a future in state `st` may be polled: its count can go up, and
/// from the sixth poll on its function is still there.
pub open spec fn may_poll<T>(st: FutureState<T>) -> bool {
    &&& st.times < i32::MAX
    &&& st.times >= PENDING_POLLS ==> st.func is Some
}

/// The whole poll history of a new future: its first five polls are pending,
/// its sixth hands out the function, and after its `n`-th poll it has been
/// polled `n` times; a seventh poll is not allowed, the function being gone.
pub proof fn law_poll_history<T>(f: T, id: int, n: nat)
    requires
        1 <= n <= PENDING_POLLS + 1,
    ensures
        may_poll(polls(fresh_future(f, id), (n - 1) as nat)),
        poll_step(polls(fresh_future(f, id), (n - 1) as nat)).1 == (if n <= PENDING_POLLS {
            PollStep::<T>::Pending
        } else {
            PollStep::Ready(f)
        }),
        polls(fresh_future(f, id), n).times == n,
        polls(fresh_future(f, id), n).id == id,
        polls(fresh_future(f, id), n).func == (if n <= PENDING_POLLS {
            Some(f)
        } else {
            None::<T>
        }),
        n == PENDING_POLLS + 1 ==> !may_poll(polls(fresh_future(f, id), n)),
    decreases n,
{
    if n > 1 {
        law_poll_history(f, id, (n - 1) as nat);
    }
}

impl<T> SimpleFuture<T> {
    /// All that the future holds.
    pub open spec fn state(&self) -> FutureState<T> {
        FutureState { func: self.func_spec(), times: self.times_spec(), id: self.id_spec() }
    }

    /// The function still to run, if any.
    pub closed spec fn func_spec(&self) -> Option<T> {
        self.func
    }

    /// How often it has been polled.
    pub closed spec fn times_spec(&self) -> int {
        self.times as int
    }

    /// Its id.
    pub closed spec fn id_spec(&self) -> int {
        self.id as int
    }

    /// A future with id `id` that will run `f`.
    pub fn new(f: T, id: i32) -> (r: SimpleFuture<T>)
        ensures
            r.func_spec() == Some(f),
            r.times_spec() == 0,
            r.id_spec() == id,
            r.state() == fresh_future(f, id as int),
    {
        SimpleFuture { func: Some(f), times: 0, id }
    }

    /// Its id.
    pub fn id(&self) -> (r: i32)
        ensures
            r == self.id_spec(),
    {
        self.id
    }

    /// Whether its function is still to run.
    pub fn has_func(&self) -> (r: bool)
        ensures
            r == self.func_spec() is Some,
    {
        self.func.is_some()
    }

    /// How often it has been polled.
    pub fn times(&self) -> (r: i32)
        ensures
            r == self.times_spec(),
    {
        self.times
    }

    /// Polls the future: counts the poll; up to the fifth poll it is pending,
    /// afterwards it hands out its function (which must still be there).
    pub fn poll(&mut self) -> (r: PollStep<T>)
        requires
            old(self).times_spec() < i32::MAX,
            old(self).times_spec() >= PENDING_POLLS ==> old(self).func_spec() is Some,
        ensures
            final(self).times_spec() == old(self).times_spec() + 1,
            final(self).id_spec() == old(self).id_spec(),
            (final(self).state(), r) == poll_step(old(self).state()),
            if final(self).times_spec() <= PENDING_POLLS {
                &&& r is Pending
                &&& final(self).func_spec() == old(self).func_spec()
            } else {
                &&& r == PollStep::Ready(old(self).func_spec()->0)
                &&& final(self).func_spec() is None
            },
    {
        self.times = self.times + 1;
        if self.times <= PENDING_POLLS {
            PollStep::Pending
        } else {
            PollStep::Ready(self.func.take().unwrap())
        }
    }
}

/// The next id: the counter counts up and its new value is the id.
pub fn next_id(now_id: &mut i32) -> (r: i32)
    requires
        *old(now_id) < i32::MAX,
    ensures
        *final(now_id) == *old(now_id) + 1,
        r == *final(now_id),
{
    *now_id = *now_id + 1;
    *now_id
}

/// A number drawn at random from `low..high` (`rand::Rng::gen_range` on the
/// thread's generator). Trusted: the number lies in the range; which one it is
/// depends on chance.
#[verifier::external_body]
fn random_in(low: u64, high: u64) -> (r: u64)
    requires
        low < high,
    ensures
        low <= r < high,
{
    rand::thread_rng().gen_range(low..high)
}

/// Least and bound of a simulated download's duration, in milliseconds.
pub const MIN_DELAY_MS: u64 = 100;
pub const MAX_DELAY_MS: u64 = 3000;

/// How long a simulated download takes, in milliseconds: at random, at least
/// 100 and below 3000.
pub fn download_delay_ms() -> (r: u64)
    ensures
        MIN_DELAY_MS <= r < MAX_DELAY_MS,
{
    random_in(MIN_DELAY_MS, MAX_DELAY_MS)
}

} // verus!

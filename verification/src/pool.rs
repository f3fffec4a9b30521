//! The bookkeeping of a connection pool.
//!
//! The pool decides who gets which connection; it neither opens nor closes
//! one, and it does not wait. The caller does that, and tells the pool what
//! time it is, in milliseconds of a clock of its choice.

use crate::error::Error;
use vstd::prelude::*;

verus! {

/// The limits of a pool. Times are in milliseconds.
#[derive(Clone, Copy, Debug, PartialEq, Eq, Structural)]
pub struct PoolConfig {
    /// How many idle connections the pool tries to keep ready.
    pub min_idle: usize,
    /// How many connections may be open at once, leased ones included.
    pub max_open: usize,
    /// How long a caller waits for a connection before it gives up.
    pub acquire_timeout: u64,
    /// How long a connection may go unused before it is closed.
    pub idle_lifetime: u64,
    /// How long a connection may live.
    pub max_lifetime: u64,
}

/// What the pool knows of one connection.
#[derive(Clone, Copy, Debug, PartialEq, Eq, Structural)]
pub struct PooledConnection {
    /// The number under which the caller keeps the connection itself.
    pub id: u64,
    /// When the connection was opened.
    pub created_at: u64,
    /// When the connection was last handed out or taken back.
    pub last_used: u64,
    /// The generation of the pool in which the connection was opened.
    pub generation: u64,
}

/// What a caller that asks for a connection has to do.
#[derive(Clone, Copy, Debug, PartialEq, Eq, Structural)]
pub enum Decision {
    /// Check that this idle connection is alive, and use it.
    Reuse(PooledConnection),
    /// Open a new connection: its place is reserved.
    Open,
    /// Wait until a connection is released, or until the timeout.
    Wait,
}

/// How much time has passed since `since`; none if the clock went back.
pub open spec fn elapsed(now: u64, since: u64) -> nat {
    if now >= since {
        (now - since) as nat
    } else {
        0
    }
}

/// Whether a connection may be used at time `now`: it is of the current
/// generation and has neither idled nor lived too long.
pub open spec fn usable(conn: PooledConnection, generation: u64, config: PoolConfig, now: u64) -> bool {
    &&& conn.generation == generation
    &&& elapsed(now, conn.last_used) <= config.idle_lifetime
    &&& elapsed(now, conn.created_at) <= config.max_lifetime
}

/// How many connections at the front of `idle` cannot be used any more at
/// time `now`.
pub open spec fn stale_prefix(
    idle: Seq<PooledConnection>,
    generation: u64,
    config: PoolConfig,
    now: u64,
) -> nat
    decreases idle.len(),
{
    if idle.len() == 0 || usable(idle[0], generation, config, now) {
        0
    } else {
        1 + stale_prefix(idle.drop_first(), generation, config, now)
    }
}

/// The stale connections at the front are indeed unusable, and the one
/// behind them, if there is one, is usable.
pub proof fn lemma_stale_prefix(
    idle: Seq<PooledConnection>,
    generation: u64,
    config: PoolConfig,
    now: u64,
)
    ensures
        stale_prefix(idle, generation, config, now) <= idle.len(),
        forall|i: int|
            0 <= i < stale_prefix(idle, generation, config, now) ==> !usable(
                #[trigger] idle[i],
                generation,
                config,
                now,
            ),
        stale_prefix(idle, generation, config, now) < idle.len() ==> usable(
            idle[stale_prefix(idle, generation, config, now) as int],
            generation,
            config,
            now,
        ),
    decreases idle.len(),
{
    if !(idle.len() == 0 || usable(idle[0], generation, config, now)) {
        let rest = idle.drop_first();
        lemma_stale_prefix(rest, generation, config, now);
        let stale = stale_prefix(idle, generation, config, now);
        assert forall|i: int| 0 <= i < stale implies !usable(
            #[trigger] idle[i],
            generation,
            config,
            now,
        ) by {
            if i > 0 {
                assert(idle[i] == rest[i - 1]);
            }
        }
        if stale < idle.len() {
            assert(idle[stale as int] == rest[stale - 1]);
        }
    }
}

/// The pool as a mathematical value.
pub struct PoolState {
    /// The idle connections, the one that was released first at the front.
    pub idle: Seq<PooledConnection>,
    /// How many connections are open or being opened, leased ones included.
    pub open: nat,
    pub generation: u64,
    pub next_id: u64,
    pub config: PoolConfig,
}

impl PoolState {
    /// A pool without connections.
    pub open spec fn empty(config: PoolConfig) -> PoolState {
        PoolState { idle: Seq::empty(), open: 0, generation: 0, next_id: 0, config }
    }

    /// The idle connections are among the open ones, and the open ones are
    /// within the limit.
    pub open spec fn wf(self) -> bool {
        self.idle.len() <= self.open <= self.config.max_open
    }

    /// How many connections are leased or being opened.
    pub open spec fn leased(self) -> nat {
        (self.open - self.idle.len()) as nat
    }

    /// Whether the connection may be used at time `now`.
    pub open spec fn usable(self, conn: PooledConnection, now: u64) -> bool {
        usable(conn, self.generation, self.config, now)
    }

    /// How many connections at the front of the idle ones cannot be used
    /// any more at time `now`.
    pub open spec fn stale_prefix(self, now: u64) -> nat {
        stale_prefix(self.idle, self.generation, self.config, now)
    }

    /// The decision for a caller that asks for a connection at time `now`:
    /// the idle connection that has waited longest among the usable ones; if
    /// there is none, a new connection as long as the limit allows; if it
    /// does not, waiting.
    pub open spec fn decision(self, now: u64) -> Decision {
        let stale = self.stale_prefix(now);
        if stale < self.idle.len() {
            Decision::Reuse(PooledConnection { last_used: now, ..self.idle[stale as int] })
        } else if self.open - stale < self.config.max_open {
            Decision::Open
        } else {
            Decision::Wait
        }
    }

    /// The connections that a caller who asks at time `now` has to close:
    /// the idle ones that it found unusable.
    pub open spec fn discarded(self, now: u64) -> Seq<PooledConnection> {
        self.idle.subrange(0, self.stale_prefix(now) as int)
    }

    /// The pool after a caller asked for a connection at time `now`.
    pub open spec fn after_acquire(self, now: u64) -> PoolState {
        let stale = self.stale_prefix(now);
        if stale < self.idle.len() {
            PoolState {
                idle: self.idle.subrange(stale as int + 1, self.idle.len() as int),
                open: (self.open - stale) as nat,
                ..self
            }
        } else if self.open - stale < self.config.max_open {
            PoolState { idle: Seq::empty(), open: (self.open - stale + 1) as nat, ..self }
        } else {
            PoolState { idle: Seq::empty(), open: (self.open - stale) as nat, ..self }
        }
    }

    /// Whether a released connection goes back to the idle ones: it must be
    /// ready for the next request, of the current generation, and not older
    /// than a connection may get.
    pub open spec fn keeps(self, conn: PooledConnection, ready: bool, now: u64) -> bool {
        &&& ready
        &&& conn.generation == self.generation
        &&& elapsed(now, conn.created_at) <= self.config.max_lifetime
    }

    /// The pool after a connection was released at time `now`.
    pub open spec fn after_release(self, conn: PooledConnection, ready: bool, now: u64) -> PoolState {
        if self.keeps(conn, ready, now) {
            PoolState { idle: self.idle.push(PooledConnection { last_used: now, ..conn }), ..self }
        } else {
            PoolState { open: (self.open - 1) as nat, ..self }
        }
    }

    /// The pool after `count` callers asked for a connection at time `now`.
    pub open spec fn acquire_times(self, count: nat, now: u64) -> PoolState
        decreases count,
    {
        if count == 0 {
            self
        } else {
            self.acquire_times((count - 1) as nat, now).after_acquire(now)
        }
    }

    /// Asking for a connection keeps the open connections within the limit.
    /// A connection that is handed out is usable, and every connection that
    /// is discarded is not. A caller is told to open a connection only if no
    /// idle one is usable, and to wait only if, besides, the limit of open
    /// connections is reached.
    pub proof fn lemma_acquire(self, now: u64)
        requires
            self.wf(),
        ensures
            self.after_acquire(now).wf(),
            forall|i: int|
                0 <= i < self.discarded(now).len() ==> !self.usable(
                    #[trigger] self.discarded(now)[i],
                    now,
                ),
            match self.decision(now) {
                Decision::Reuse(conn) => self.usable(conn, now) && self.after_acquire(now).leased()
                    == self.leased() + 1,
                Decision::Open => self.after_acquire(now).leased() == self.leased() + 1
                    && self.after_acquire(now).idle.len() == 0,
                Decision::Wait => self.after_acquire(now).leased() == self.leased()
                    && self.after_acquire(now).idle.len() == 0 && self.after_acquire(now).open
                    == self.config.max_open,
            },
            !(self.decision(now) is Reuse) ==> forall|i: int|
                0 <= i < self.idle.len() ==> !self.usable(#[trigger] self.idle[i], now),
    {
        self.lemma_stale_prefix(now);
    }

    /// Releasing a connection keeps the open connections within the limit
    /// and ends one lease.
    pub proof fn lemma_release(self, conn: PooledConnection, ready: bool, now: u64)
        requires
            self.wf(),
            self.leased() > 0,
        ensures
            self.after_release(conn, ready, now).wf(),
            self.after_release(conn, ready, now).leased() == self.leased() - 1,
    {
    }

    /// A caller who finds no idle connection in a pool at its limit has to
    /// wait; once a connection is released in good state, the caller gets
    /// that connection.
    pub proof fn lemma_release_unblocks(self, conn: PooledConnection, now: u64)
        requires
            self.wf(),
            self.idle.len() == 0,
            self.open == self.config.max_open,
            self.leased() > 0,
            self.keeps(conn, true, now),
        ensures
            self.decision(now) == Decision::Wait,
            self.after_release(conn, true, now).decision(now) == Decision::Reuse(
                PooledConnection { last_used: now, ..conn },
            ),
    {
        let after = self.after_release(conn, true, now);
        assert(after.idle[0] == PooledConnection { last_used: now, ..conn });
        assert(after.usable(after.idle[0], now));
    }

    /// A pool without connections lets its first callers open one each until
    /// the limit is reached, and has the next caller wait.
    pub proof fn lemma_fresh_pool(config: PoolConfig, count: nat, now: u64)
        requires
            count <= config.max_open,
        ensures
            PoolState::empty(config).acquire_times(count, now) == (PoolState {
                open: count,
                ..PoolState::empty(config)
            }),
            PoolState::empty(config).acquire_times(count, now).decision(now) == (if count
                < config.max_open {
                Decision::Open
            } else {
                Decision::Wait
            }),
        decreases count,
    {
        if count > 0 {
            Self::lemma_fresh_pool(config, (count - 1) as nat, now);
        }
    }

    /// The stale connections at the front are indeed unusable, and the one
    /// behind them, if there is one, is usable.
    pub proof fn lemma_stale_prefix(self, now: u64)
        ensures
            self.stale_prefix(now) <= self.idle.len(),
            forall|i: int|
                0 <= i < self.stale_prefix(now) ==> !self.usable(#[trigger] self.idle[i], now),
            self.stale_prefix(now) < self.idle.len() ==> self.usable(
                self.idle[self.stale_prefix(now) as int],
                now,
            ),
    {
        lemma_stale_prefix(self.idle, self.generation, self.config, now);
    }
}

/// What the pool tells a caller that asks for a connection.
#[derive(Clone, Debug, PartialEq, Eq)]
pub struct Acquire {
    pub decision: Decision,
    /// Idle connections that cannot be used any more: the caller closes them.
    pub discard: Vec<PooledConnection>,
}

/// The bookkeeping of a connection pool.
#[derive(Debug)]
pub struct Pool {
    idle: Vec<PooledConnection>,
    open: usize,
    generation: u64,
    next_id: u64,
    config: PoolConfig,
}

impl View for Pool {
    type V = PoolState;

    closed spec fn view(&self) -> PoolState {
        PoolState {
            idle: self.idle@,
            open: self.open as nat,
            generation: self.generation,
            next_id: self.next_id,
            config: self.config,
        }
    }
}

/// How much time has passed since `since`; none if the clock went back.
fn time_since(now: u64, since: u64) -> (t: u64)
    ensures
        t == elapsed(now, since),
{
    if now >= since {
        now - since
    } else {
        0
    }
}

impl Pool {
    /// See [`PoolState::wf`].
    pub open spec fn wf(&self) -> bool {
        self@.wf()
    }

    /// A pool without connections.
    pub fn new(config: PoolConfig) -> (pool: Pool)
        ensures
            pool.wf(),
            pool@ == PoolState::empty(config),
    {
        Pool { idle: Vec::new(), open: 0, generation: 0, next_id: 0, config }
    }

    /// How many connections are idle.
    pub fn idle_count(&self) -> (n: usize)
        ensures
            n == self@.idle.len(),
    {
        self.idle.len()
    }

    /// How many connections are open or being opened, leased ones included.
    pub fn open_count(&self) -> (n: usize)
        ensures
            n == self@.open,
    {
        self.open
    }

    fn is_usable(&self, conn: &PooledConnection, now: u64) -> (b: bool)
        ensures
            b == self@.usable(*conn, now),
    {
        conn.generation == self.generation && time_since(now, conn.last_used)
            <= self.config.idle_lifetime && time_since(now, conn.created_at)
            <= self.config.max_lifetime
    }

    /// Decides what a caller that asks for a connection at time `now` has to
    /// do, and reserves what it was given. An idle connection is preferred to
    /// a new one. Idle connections that have idled or lived too long, or that
    /// are of an earlier generation, are never handed out: they leave the
    /// pool and the caller closes them.
    pub fn acquire(&mut self, now: u64) -> (acquired: Acquire)
        requires
            old(self).wf(),
        ensures
            final(self).wf(),
            final(self)@ == old(self)@.after_acquire(now),
            acquired.decision == old(self)@.decision(now),
            acquired.discard@ == old(self)@.discarded(now),
    {
        let mut discard: Vec<PooledConnection> = Vec::new();
        while self.idle.len() > 0
            invariant
                self.idle.len() <= self.open <= self.config.max_open,
                self.generation == old(self).generation,
                self.next_id == old(self).next_id,
                self.config == old(self).config,
                discard.len() <= old(self).idle.len(),
                self.open == old(self).open - discard.len(),
                self.idle@ == old(self).idle@.subrange(
                    discard.len() as int,
                    old(self).idle.len() as int,
                ),
                discard@ == old(self).idle@.subrange(0, discard.len() as int),
                old(self)@.stale_prefix(now) == discard.len() + self@.stale_prefix(now),
            decreases self.idle.len(),
        {
            let ghost before = self.idle@;
            let conn = self.idle.remove(0);
            assert(self.idle@ =~= before.drop_first());
            if self.is_usable(&conn, now) {
                proof {
                    assert(self.idle@ =~= old(self).idle@.subrange(
                        discard.len() + 1,
                        old(self).idle.len() as int,
                    ));
                    assert(stale_prefix(before, self.generation, self.config, now) == 0);
                }
                return Acquire {
                    decision: Decision::Reuse(PooledConnection { last_used: now, ..conn }),
                    discard,
                };
            }
            discard.push(conn);
            self.open = self.open - 1;
            proof {
                assert(discard@ =~= old(self).idle@.subrange(0, discard.len() as int));
                assert(self.idle@ =~= old(self).idle@.subrange(
                    discard.len() as int,
                    old(self).idle.len() as int,
                ));
            }
        }
        proof {
            assert(self.idle@ =~= Seq::empty());
        }
        if self.open < self.config.max_open {
            self.open = self.open + 1;
            Acquire { decision: Decision::Open, discard }
        } else {
            Acquire { decision: Decision::Wait, discard }
        }
    }

    /// Makes the record of a connection that the caller has opened at time
    /// `now`, on a place that [`Pool::acquire`] reserved. The connection is
    /// leased to the caller.
    pub fn opened(&mut self, now: u64) -> (conn: PooledConnection)
        requires
            old(self).wf(),
        ensures
            final(self).wf(),
            conn == (PooledConnection {
                id: old(self)@.next_id,
                created_at: now,
                last_used: now,
                generation: old(self)@.generation,
            }),
            final(self)@ == (PoolState {
                next_id: if old(self)@.next_id < u64::MAX {
                    (old(self)@.next_id + 1) as u64
                } else {
                    0
                },
                ..old(self)@
            }),
    {
        let id = self.next_id;
        self.next_id = if id < u64::MAX {
            id + 1
        } else {
            0
        };
        PooledConnection { id, created_at: now, last_used: now, generation: self.generation }
    }

    /// Gives up a place: a connection could not be opened, was found dead
    /// when it was checked, or was lost. Says whether there was a lease or a
    /// reserved place to give up; if there was none, nothing changes.
    pub fn abandon(&mut self) -> (done: bool)
        requires
            old(self).wf(),
        ensures
            final(self).wf(),
            done == (old(self)@.leased() > 0),
            done ==> final(self)@ == (PoolState {
                open: (old(self)@.open - 1) as nat,
                ..old(self)@
            }),
            !done ==> final(self)@ == old(self)@,
    {
        if self.open > self.idle.len() {
            self.open = self.open - 1;
            true
        } else {
            false
        }
    }

    /// Takes a leased connection back at time `now`. `ready` says whether
    /// the connection is ready for the next request. A connection that is
    /// ready, of the current generation and not too old becomes idle again,
    /// and the result is `true`. Any other is dropped from the count of open
    /// connections: the caller closes it, and a later caller opens another.
    pub fn release(&mut self, conn: PooledConnection, ready: bool, now: u64) -> (kept: bool)
        requires
            old(self).wf(),
            old(self)@.leased() > 0,
        ensures
            final(self).wf(),
            kept == old(self)@.keeps(conn, ready, now),
            final(self)@ == old(self)@.after_release(conn, ready, now),
    {
        if ready && conn.generation == self.generation && time_since(now, conn.created_at)
            <= self.config.max_lifetime {
            self.idle.push(PooledConnection { last_used: now, ..conn });
            true
        } else {
            self.open = self.open - 1;
            false
        }
    }

    /// The error of a caller whose wait ran out. It says whether the limit
    /// of open connections is what kept the caller waiting.
    pub fn timed_out(&self) -> (e: Error)
        ensures
            e == (Error::PoolTimeout { exhausted: self@.open >= self@.config.max_open }),
    {
        Error::PoolTimeout { exhausted: self.open >= self.config.max_open }
    }

    /// Whether a caller that has waited since `since` gives up at `now`.
    pub fn wait_is_over(&self, since: u64, now: u64) -> (over: bool)
        ensures
            over == (elapsed(now, since) >= self@.config.acquire_timeout),
    {
        time_since(now, since) >= self.config.acquire_timeout
    }

    /// Starts a new generation: every connection that is open now is stale.
    /// It is closed when it is next asked for or released.
    pub fn invalidate(&mut self)
        requires
            old(self).wf(),
        ensures
            final(self).wf(),
            final(self)@ == (PoolState {
                generation: if old(self)@.generation < u64::MAX {
                    (old(self)@.generation + 1) as u64
                } else {
                    0
                },
                ..old(self)@
            }),
    {
        self.generation = if self.generation < u64::MAX {
            self.generation + 1
        } else {
            0
        };
    }

    /// How many connections the caller should open to have the wanted number
    /// of idle ones, as far as the limit of open connections allows.
    pub fn wanted(&self) -> (n: usize)
        requires
            self.wf(),
        ensures
            n == vstd::math::min(
                vstd::math::max(self@.config.min_idle - self@.idle.len(), 0),
                self@.config.max_open - self@.open,
            ),
    {
        let missing = if self.config.min_idle > self.idle.len() {
            self.config.min_idle - self.idle.len()
        } else {
            0
        };
        let room = self.config.max_open - self.open;
        if missing < room {
            missing
        } else {
            room
        }
    }
}

} // verus!

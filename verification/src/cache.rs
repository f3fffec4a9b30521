//! The statements that one connection has prepared, by SQL text.
//!
//! The cache belongs to one connection: the names it hands out mean nothing
//! on another. It holds a bounded number of statements and gives up the one
//! that was used longest ago when a new one needs the room. It decides; the
//! connection sends the messages.

use crate::query_string::str_eq;
use crate::statement::StatementRef;
use vstd::prelude::*;
use vstd::slice::slice_to_vec;

verus! {

/// A prepared statement and what the backend said of it.
#[derive(Clone, Debug, PartialEq, Eq)]
pub struct CachedStatement {
    pub statement: StatementRef,
    /// The types of the parameters, in order.
    pub params: Vec<u32>,
    /// The types of the result columns, in order.
    pub columns: Vec<u32>,
}

/// One statement of the cache, as a mathematical value.
pub struct Entry {
    pub sql: Seq<char>,
    pub id: u32,
    pub params: Seq<u32>,
    pub columns: Seq<u32>,
}

/// The cache as a mathematical value.
pub struct Cache {
    /// The statements, the one used longest ago first.
    pub entries: Seq<Entry>,
    /// The counter from which the next name is made.
    pub next_id: nat,
    /// How many statements the cache may hold.
    pub capacity: nat,
}

/// A prepared statement as a mathematical value.
pub struct Statement {
    pub statement: StatementRef,
    pub params: Seq<u32>,
    pub columns: Seq<u32>,
}

/// What the connection has to do for a statement, as a mathematical value.
pub enum Step {
    /// The statement is prepared: bind it under its name.
    Reuse(Statement),
    /// The statement is new: close the statement that gave up its place, if
    /// any, then parse the new one under this name. A statement that cannot
    /// be kept is parsed as the unnamed statement.
    Parse { statement: StatementRef, close: Option<StatementRef> },
}

/// What the connection has to do for a statement.
#[derive(Clone, Debug, PartialEq, Eq)]
pub enum Prepared {
    /// The statement is prepared: bind it under its name.
    Reuse(CachedStatement),
    /// The statement is new: close the statement that gave up its place, if
    /// any, then parse the new one under this name. A statement that cannot
    /// be kept is parsed as the unnamed statement.
    Parse { statement: StatementRef, close: Option<StatementRef> },
}

impl View for CachedStatement {
    type V = Statement;

    open spec fn view(&self) -> Statement {
        Statement { statement: self.statement, params: self.params@, columns: self.columns@ }
    }
}

impl View for Prepared {
    type V = Step;

    open spec fn view(&self) -> Step {
        match self {
            Prepared::Reuse(cached) => Step::Reuse(cached@),
            Prepared::Parse { statement, close } => Step::Parse {
                statement: *statement,
                close: *close,
            },
        }
    }
}

impl Entry {
    /// The statement as the connection uses it.
    pub open spec fn statement(self) -> Statement {
        Statement {
            statement: StatementRef::Named(self.id),
            params: self.params,
            columns: self.columns,
        }
    }
}

impl Cache {
    /// A cache that holds nothing yet.
    pub open spec fn empty(capacity: nat) -> Cache {
        Cache { entries: Seq::empty(), next_id: 0, capacity }
    }

    /// Whether a statement with this text is in the cache.
    pub open spec fn contains(self, sql: Seq<char>) -> bool {
        exists|i: int| 0 <= i < self.entries.len() && self.entries[i].sql == sql
    }

    /// Where the statement with this text stands.
    pub open spec fn position(self, sql: Seq<char>) -> int {
        choose|i: int| 0 <= i < self.entries.len() && self.entries[i].sql == sql
    }

    /// Whether a statement is registered under this counter value.
    pub open spec fn holds_id(self, id: u32) -> bool {
        exists|i: int| 0 <= i < self.entries.len() && self.entries[i].id == id
    }

    /// No text and no name occurs twice, every name was made from an
    /// earlier counter value, and the cache is not over its capacity.
    pub open spec fn wf(self) -> bool {
        &&& self.entries.len() <= self.capacity
        &&& forall|i: int, j: int|
            0 <= i < j < self.entries.len() ==> self.entries[i].sql != self.entries[j].sql
        &&& forall|i: int, j: int|
            0 <= i < j < self.entries.len() ==> self.entries[i].id != self.entries[j].id
        &&& forall|i: int| 0 <= i < self.entries.len() ==> (#[trigger] self.entries[i]).id < self.next_id
        &&& self.next_id <= u32::MAX + 1
    }

    /// Whether a new statement can be given a name and a place.
    pub open spec fn can_keep(self) -> bool {
        self.capacity > 0 && self.next_id <= u32::MAX
    }

    /// The cache after a statement was asked for.
    pub open spec fn after_prepare(self, sql: Seq<char>) -> Cache {
        if self.contains(sql) {
            let i = self.position(sql);
            Cache { entries: self.entries.remove(i).push(self.entries[i]), ..self }
        } else if !self.can_keep() {
            self
        } else {
            let entry = Entry {
                sql,
                id: self.next_id as u32,
                params: Seq::empty(),
                columns: Seq::empty(),
            };
            let kept = if self.entries.len() == self.capacity {
                self.entries.drop_first()
            } else {
                self.entries
            };
            Cache { entries: kept.push(entry), next_id: self.next_id + 1, ..self }
        }
    }

    /// What the connection has to do when a statement is asked for.
    pub open spec fn prepare_step(self, sql: Seq<char>) -> Step {
        if self.contains(sql) {
            Step::Reuse(self.entries[self.position(sql)].statement())
        } else if !self.can_keep() {
            Step::Parse { statement: StatementRef::Unnamed, close: None }
        } else {
            Step::Parse {
                statement: StatementRef::Named(self.next_id as u32),
                close: if self.entries.len() == self.capacity {
                    Some(StatementRef::Named(self.entries[0].id))
                } else {
                    None
                },
            }
        }
    }

    /// The cache after the backend described a statement: the statement
    /// keeps its place and its name.
    pub open spec fn after_describe(
        self,
        sql: Seq<char>,
        params: Seq<u32>,
        columns: Seq<u32>,
    ) -> Cache {
        if self.contains(sql) {
            let i = self.position(sql);
            Cache {
                entries: self.entries.update(i, Entry { params, columns, ..self.entries[i] }),
                ..self
            }
        } else {
            self
        }
    }

    /// The cache without the statement of this text.
    pub open spec fn after_forget(self, sql: Seq<char>) -> Cache {
        if self.contains(sql) {
            Cache { entries: self.entries.remove(self.position(sql)), ..self }
        } else {
            self
        }
    }

    /// The name of the statement that forgetting this text takes out.
    pub open spec fn forgotten(self, sql: Seq<char>) -> Option<StatementRef> {
        if self.contains(sql) {
            Some(StatementRef::Named(self.entries[self.position(sql)].id))
        } else {
            None
        }
    }

    /// Describing a statement keeps the cache well-formed.
    pub proof fn lemma_after_describe_wf(self, sql: Seq<char>, params: Seq<u32>, columns: Seq<u32>)
        requires
            self.wf(),
        ensures
            self.after_describe(sql, params, columns).wf(),
    {
        let after = self.after_describe(sql, params, columns);
        assert forall|a: int, b: int| 0 <= a < b < after.entries.len() implies after.entries[a].sql
            != after.entries[b].sql && after.entries[a].id != after.entries[b].id by {
            assert(after.entries[a].sql == self.entries[a].sql);
            assert(after.entries[b].sql == self.entries[b].sql);
            assert(self.entries[a].sql != self.entries[b].sql);
        }
        assert forall|k: int| 0 <= k < after.entries.len() implies (#[trigger] after.entries[k]).id
            < after.next_id by {
            assert(after.entries[k].id == self.entries[k].id);
        }
    }

    /// Forgetting a statement keeps the cache well-formed, and the statement
    /// is then not in it.
    pub proof fn lemma_after_forget_wf(self, sql: Seq<char>)
        requires
            self.wf(),
        ensures
            self.after_forget(sql).wf(),
            !self.after_forget(sql).contains(sql),
    {
        let after = self.after_forget(sql);
        if self.contains(sql) {
            let i = self.position(sql);
            let from = |k: int| if k < i { k } else { k + 1 };
            assert forall|k: int| 0 <= k < after.entries.len() implies #[trigger] after.entries[k]
                == self.entries[from(k)] by {}
            assert forall|a: int, b: int| 0 <= a < b < after.entries.len() implies after.entries[a].sql
                != after.entries[b].sql && after.entries[a].id != after.entries[b].id by {
                assert(after.entries[a] == self.entries[from(a)]);
                assert(after.entries[b] == self.entries[from(b)]);
                assert(self.entries[from(a)].sql != self.entries[from(b)].sql);
            }
            if after.contains(sql) {
                let k = after.position(sql);
                assert(after.entries[k] == self.entries[from(k)]);
                self.lemma_position(sql, from(k));
            }
        }
    }

    /// The cache after the statements `sqls` were asked for, one after the
    /// other.
    pub open spec fn after_all(self, sqls: Seq<Seq<char>>) -> Cache
        decreases sqls.len(),
    {
        if sqls.len() == 0 {
            self
        } else {
            self.after_all(sqls.drop_last()).after_prepare(sqls.last())
        }
    }

    /// The statements that had to be closed while `sqls` were asked for, in
    /// the order in which they gave up their places.
    pub open spec fn closed_by(self, sqls: Seq<Seq<char>>) -> Seq<StatementRef>
        decreases sqls.len(),
    {
        if sqls.len() == 0 {
            Seq::empty()
        } else {
            let earlier = self.closed_by(sqls.drop_last());
            match self.after_all(sqls.drop_last()).prepare_step(sqls.last()) {
                Step::Parse { close: Some(closed), .. } => earlier.push(closed),
                _ => earlier,
            }
        }
    }

    /// The cache that holds `sqls` and nothing else, each under the counter
    /// value of its place.
    pub open spec fn filled(capacity: nat, sqls: Seq<Seq<char>>) -> Cache {
        Cache {
            entries: Seq::new(
                sqls.len(),
                |i: int| Entry { sql: sqls[i], id: i as u32, params: Seq::empty(), columns: Seq::empty() },
            ),
            next_id: sqls.len(),
            capacity,
        }
    }

    /// A statement that is asked for twice in a row is parsed at most once:
    /// the second time it is reused, under the name that the first time gave
    /// or found. (A cache that keeps nothing has no name to reuse.)
    pub proof fn lemma_second_submission_reuses(self, sql: Seq<char>)
        requires
            self.wf(),
            self.contains(sql) || self.can_keep(),
        ensures
            self.after_prepare(sql).prepare_step(sql) is Reuse,
            self.after_prepare(sql).prepare_step(sql)->Reuse_0.statement == match self.prepare_step(
                sql,
            ) {
                Step::Reuse(found) => found.statement,
                Step::Parse { statement, .. } => statement,
            },
    {
        let after = self.after_prepare(sql);
        self.lemma_after_prepare_wf(sql);
        let last = after.entries.len() - 1;
        assert(after.entries[last].sql == sql);
        after.lemma_position(sql, last);
    }

    /// How many statements of the cache were used after the one of this
    /// text.
    pub open spec fn used_since(self, sql: Seq<char>) -> int {
        self.entries.len() - 1 - self.position(sql)
    }

    /// Asking for another statement leaves a statement in the cache, under
    /// its name, unless it is the one that was used longest ago in a full
    /// cache; and at most one more statement was then used after it.
    pub proof fn lemma_other_statement_keeps(self, sql: Seq<char>, other: Seq<char>)
        requires
            self.wf(),
            self.contains(sql),
            other != sql,
            self.used_since(sql) < self.capacity - 1,
        ensures
            self.after_prepare(other).wf(),
            self.after_prepare(other).contains(sql),
            self.after_prepare(other).entries[self.after_prepare(other).position(sql)].id
                == self.entries[self.position(sql)].id,
            self.after_prepare(other).used_since(sql) <= self.used_since(sql) + 1,
    {
        let after = self.after_prepare(other);
        self.lemma_after_prepare_wf(other);
        let at = self.position(sql);
        if self.contains(other) {
            let i = self.position(other);
            let moved = if i < at {
                at - 1
            } else {
                at
            };
            assert(after.entries[moved] == self.entries[at]);
            after.lemma_position(sql, moved);
        } else if self.can_keep() {
            let moved = if self.entries.len() == self.capacity {
                at - 1
            } else {
                at
            };
            assert(after.entries[moved] == self.entries[at]);
            after.lemma_position(sql, moved);
        }
    }

    /// A statement that was just asked for stays in the cache, under its
    /// name, while fewer other statements than the cache can hold are asked
    /// for.
    pub proof fn lemma_stays_while_recent(self, sql: Seq<char>, others: Seq<Seq<char>>)
        requires
            self.wf(),
            self.contains(sql),
            self.used_since(sql) == 0,
            others.len() < self.capacity,
            forall|i: int| 0 <= i < others.len() ==> others[i] != sql,
        ensures
            self.after_all(others).wf(),
            self.after_all(others).capacity == self.capacity,
            self.after_all(others).contains(sql),
            self.after_all(others).entries[self.after_all(others).position(sql)].id
                == self.entries[self.position(sql)].id,
            self.after_all(others).used_since(sql) <= others.len(),
        decreases others.len(),
    {
        if others.len() > 0 {
            let earlier = others.drop_last();
            self.lemma_stays_while_recent(sql, earlier);
            self.after_all(earlier).lemma_other_statement_keeps(sql, others.last());
        }
    }

    /// A statement that is asked for a second time is reused under the name
    /// that the first time gave or found, if fewer other statements than the
    /// cache can hold were asked for in between. (A cache that keeps nothing
    /// has no name to reuse.)
    pub proof fn lemma_resubmission_reuses(self, sql: Seq<char>, others: Seq<Seq<char>>)
        requires
            self.wf(),
            self.contains(sql) || self.can_keep(),
            others.len() < self.capacity,
            forall|i: int| 0 <= i < others.len() ==> others[i] != sql,
        ensures
            self.after_prepare(sql).after_all(others).prepare_step(sql) is Reuse,
            self.after_prepare(sql).after_all(others).statement_for(sql) == self.statement_for(sql),
    {
        let first = self.after_prepare(sql);
        self.lemma_after_prepare_wf(sql);
        let last = first.entries.len() - 1;
        assert(first.entries[last].sql == sql);
        first.lemma_position(sql, last);
        first.lemma_stays_while_recent(sql, others);
    }

    /// A full cache gives up the statement that was used longest ago, and
    /// no other, for a new one. The new statement gets a name that no
    /// statement of the cache has, the closed one included.
    pub proof fn lemma_full_cache_closes_least_recent(self, sql: Seq<char>)
        requires
            self.wf(),
            self.can_keep(),
            !self.contains(sql),
            self.entries.len() == self.capacity,
        ensures
            self.prepare_step(sql) == (Step::Parse {
                statement: StatementRef::Named(self.next_id as u32),
                close: Some(StatementRef::Named(self.entries[0].id)),
            }),
            self.entries[0].id != self.next_id,
            !self.holds_id(self.next_id as u32),
            self.after_prepare(sql).entries.drop_last() == self.entries.drop_first(),
            self.after_prepare(sql).entries.last().sql == sql,
            !self.after_prepare(sql).holds_id(self.entries[0].id),
    {
        let after = self.after_prepare(sql);
        self.lemma_after_prepare_wf(sql);
        assert(self.entries[0].id < self.next_id);
        assert(after.entries.drop_last() =~= self.entries.drop_first());
        assert forall|i: int| 0 <= i < after.entries.len() implies after.entries[i].id
            != self.entries[0].id by {
            if i < after.entries.len() - 1 {
                assert(after.entries[i] == self.entries[i + 1]);
                assert(self.entries[0].id != self.entries[i + 1].id);
            }
        }
        assert forall|i: int| 0 <= i < self.entries.len() implies self.entries[i].id
            != self.next_id by {
            assert(self.entries[i].id < self.next_id);
        }
    }

    /// A cache with room takes a new statement without closing any.
    pub proof fn lemma_cache_with_room_closes_nothing(self, sql: Seq<char>)
        requires
            self.wf(),
            self.can_keep(),
            !self.contains(sql),
            self.entries.len() < self.capacity,
        ensures
            self.prepare_step(sql) == (Step::Parse {
                statement: StatementRef::Named(self.next_id as u32),
                close: None,
            }),
            self.after_prepare(sql).entries.drop_last() == self.entries,
    {
        assert(self.after_prepare(sql).entries.drop_last() =~= self.entries);
    }

    /// As long as they fit, distinct statements fill an empty cache in the
    /// order in which they were asked for, and nothing is closed.
    pub proof fn lemma_filling(capacity: nat, sqls: Seq<Seq<char>>)
        requires
            sqls.no_duplicates(),
            sqls.len() <= capacity <= u32::MAX,
        ensures
            Cache::empty(capacity).after_all(sqls) == Cache::filled(capacity, sqls),
            Cache::empty(capacity).closed_by(sqls) == Seq::<StatementRef>::empty(),
            Cache::filled(capacity, sqls).wf(),
        decreases sqls.len(),
    {
        let start = Cache::empty(capacity);
        if sqls.len() == 0 {
            assert(Cache::filled(capacity, sqls).entries =~= start.entries);
        } else {
            let earlier = sqls.drop_last();
            assert(earlier.no_duplicates());
            Self::lemma_filling(capacity, earlier);
            let before = Cache::filled(capacity, earlier);
            assert(!before.contains(sqls.last())) by {
                if before.contains(sqls.last()) {
                    let i = before.position(sqls.last());
                    assert(sqls[i] == sqls[sqls.len() - 1]);
                }
            }
            assert(before.after_prepare(sqls.last()).entries =~= Cache::filled(
                capacity,
                sqls,
            ).entries);
            before.lemma_after_prepare_wf(sqls.last());
        }
    }

    /// One statement more than an empty cache can hold has exactly one
    /// statement closed: the first that was asked for, which by then is the
    /// one used longest ago. Its name is not given to the statement that
    /// takes its place.
    pub proof fn lemma_one_too_many_closes_one(capacity: nat, sqls: Seq<Seq<char>>)
        requires
            sqls.no_duplicates(),
            1 <= capacity <= u32::MAX,
            sqls.len() == capacity + 1,
        ensures
            Cache::empty(capacity).closed_by(sqls) == seq![StatementRef::Named(0)],
            Cache::empty(capacity).after_all(sqls.drop_last()).entries[0].sql == sqls[0],
            Cache::empty(capacity).after_all(sqls.drop_last()).entries[0].id == 0,
            Cache::empty(capacity).after_all(sqls.drop_last()).prepare_step(sqls.last()) == (
            Step::Parse {
                statement: StatementRef::Named(capacity as u32),
                close: Some(StatementRef::Named(0)),
            }),
            !Cache::empty(capacity).after_all(sqls).contains(sqls[0]),
    {
        let earlier = sqls.drop_last();
        assert(earlier.no_duplicates());
        Self::lemma_filling(capacity, earlier);
        let before = Cache::filled(capacity, earlier);
        assert(!before.contains(sqls.last())) by {
            if before.contains(sqls.last()) {
                let i = before.position(sqls.last());
                assert(sqls[i] == sqls[sqls.len() - 1]);
            }
        }
        before.lemma_full_cache_closes_least_recent(sqls.last());
        let after = before.after_prepare(sqls.last());
        assert(Cache::empty(capacity).closed_by(sqls) =~= seq![StatementRef::Named(0)]);
        assert(!after.contains(sqls[0])) by {
            if after.contains(sqls[0]) {
                let i = after.position(sqls[0]);
                if i < after.entries.len() - 1 {
                    assert(after.entries[i] == before.entries[i + 1]);
                    assert(sqls[i + 1] == sqls[0]);
                } else {
                    assert(sqls[sqls.len() - 1] == sqls[0]);
                }
            }
        }
    }

    /// The name under which a statement that is asked for now would run.
    pub open spec fn statement_for(self, sql: Seq<char>) -> StatementRef {
        match self.prepare_step(sql) {
            Step::Reuse(found) => found.statement,
            Step::Parse { statement, .. } => statement,
        }
    }

    /// In a well-formed cache a text stands at one place only.
    pub proof fn lemma_position(self, sql: Seq<char>, i: int)
        requires
            self.wf(),
            0 <= i < self.entries.len(),
            self.entries[i].sql == sql,
        ensures
            self.contains(sql),
            self.position(sql) == i,
    {
        let j = self.position(sql);
        if j < i {
            assert(self.entries[j].sql != self.entries[i].sql);
        } else if i < j {
            assert(self.entries[i].sql != self.entries[j].sql);
        }
    }

    /// Asking for a statement keeps the cache well-formed.
    pub proof fn lemma_after_prepare_wf(self, sql: Seq<char>)
        requires
            self.wf(),
        ensures
            self.after_prepare(sql).wf(),
    {
        let after = self.after_prepare(sql);
        if self.contains(sql) {
            let i = self.position(sql);
            let n = self.entries.len() as int;
            // Where each place of the new order comes from.
            let from = |k: int| if k < i { k } else if k < n - 1 { k + 1 } else { i };
            assert forall|k: int| 0 <= k < n implies #[trigger] after.entries[k]
                == self.entries[from(k)] by {}
            assert forall|a: int, b: int| 0 <= a < b < n implies after.entries[a].sql
                != after.entries[b].sql && after.entries[a].id != after.entries[b].id by {
                let (x, y) = (from(a), from(b));
                assert(after.entries[a] == self.entries[x]);
                assert(after.entries[b] == self.entries[y]);
                if x < y {
                    assert(self.entries[x].sql != self.entries[y].sql);
                } else {
                    assert(self.entries[y].sql != self.entries[x].sql);
                }
            }
        } else if self.can_keep() {
            let n = after.entries.len() as int;
            let shift: int = if self.entries.len() == self.capacity { 1 } else { 0 };
            assert forall|k: int| 0 <= k < n - 1 implies #[trigger] after.entries[k]
                == self.entries[k + shift] by {}
            assert forall|a: int, b: int| 0 <= a < b < n implies after.entries[a].sql
                != after.entries[b].sql && after.entries[a].id != after.entries[b].id by {
                assert(after.entries[a] == self.entries[a + shift]);
                if b < n - 1 {
                    assert(after.entries[b] == self.entries[b + shift]);
                    assert(self.entries[a + shift].sql != self.entries[b + shift].sql);
                } else {
                    assert(self.entries[a + shift].id < self.next_id);
                }
            }
            assert forall|k: int| 0 <= k < n implies (#[trigger] after.entries[k]).id
                < after.next_id by {
                if k < n - 1 {
                    assert(after.entries[k] == self.entries[k + shift]);
                }
            }
        }
    }
}

struct Slot {
    sql: String,
    id: u32,
    params: Vec<u32>,
    columns: Vec<u32>,
}

impl Slot {
    spec fn entry(self) -> Entry {
        Entry { sql: self.sql@, id: self.id, params: self.params@, columns: self.columns@ }
    }

    fn cached(&self) -> (cached: CachedStatement)
        ensures
            cached@ == self.entry().statement(),
    {
        CachedStatement {
            statement: StatementRef::Named(self.id),
            params: slice_to_vec(self.params.as_slice()),
            columns: slice_to_vec(self.columns.as_slice()),
        }
    }
}

/// The prepared statements of one connection.
pub struct StatementCache {
    /// The statements, the one used longest ago first.
    slots: Vec<Slot>,
    next_id: u64,
    capacity: usize,
}

impl View for StatementCache {
    type V = Cache;

    closed spec fn view(&self) -> Cache {
        Cache {
            entries: self.slots@.map_values(|slot: Slot| slot.entry()),
            next_id: self.next_id as nat,
            capacity: self.capacity as nat,
        }
    }
}

impl StatementCache {
    /// See [`Cache::wf`].
    pub open spec fn wf(&self) -> bool {
        self@.wf()
    }

    /// A cache for at most `capacity` statements, which holds none yet.
    pub fn new(capacity: usize) -> (cache: StatementCache)
        ensures
            cache.wf(),
            cache@ == Cache::empty(capacity as nat),
    {
        let cache = StatementCache { slots: Vec::new(), next_id: 0, capacity };
        assert(cache@.entries =~= Seq::empty());
        cache
    }

    /// How many statements the cache holds.
    pub fn len(&self) -> (n: usize)
        ensures
            n == self@.entries.len(),
    {
        self.slots.len()
    }

    /// How many statements the cache may hold.
    pub fn capacity(&self) -> (n: usize)
        ensures
            n == self@.capacity,
    {
        self.capacity
    }

    /// Where the statement with this text stands, if it is in the cache.
    fn find(&self, sql: &str) -> (found: Option<usize>)
        requires
            self.wf(),
        ensures
            found.is_some() == self@.contains(sql@),
            found.is_some() ==> found.unwrap() == self@.position(sql@) && found.unwrap()
                < self.slots.len(),
    {
        let mut i: usize = 0;
        while i < self.slots.len()
            invariant
                self.wf(),
                i <= self.slots.len(),
                forall|k: int| 0 <= k < i ==> (#[trigger] self@.entries[k]).sql != sql@,
            decreases self.slots.len() - i,
        {
            if str_eq(self.slots[i].sql.as_str(), sql) {
                proof {
                    self@.lemma_position(sql@, i as int);
                }
                return Some(i);
            }
            i += 1;
        }
        None
    }

    /// Whether a statement with this text is in the cache. Looking does not
    /// count as use.
    pub fn contains(&self, sql: &str) -> (found: bool)
        requires
            self.wf(),
        ensures
            found == self@.contains(sql@),
    {
        self.find(sql).is_some()
    }

    /// The name under which [`StatementCache::prepare_or_reuse`] would have
    /// `sql` run. Looking does not count as use.
    pub fn peek(&self, sql: &str) -> (statement: StatementRef)
        requires
            self.wf(),
        ensures
            statement == self@.statement_for(sql@),
    {
        match self.find(sql) {
            Some(i) => StatementRef::Named(self.slots[i].id),
            None => {
                if self.capacity == 0 || self.next_id > 0xffff_ffff {
                    StatementRef::Unnamed
                } else {
                    StatementRef::Named(self.next_id as u32)
                }
            },
        }
    }

    /// Records what the backend said of the statement `sql`: the types of
    /// its parameters and of its result columns. Says whether the statement
    /// is in the cache; if it is not, nothing is recorded.
    pub fn describe(&mut self, sql: &str, params: Vec<u32>, columns: Vec<u32>) -> (known: bool)
        requires
            old(self).wf(),
        ensures
            final(self).wf(),
            known == old(self)@.contains(sql@),
            final(self)@ == old(self)@.after_describe(sql@, params@, columns@),
    {
        proof {
            self@.lemma_after_describe_wf(sql@, params@, columns@);
        }
        match self.find(sql) {
            Some(i) => {
                let mut slot = self.slots.remove(i);
                slot.params = params;
                slot.columns = columns;
                self.slots.insert(i, slot);
                assert(self@.entries =~= old(self)@.after_describe(
                    sql@,
                    params@,
                    columns@,
                ).entries);
                true
            },
            None => false,
        }
    }

    /// Takes the statement `sql` out of the cache, as after a parse that the
    /// backend refused, and gives its name.
    pub fn forget(&mut self, sql: &str) -> (removed: Option<StatementRef>)
        requires
            old(self).wf(),
        ensures
            final(self).wf(),
            removed == old(self)@.forgotten(sql@),
            final(self)@ == old(self)@.after_forget(sql@),
    {
        proof {
            self@.lemma_after_forget_wf(sql@);
        }
        match self.find(sql) {
            Some(i) => {
                let slot = self.slots.remove(i);
                assert(self@.entries =~= old(self)@.after_forget(sql@).entries);
                Some(StatementRef::Named(slot.id))
            },
            None => None,
        }
    }

    /// Says what the connection has to do to run `sql` as a prepared
    /// statement, and records that the statement was used now.
    ///
    /// A statement that is in the cache is reused under its name. A new one
    /// gets the next name and a place in the cache; if the cache is full, the
    /// statement used longest ago gives up its place and has to be closed. A
    /// cache without capacity, or one whose counter is used up, keeps nothing
    /// and has the statement parsed as the unnamed one.
    pub fn prepare_or_reuse(&mut self, sql: &str) -> (step: Prepared)
        requires
            old(self).wf(),
        ensures
            final(self).wf(),
            final(self)@ == old(self)@.after_prepare(sql@),
            step@ == old(self)@.prepare_step(sql@),
    {
        proof {
            self@.lemma_after_prepare_wf(sql@);
        }
        match self.find(sql) {
            Some(i) => {
                let slot = self.slots.remove(i);
                let cached = slot.cached();
                self.slots.push(slot);
                assert(self@.entries =~= old(self)@.after_prepare(sql@).entries);
                Prepared::Reuse(cached)
            },
            None => {
                if self.capacity == 0 || self.next_id > 0xffff_ffff {
                    return Prepared::Parse { statement: StatementRef::Unnamed, close: None };
                }
                let close = if self.slots.len() == self.capacity {
                    let evicted = self.slots.remove(0);
                    Some(StatementRef::Named(evicted.id))
                } else {
                    None
                };
                let id: u32 = self.next_id as u32;
                self.slots.push(
                    Slot { sql: sql.to_owned(), id, params: Vec::new(), columns: Vec::new() },
                );
                self.next_id = self.next_id + 1;
                assert(self@.entries =~= old(self)@.after_prepare(sql@).entries);
                Prepared::Parse { statement: StatementRef::Named(id), close }
            },
        }
    }
}

} // verus!

//! Per-task local storage.
//!
//! Each task owns one [`LocalsMap`]: a mapping from key identity to a
//! lazily constructed value. No two tasks ever share a map, so access needs
//! no synchronisation, and a task's values are invisible to every other
//! task. The map is torn down exactly once, when its task terminates.

use vstd::prelude::*;
use crate::instr::Instr;
use crate::executor::Executor;

verus! {

/// The recoverable error kind: a task-local lookup performed outside any
/// task context, or a misconfigured spawn request. Reported to the caller
/// as an ordinary value; it never affects other tasks.
#[derive(Clone, Copy, Debug, PartialEq, Eq, Structural)]
pub enum AccessError {
    /// There is no current task to scope a task-local lookup to.
    NoCurrentTask,
    /// A referenced program does not exist in the runtime's program table.
    BadProgram,
    /// The runtime cannot provision another task.
    Exhausted,
}

/// The mapping denoted by a sequence of key/value bindings; a later binding
/// for the same key supersedes an earlier one.
pub open spec fn bindings_map(s: Seq<(u64, u64)>) -> Map<u64, u64>
    decreases s.len(),
{
    if s.len() == 0 {
        Map::empty()
    } else {
        bindings_map(s.drop_last()).insert(s.last().0, s.last().1)
    }
}

/// The private storage of one task: key identity to current value.
pub struct LocalsMap {
    entries: Vec<(u64, u64)>,
}

impl View for LocalsMap {
    type V = Map<u64, u64>;

    closed spec fn view(&self) -> Map<u64, u64> {
        bindings_map(self.entries@)
    }
}

proof fn lemma_bindings_absent(s: Seq<(u64, u64)>, key: u64)
    requires
        forall|j: int| 0 <= j < s.len() ==> s[j].0 != key,
    ensures
        !bindings_map(s).contains_key(key),
    decreases s.len(),
{
    if s.len() > 0 {
        lemma_bindings_absent(s.drop_last(), key);
    }
}

proof fn lemma_bindings_found(s: Seq<(u64, u64)>, key: u64, i: int)
    requires
        0 <= i < s.len(),
        s[i].0 == key,
        forall|j: int| i < j < s.len() ==> s[j].0 != key,
    ensures
        bindings_map(s).contains_key(key),
        bindings_map(s)[key] == s[i].1,
    decreases s.len(),
{
    if i < s.len() - 1 {
        lemma_bindings_found(s.drop_last(), key, i);
    }
}

impl LocalsMap {
    /// A fresh, empty storage instance, created for each task at spawn time.
    pub fn new() -> (m: LocalsMap)
        ensures
            m@ == Map::<u64, u64>::empty(),
    {
        LocalsMap { entries: Vec::new() }
    }

    /// Looks up the value for `key`, constructing it with `init` on the
    /// first access within the owning task, and returns it. Construction is
    /// deferred until this first access.
    pub fn get_or_init(&mut self, key: u64, init: u64) -> (v: u64)
        ensures
            old(self)@.contains_key(key) ==> v == old(self)@[key] && final(self)@ == old(self)@,
            !old(self)@.contains_key(key) ==> v == init && final(self)@ == old(self)@.insert(
                key,
                init,
            ),
    {
        let n = self.entries.len();
        let mut i: usize = n;
        while i > 0
            invariant
                i <= n,
                n == self.entries.len(),
                self.entries@ == old(self).entries@,
                forall|j: int| i <= j < n ==> self.entries@[j].0 != key,
            decreases i,
        {
            i = i - 1;
            let (k, v) = self.entries[i];
            if k == key {
                proof {
                    lemma_bindings_found(self.entries@, key, i as int);
                }
                return v;
            }
        }
        proof {
            lemma_bindings_absent(self.entries@, key);
        }
        self.entries.push((key, init));
        proof {
            assert(self.entries@.drop_last() =~= old(self).entries@);
        }
        init
    }

    /// Replaces the value for `key` (constructing the slot if absent).
    pub fn set(&mut self, key: u64, value: u64)
        ensures
            final(self)@ == old(self)@.insert(key, value),
    {
        self.entries.push((key, value));
        proof {
            assert(self.entries@.drop_last() =~= old(self).entries@);
        }
    }

    /// Tears the storage down: every constructed value is destroyed. Called
    /// exactly once, when the owning task terminates.
    pub fn clear(&mut self)
        ensures
            final(self)@ == Map::<u64, u64>::empty(),
    {
        self.entries.clear();
    }
}

/// A declared task-local slot: a key identity together with the initial
/// value constructed on a task's first access. The key itself carries no
/// value; at runtime it indexes the current task's own [`LocalsMap`].
#[derive(Clone, Copy, Debug, PartialEq, Eq, Structural)]
pub struct LocalKey {
    /// The key identity; two keys with the same identity name the same slot.
    pub key: u64,
    /// The value constructed on first access within a task.
    pub init: u64,
}

impl LocalKey {
    /// Declares a slot with the given identity and initial value.
    pub fn new(key: u64, init: u64) -> (k: LocalKey)
        ensures
            k.key == key,
            k.init == init,
    {
        LocalKey { key, init }
    }

    /// The instruction that reads this slot inside the running task,
    /// constructing the value on first access.
    pub fn read(&self) -> (i: Instr)
        ensures
            i == Instr::LocalGet(self.key, self.init),
    {
        Instr::LocalGet(self.key, self.init)
    }

    /// The instruction that writes this slot inside the running task.
    pub fn write(&self, value: u64) -> (i: Instr)
        ensures
            i == Instr::LocalSet(self.key, value),
    {
        Instr::LocalSet(self.key, value)
    }

    /// Accesses this slot from ordinary calling code.
    ///
    /// The runtime drives each task step atomically, so whenever this can
    /// be called, control is outside every task: there is no current task
    /// to scope the lookup to, and the access fails. Inside a task the
    /// slot is reached with [`LocalKey::read`] and [`LocalKey::write`].
    pub fn with(&self, _ex: &Executor) -> (r: Result<u64, AccessError>)
        ensures
            r == Err::<u64, AccessError>(AccessError::NoCurrentTask),
    {
        Err(AccessError::NoCurrentTask)
    }
}

} // verus!

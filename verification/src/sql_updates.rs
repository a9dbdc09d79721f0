//! A mutation patch: an ordered value set whose entries double as deferred
//! actions, so a successful write can be mirrored onto a live entity
//! without re-reading it.

use vstd::prelude::*;

use crate::definable::Definable;
use crate::sql_values::{spec_values_text, SqlValues, ValueEntryModel};
use crate::value::RepoValue;

verus! {

/// An ordered set of field assignments to persist, paired — entry by
/// entry — with the deferred action of replaying that same assignment
/// onto an in-memory entity.
///
/// The deferred action for entry `i` is "set the entry's field to the
/// entry's value"; `apply` performs it through a caller-supplied setter,
/// which keeps the persisted value and the replayed value identical by
/// construction.
pub struct SqlUpdates {
    data: SqlValues,
}

impl View for SqlUpdates {
    type V = Seq<ValueEntryModel>;

    closed spec fn view(&self) -> Seq<ValueEntryModel> {
        self.data@
    }
}

/// One deferred action performed: the setter `f` was handed `before`, the
/// entry's field name and a value denoting the entry's value, and returned
/// `after`.
pub open spec fn spec_step<E, F: Fn(E, &'static str, RepoValue) -> E>(
    f: F,
    entry: ValueEntryModel,
    before: E,
    after: E,
) -> bool {
    exists|name: &'static str, value: RepoValue|
        name@ == entry.0 && value@ == entry.1 && f.ensures((before, name, value), after)
}

/// The deferred actions of `entries` were each performed exactly once, in
/// order: `states` records the entity before anything ran, after each
/// action in turn, and so also after the last one.
pub open spec fn spec_apply_chain<E, F: Fn(E, &'static str, RepoValue) -> E>(
    f: F,
    entries: Seq<ValueEntryModel>,
    states: Seq<E>,
) -> bool {
    &&& states.len() == entries.len() + 1
    &&& forall|i: int|
        0 <= i < entries.len() ==> spec_step(f, #[trigger] entries[i], states[i], states[i + 1])
}

impl SqlUpdates {
    /// An empty patch.
    pub fn new() -> (r: SqlUpdates)
        ensures
            r@ == Seq::<ValueEntryModel>::empty(),
    {
        SqlUpdates { data: SqlValues::new() }
    }

    /// Appends one assignment and, with it, the deferred action of
    /// replaying that assignment; the two are never split.
    pub fn push(&mut self, field: &'static str, data: RepoValue)
        ensures
            final(self)@ == old(self)@.push((field@, data@)),
    {
        self.data.push(field, data);
    }

    /// Appends the assignment only when the tri-state value is defined: an
    /// `Undefined` field leaves the patch unchanged and so is excluded from
    /// the eventual statement and replay entirely.
    pub fn push_if_defined(&mut self, field: &'static str, data: Definable<RepoValue>)
        ensures
            (match data {
                Definable::Defined(v) => final(self)@ == old(self)@.push((field@, v@)),
                Definable::Undefined => final(self)@ == old(self)@,
            }),
    {
        match data {
            Definable::Defined(v) => self.data.push(field, v),
            Definable::Undefined => {},
        }
    }

    /// True when the patch holds no assignment.
    pub fn is_empty(&self) -> (r: bool)
        ensures
            r == (self@.len() == 0),
    {
        self.data.is_empty()
    }

    /// The number of recorded assignments.
    pub fn len(&self) -> (r: usize)
        ensures
            r == self@.len(),
    {
        self.data.len()
    }

    /// Renders the literal `field=value` fragments joined with `", "`, for
    /// debugging and logging.
    pub fn expressions(&self) -> (r: String)
        ensures
            r@ == spec_values_text(self@),
    {
        self.data.expressions()
    }

    /// The value-set view handed to a binding backend for persistence.
    pub fn dataset(&self) -> (r: &SqlValues)
        ensures
            r@ == self@,
    {
        &self.data
    }

    /// Consumes the patch and performs every deferred action exactly once,
    /// in insertion order: entry by entry, the setter is handed the entity
    /// so far, the entry's field name and value, and produces the next
    /// entity state, whose last form is returned.
    ///
    /// This must only be called once the corresponding persistence has
    /// succeeded; consuming the patch keeps it from running twice.
    pub fn apply<E, F: Fn(E, &'static str, RepoValue) -> E>(self, target: E, f: F) -> (r: E)
        requires
            forall|e: E, name: &'static str, v: RepoValue|
                (exists|k: int|
                    0 <= k < self@.len() && name@ == self@[k].0 && v@ == self@[k].1) ==> #[trigger] f.requires(
                    (e, name, v),
                ),
        ensures
            exists|states: Seq<E>|
                #[trigger] spec_apply_chain(f, self@, states) && states[0] == target
                    && states.last() == r,
    {
        let ghost entries = self@;
        let mut acc = target;
        let ghost mut states: Seq<E> = seq![target];
        let mut i: usize = 0;
        while i < self.data.len()
            invariant
                0 <= i <= entries.len(),
                entries == self@,
                forall|e: E, name: &'static str, v: RepoValue|
                    (exists|k: int|
                        0 <= k < entries.len() && name@ == entries[k].0 && v@
                            == entries[k].1) ==> #[trigger] f.requires((e, name, v)),
                states.len() == i + 1,
                states[0] == target,
                states.last() == acc,
                forall|j: int|
                    0 <= j < i ==> spec_step(f, #[trigger] entries[j], states[j], states[j + 1]),
            decreases entries.len() - i,
        {
            let entry = self.data.get(i);
            let name = entry.0;
            let value = entry.1.clone();
            proof {
                assert(name@ == entries[i as int].0);
                assert(value@ == entries[i as int].1);
                assert(exists|k: int|
                    0 <= k < entries.len() && name@ == entries[k].0 && value@ == entries[k].1);
            }
            let ghost before = acc;
            acc = f(acc, name, value);
            proof {
                assert(spec_step(f, entries[i as int], before, acc));
                states = states.push(acc);
            }
            i = i + 1;
        }
        proof {
            assert(spec_apply_chain(f, entries, states));
        }
        acc
    }
}

impl Default for SqlUpdates {
    /// The default patch is empty.
    fn default() -> (r: Self)
        ensures
            r@ == Seq::<ValueEntryModel>::empty(),
    {
        SqlUpdates::new()
    }
}

} // verus!

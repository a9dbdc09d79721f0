//! An ordered set of (field, value) assignments, as used for INSERT and
//! SET clauses; insertion order is preserved and significant.

use vstd::prelude::*;

use crate::text::{lemma_join_step, spec_join};
use crate::value::{spec_render_value, RepoValue, ValueModel};

verus! {

/// One (field name, value) assignment, viewed at the spec level.
pub type ValueEntryModel = (Seq<char>, ValueModel);

/// An ordered sequence of (field name, scalar value) pairs, one entry per
/// assignment, in insertion order.
pub struct SqlValues {
    entries: Vec<(&'static str, RepoValue)>,
}

impl View for SqlValues {
    type V = Seq<ValueEntryModel>;

    closed spec fn view(&self) -> Seq<ValueEntryModel> {
        self.entries@.map_values(|e: (&'static str, RepoValue)| (e.0@, e.1@))
    }
}

/// The literal SQL text of a value set: `field=value` fragments joined
/// with `", "`, in insertion order.
pub open spec fn spec_values_text(entries: Seq<ValueEntryModel>) -> Seq<char> {
    spec_join(
        entries.map_values(|e: ValueEntryModel| e.0 + seq!['='] + spec_render_value(e.1)),
        seq![',', ' '],
    )
}

impl SqlValues {
    /// An empty value set.
    pub fn new() -> (r: SqlValues)
        ensures
            r@ == Seq::<ValueEntryModel>::empty(),
    {
        let r = SqlValues { entries: Vec::new() };
        proof {
            assert(r@ =~= Seq::<ValueEntryModel>::empty());
        }
        r
    }

    /// Appends one assignment, builder style.
    pub fn with(self, field: &'static str, data: RepoValue) -> (r: SqlValues)
        ensures
            r@ == self@.push((field@, data@)),
    {
        let mut s = self;
        s.push(field, data);
        s
    }

    /// Appends one assignment.
    pub fn push(&mut self, field: &'static str, data: RepoValue)
        ensures
            final(self)@ == old(self)@.push((field@, data@)),
    {
        self.entries.push((field, data));
        proof {
            assert(self@ =~= old(self)@.push((field@, data@)));
        }
    }

    /// True when no assignment has been recorded.
    pub fn is_empty(&self) -> (r: bool)
        ensures
            r == (self@.len() == 0),
    {
        self.entries.len() == 0
    }

    /// The number of recorded assignments.
    pub fn len(&self) -> (r: usize)
        ensures
            r == self@.len(),
    {
        self.entries.len()
    }

    /// The `i`-th assignment, in insertion order.
    pub fn get(&self, i: usize) -> (r: &(&'static str, RepoValue))
        requires
            i < self@.len(),
        ensures
            r.0@ == self@[i as int].0,
            r.1@ == self@[i as int].1,
    {
        &self.entries[i]
    }

    /// Renders the literal `field=value` fragments joined with `", "`, for
    /// debugging and logging.
    pub fn expressions(&self) -> (r: String)
        ensures
            r@ == spec_values_text(self@),
    {
        let ghost parts = self@.map_values(
            |e: ValueEntryModel| e.0 + seq!['='] + spec_render_value(e.1),
        );
        let mut out = String::new();
        let mut i: usize = 0;
        while i < self.entries.len()
            invariant
                0 <= i <= self@.len(),
                self@.len() == self.entries@.len(),
                parts == self@.map_values(
                    |e: ValueEntryModel| e.0 + seq!['='] + spec_render_value(e.1),
                ),
                parts.len() == self@.len(),
                out@ == spec_join(parts.take(i as int), seq![',', ' ']),
            decreases self@.len() - i,
        {
            if i > 0 {
                proof {
                    reveal_strlit(", ");
                    assert(", "@ =~= seq![',', ' ']);
                }
                out.append(", ");
            }
            let entry = &self.entries[i];
            out.append(entry.0);
            proof {
                reveal_strlit("=");
                assert("="@ =~= seq!['=']);
            }
            out.append("=");
            entry.1.append_render(&mut out);
            proof {
                lemma_join_step(parts, seq![',', ' '], i as int);
                assert(parts[i as int] == self@[i as int].0 + seq!['='] + spec_render_value(
                    self@[i as int].1,
                ));
                assert(out@ =~= spec_join(parts.take(i as int + 1), seq![',', ' ']));
            }
            i = i + 1;
        }
        proof {
            assert(parts.take(parts.len() as int) =~= parts);
        }
        out
    }
}

impl Default for SqlValues {
    /// The default value set is empty.
    fn default() -> (r: Self)
        ensures
            r@ == Seq::<ValueEntryModel>::empty(),
    {
        SqlValues::new()
    }
}

} // verus!

//! An ordered set of named predicates, as used for WHERE clauses;
//! insertion order is preserved and determines marker and parameter order.

use vstd::prelude::*;

use crate::filter::{spec_expression, Filter, FilterModel, NamedFilter, NamedFilterHolder};
use crate::text::{lemma_join_step, spec_join};
use crate::value::RepoValue;

verus! {

/// One named predicate, viewed at the spec level.
pub type FilterEntryModel = (Seq<char>, FilterModel);

/// An ordered sequence of (field name, predicate) pairs, in insertion
/// order.
pub struct SqlFilter {
    members: Vec<NamedFilter>,
}

impl View for SqlFilter {
    type V = Seq<FilterEntryModel>;

    closed spec fn view(&self) -> Seq<FilterEntryModel> {
        self.members@.map_values(|m: NamedFilter| m@)
    }
}

/// The separator between rendered predicate clauses.
pub open spec fn spec_and_separator() -> Seq<char> {
    seq![' ', 'A', 'N', 'D', ' ']
}

/// The literal SQL text of a predicate set: each member's expression, in
/// insertion order, joined with `" AND "`.
pub open spec fn spec_filter_text(members: Seq<FilterEntryModel>) -> Seq<char> {
    spec_join(
        members.map_values(|m: FilterEntryModel| spec_expression(m.0, m.1)),
        spec_and_separator(),
    )
}

impl SqlFilter {
    /// An empty predicate set.
    pub fn new() -> (r: SqlFilter)
        ensures
            r@ == Seq::<FilterEntryModel>::empty(),
    {
        let r = SqlFilter { members: Vec::new() };
        proof {
            assert(r@ =~= Seq::<FilterEntryModel>::empty());
        }
        r
    }

    /// Appends one named predicate, builder style.
    pub fn with(self, field: &'static str, filter: Filter<RepoValue>) -> (r: SqlFilter)
        ensures
            r@ == self@.push((field@, filter@)),
    {
        let mut s = self;
        s.members.push(NamedFilter::new(field, filter));
        proof {
            assert(s@ =~= self@.push((field@, filter@)));
        }
        s
    }

    /// Appends the holder's predicate if one is set; an unconstrained
    /// holder adds nothing.
    pub fn with_named(self, holder: &NamedFilterHolder) -> (r: SqlFilter)
        ensures
            (match holder@.1 {
                Some(fm) => r@ == self@.push((holder@.0, fm)),
                None => r@ == self@,
            }),
    {
        let mut s = self;
        match holder.to_named_filter() {
            Some(named) => {
                s.members.push(named);
                proof {
                    let fm = holder@.1->Some_0;
                    assert(s@ =~= self@.push((holder@.0, fm)));
                }
            },
            None => {},
        }
        s
    }

    /// True when the set holds no predicate.
    pub fn is_empty(&self) -> (r: bool)
        ensures
            r == (self@.len() == 0),
    {
        self.members.len() == 0
    }

    /// The number of predicates in the set.
    pub fn len(&self) -> (r: usize)
        ensures
            r == self@.len(),
    {
        self.members.len()
    }

    /// The `i`-th named predicate, in insertion order.
    pub fn get(&self, i: usize) -> (r: &NamedFilter)
        requires
            i < self@.len(),
        ensures
            r@ == self@[i as int],
    {
        &self.members[i]
    }

    /// Renders each member's literal expression, in insertion order,
    /// joined with `" AND "`; for debugging and logging.
    pub fn expressions(&self) -> (r: String)
        ensures
            r@ == spec_filter_text(self@),
    {
        let ghost parts = self@.map_values(|m: FilterEntryModel| spec_expression(m.0, m.1));
        let mut out = String::new();
        let mut i: usize = 0;
        while i < self.members.len()
            invariant
                0 <= i <= self@.len(),
                self@.len() == self.members@.len(),
                parts == self@.map_values(|m: FilterEntryModel| spec_expression(m.0, m.1)),
                parts.len() == self@.len(),
                out@ == spec_join(parts.take(i as int), spec_and_separator()),
            decreases self@.len() - i,
        {
            if i > 0 {
                proof {
                    reveal_strlit(" AND ");
                    assert(" AND "@ =~= spec_and_separator());
                }
                out.append(" AND ");
            }
            let expr = self.members[i].sql_expression();
            out.append(expr.as_str());
            proof {
                lemma_join_step(parts, spec_and_separator(), i as int);
                assert(self.members@[i as int]@ == self@[i as int]);
                assert(parts[i as int] == spec_expression(self@[i as int].0, self@[i as int].1));
                assert(out@ =~= spec_join(parts.take(i as int + 1), spec_and_separator()));
            }
            i = i + 1;
        }
        proof {
            assert(parts.take(parts.len() as int) =~= parts);
        }
        out
    }
}

impl Default for SqlFilter {
    /// The default predicate set is empty.
    fn default() -> (r: Self)
        ensures
            r@ == Seq::<FilterEntryModel>::empty(),
    {
        SqlFilter::new()
    }
}

/// Rendering a predicate set joins exactly one clause per member with
/// `" AND "`, in insertion order: the text is the join of a parts sequence
/// whose length is the member count and whose `i`-th part is the `i`-th
/// member's expression.
pub proof fn lemma_render_joins_members(members: Seq<FilterEntryModel>)
    ensures
        ({
            let parts = members.map_values(|m: FilterEntryModel| spec_expression(m.0, m.1));
            parts.len() == members.len() && spec_filter_text(members) == spec_join(
                parts,
                spec_and_separator(),
            ) && forall|i: int|
                0 <= i < members.len() ==> parts[i] == spec_expression(
                    members[i].0,
                    members[i].1,
                )
        }),
{
}

} // verus!

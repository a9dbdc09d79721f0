//! The predicate algebra: comparison predicates over a value type, a
//! field-scoped single-predicate holder with fluent setters, and the
//! literal SQL-text rendering of a named predicate.

use vstd::prelude::*;

use crate::text::{lemma_join_step, spec_join};
use crate::value::{spec_render_value, RepoValue, ValueModel};

verus! {

/// One comparison or membership test against a single field, over a value
/// type `T`.
///
/// A membership test over an empty sequence is kept and rendered
/// literally (`field IN ()`, `field NOT IN ()`) rather than special-cased:
/// most SQL dialects read the former as always false and the latter as
/// always true.
#[derive(Debug, PartialEq)]
pub enum Filter<T> {
    Equal(T),
    Not(T),
    LessorThan(T),
    EqualOrLessorThan(T),
    GreaterThan(T),
    EqualOrGreaterThan(T),
    In(Vec<T>),
    NotIn(Vec<T>),
    Between(T, T),
}

/// Spec-level model of a predicate over scalar values.
pub enum FilterModel {
    Equal(ValueModel),
    Not(ValueModel),
    LessorThan(ValueModel),
    EqualOrLessorThan(ValueModel),
    GreaterThan(ValueModel),
    EqualOrGreaterThan(ValueModel),
    In(Seq<ValueModel>),
    NotIn(Seq<ValueModel>),
    Between(ValueModel, ValueModel),
}

impl View for Filter<RepoValue> {
    type V = FilterModel;

    open spec fn view(&self) -> FilterModel {
        match self {
            Filter::Equal(v) => FilterModel::Equal(v@),
            Filter::Not(v) => FilterModel::Not(v@),
            Filter::LessorThan(v) => FilterModel::LessorThan(v@),
            Filter::EqualOrLessorThan(v) => FilterModel::EqualOrLessorThan(v@),
            Filter::GreaterThan(v) => FilterModel::GreaterThan(v@),
            Filter::EqualOrGreaterThan(v) => FilterModel::EqualOrGreaterThan(v@),
            Filter::In(vs) => FilterModel::In(vs@.map_values(|v: RepoValue| v@)),
            Filter::NotIn(vs) => FilterModel::NotIn(vs@.map_values(|v: RepoValue| v@)),
            Filter::Between(a, b) => FilterModel::Between(a@, b@),
        }
    }
}

impl<T> Filter<T> {
    /// The values this predicate holds, in the order they are rendered and
    /// bound: one for a comparison, the whole sequence for a membership
    /// test, low then high for a range.
    pub open spec fn spec_values(self) -> Seq<T> {
        match self {
            Filter::Equal(v) => seq![v],
            Filter::Not(v) => seq![v],
            Filter::LessorThan(v) => seq![v],
            Filter::EqualOrLessorThan(v) => seq![v],
            Filter::GreaterThan(v) => seq![v],
            Filter::EqualOrGreaterThan(v) => seq![v],
            Filter::In(vs) => vs@,
            Filter::NotIn(vs) => vs@,
            Filter::Between(a, b) => seq![a, b],
        }
    }

    /// Maps a function over every held value, preserving the variant shape,
    /// the order of membership-test elements, and the (low, high) order of a
    /// range.
    pub fn map<R, F: Fn(T) -> R>(self, f: F) -> (r: Filter<R>)
        requires
            forall|i: int|
                0 <= i < self.spec_values().len() ==> f.requires((#[trigger] self.spec_values()[i],
                )),
        ensures
            (match (self, r) {
                (Filter::Equal(v), Filter::Equal(w)) => f.ensures((v,), w),
                (Filter::Not(v), Filter::Not(w)) => f.ensures((v,), w),
                (Filter::LessorThan(v), Filter::LessorThan(w)) => f.ensures((v,), w),
                (Filter::EqualOrLessorThan(v), Filter::EqualOrLessorThan(w)) => f.ensures((v,), w),
                (Filter::GreaterThan(v), Filter::GreaterThan(w)) => f.ensures((v,), w),
                (Filter::EqualOrGreaterThan(v), Filter::EqualOrGreaterThan(w)) => f.ensures(
                    (v,),
                    w,
                ),
                (Filter::In(vs), Filter::In(ws)) => ws@.len() == vs@.len() && forall|i: int|
                    0 <= i < vs@.len() ==> f.ensures((#[trigger] vs@[i],), ws@[i]),
                (Filter::NotIn(vs), Filter::NotIn(ws)) => ws@.len() == vs@.len() && forall|i: int|
                    0 <= i < vs@.len() ==> f.ensures((#[trigger] vs@[i],), ws@[i]),
                (Filter::Between(a, b), Filter::Between(c, d)) => f.ensures((a,), c) && f.ensures(
                    (b,),
                    d,
                ),
                _ => false,
            }),
    {
        let ghost orig = self;
        match self {
            Filter::Equal(v) => {
                proof {
                    assert(orig.spec_values()[0] == v);
                }
                Filter::Equal(f(v))
            },
            Filter::Not(v) => {
                proof {
                    assert(orig.spec_values()[0] == v);
                }
                Filter::Not(f(v))
            },
            Filter::LessorThan(v) => {
                proof {
                    assert(orig.spec_values()[0] == v);
                }
                Filter::LessorThan(f(v))
            },
            Filter::EqualOrLessorThan(v) => {
                proof {
                    assert(orig.spec_values()[0] == v);
                }
                Filter::EqualOrLessorThan(f(v))
            },
            Filter::GreaterThan(v) => {
                proof {
                    assert(orig.spec_values()[0] == v);
                }
                Filter::GreaterThan(f(v))
            },
            Filter::EqualOrGreaterThan(v) => {
                proof {
                    assert(orig.spec_values()[0] == v);
                }
                Filter::EqualOrGreaterThan(f(v))
            },
            Filter::In(vs) => {
                proof {
                    assert(orig.spec_values() == vs@);
                }
                Filter::In(map_vec(vs, f))
            },
            Filter::NotIn(vs) => {
                proof {
                    assert(orig.spec_values() == vs@);
                }
                Filter::NotIn(map_vec(vs, f))
            },
            Filter::Between(a, b) => {
                proof {
                    assert(orig.spec_values()[0] == a);
                    assert(orig.spec_values()[1] == b);
                }
                let low = f(a);
                let high = f(b);
                Filter::Between(low, high)
            },
        }
    }
}

/// Applies `f` to every element of `vs`, in order.
fn map_vec<T, R, F: Fn(T) -> R>(vs: Vec<T>, f: F) -> (r: Vec<R>)
    requires
        forall|i: int| 0 <= i < vs@.len() ==> f.requires((#[trigger] vs@[i],)),
    ensures
        r@.len() == vs@.len(),
        forall|i: int| 0 <= i < vs@.len() ==> f.ensures((#[trigger] vs@[i],), r@[i]),
{
    let ghost orig = vs@;
    let mut rest = vs;
    let mut out: Vec<R> = Vec::new();
    while rest.len() > 0
        invariant
            out@.len() + rest@.len() == orig.len(),
            rest@ == orig.skip(out@.len() as int),
            forall|i: int| 0 <= i < orig.len() ==> f.requires((#[trigger] orig[i],)),
            forall|i: int| 0 <= i < out@.len() ==> f.ensures((#[trigger] orig[i],), out@[i]),
        decreases rest@.len(),
    {
        proof {
            assert(rest@[0] == orig[out@.len() as int]);
        }
        let v = rest.remove(0);
        let w = f(v);
        out.push(w);
        proof {
            assert(rest@ =~= orig.skip(out@.len() as int));
        }
    }
    out
}

/// A field name paired with the predicate that constrains it.
#[derive(Debug)]
pub struct NamedFilter {
    name: &'static str,
    filter: Filter<RepoValue>,
}

impl View for NamedFilter {
    type V = (Seq<char>, FilterModel);

    closed spec fn view(&self) -> (Seq<char>, FilterModel) {
        (self.name@, self.filter@)
    }
}

/// The literal SQL text of one named predicate: `field=v`, `field<>v`,
/// `field<v`, `field<=v`, `field>v`, `field>=v`, `field IN (v1,v2,...)`,
/// `field NOT IN (v1,...)`, or `field BETWEEN v1 AND v2`.
pub open spec fn spec_expression(name: Seq<char>, f: FilterModel) -> Seq<char> {
    match f {
        FilterModel::Equal(v) => name + seq!['='] + spec_render_value(v),
        FilterModel::Not(v) => name + seq!['<', '>'] + spec_render_value(v),
        FilterModel::LessorThan(v) => name + seq!['<'] + spec_render_value(v),
        FilterModel::EqualOrLessorThan(v) => name + seq!['<', '='] + spec_render_value(v),
        FilterModel::GreaterThan(v) => name + seq!['>'] + spec_render_value(v),
        FilterModel::EqualOrGreaterThan(v) => name + seq!['>', '='] + spec_render_value(v),
        FilterModel::In(vs) => name + seq![' ', 'I', 'N', ' ', '('] + spec_join(
            vs.map_values(|v: ValueModel| spec_render_value(v)),
            seq![','],
        ) + seq![')'],
        FilterModel::NotIn(vs) => name + seq![' ', 'N', 'O', 'T', ' ', 'I', 'N', ' ', '(']
            + spec_join(vs.map_values(|v: ValueModel| spec_render_value(v)), seq![','])
            + seq![')'],
        FilterModel::Between(a, b) => name + seq![' ', 'B', 'E', 'T', 'W', 'E', 'E', 'N', ' ']
            + spec_render_value(a) + seq![' ', 'A', 'N', 'D', ' '] + spec_render_value(b),
    }
}

/// Appends the comma-joined renderings of `vs` to `out`.
fn append_joined_values(out: &mut String, vs: &Vec<RepoValue>)
    ensures
        final(out)@ == old(out)@ + spec_join(
            vs@.map_values(|v: RepoValue| v@).map_values(|v: ValueModel| spec_render_value(v)),
            seq![','],
        ),
{
    let ghost parts = vs@.map_values(|v: RepoValue| v@).map_values(
        |v: ValueModel| spec_render_value(v),
    );
    let mut i: usize = 0;
    while i < vs.len()
        invariant
            0 <= i <= vs@.len(),
            parts == vs@.map_values(|v: RepoValue| v@).map_values(
                |v: ValueModel| spec_render_value(v),
            ),
            parts.len() == vs@.len(),
            out@ == old(out)@ + spec_join(parts.take(i as int), seq![',']),
        decreases vs@.len() - i,
    {
        if i > 0 {
            proof {
                reveal_strlit(",");
                assert(","@ =~= seq![',']);
            }
            out.append(",");
        }
        vs[i].append_render(out);
        proof {
            lemma_join_step(parts, seq![','], i as int);
            assert(parts[i as int] == spec_render_value(vs@[i as int]@));
        }
        i = i + 1;
    }
    proof {
        assert(parts.take(vs@.len() as int) =~= parts);
    }
}

impl NamedFilter {
    /// Pairs a field name with a predicate.
    pub fn new(name: &'static str, filter: Filter<RepoValue>) -> (r: NamedFilter)
        ensures
            r@ == (name@, filter@),
    {
        NamedFilter { name, filter }
    }

    /// The field this predicate constrains.
    pub fn name(&self) -> (r: &'static str)
        ensures
            r@ == self@.0,
    {
        self.name
    }

    /// The predicate itself.
    pub fn filter(&self) -> (r: &Filter<RepoValue>)
        ensures
            r@ == self@.1,
    {
        &self.filter
    }

    /// Renders this predicate's literal SQL text.
    pub fn sql_expression(&self) -> (r: String)
        ensures
            r@ == spec_expression(self@.0, self@.1),
    {
        let mut out = String::new();
        out.append(self.name);
        match &self.filter {
            Filter::Equal(v) => {
                proof {
                    reveal_strlit("=");
                    assert("="@ =~= seq!['=']);
                }
                out.append("=");
                v.append_render(&mut out);
            },
            Filter::Not(v) => {
                proof {
                    reveal_strlit("<>");
                    assert("<>"@ =~= seq!['<', '>']);
                }
                out.append("<>");
                v.append_render(&mut out);
            },
            Filter::LessorThan(v) => {
                proof {
                    reveal_strlit("<");
                    assert("<"@ =~= seq!['<']);
                }
                out.append("<");
                v.append_render(&mut out);
            },
            Filter::EqualOrLessorThan(v) => {
                proof {
                    reveal_strlit("<=");
                    assert("<="@ =~= seq!['<', '=']);
                }
                out.append("<=");
                v.append_render(&mut out);
            },
            Filter::GreaterThan(v) => {
                proof {
                    reveal_strlit(">");
                    assert(">"@ =~= seq!['>']);
                }
                out.append(">");
                v.append_render(&mut out);
            },
            Filter::EqualOrGreaterThan(v) => {
                proof {
                    reveal_strlit(">=");
                    assert(">="@ =~= seq!['>', '=']);
                }
                out.append(">=");
                v.append_render(&mut out);
            },
            Filter::In(vs) => {
                proof {
                    reveal_strlit(" IN (");
                    assert(" IN ("@ =~= seq![' ', 'I', 'N', ' ', '(']);
                    reveal_strlit(")");
                    assert(")"@ =~= seq![')']);
                }
                out.append(" IN (");
                append_joined_values(&mut out, vs);
                out.append(")");
            },
            Filter::NotIn(vs) => {
                proof {
                    reveal_strlit(" NOT IN (");
                    assert(" NOT IN ("@ =~= seq![' ', 'N', 'O', 'T', ' ', 'I', 'N', ' ', '(']);
                    reveal_strlit(")");
                    assert(")"@ =~= seq![')']);
                }
                out.append(" NOT IN (");
                append_joined_values(&mut out, vs);
                out.append(")");
            },
            Filter::Between(a, b) => {
                proof {
                    reveal_strlit(" BETWEEN ");
                    assert(" BETWEEN "@ =~= seq![' ', 'B', 'E', 'T', 'W', 'E', 'E', 'N', ' ']);
                    reveal_strlit(" AND ");
                    assert(" AND "@ =~= seq![' ', 'A', 'N', 'D', ' ']);
                }
                out.append(" BETWEEN ");
                a.append_render(&mut out);
                out.append(" AND ");
                b.append_render(&mut out);
            },
        }
        proof {
            assert(out@ =~= spec_expression(self@.0, self@.1));
        }
        out
    }
}

impl Clone for NamedFilter {
    /// A clone denotes the same named predicate.
    fn clone(&self) -> (r: Self)
        ensures
            r@ == self@,
    {
        NamedFilter { name: self.name, filter: self.filter.clone() }
    }
}

/// Clones a vector of scalar values, element by element.
fn clone_value_vec(vs: &Vec<RepoValue>) -> (r: Vec<RepoValue>)
    ensures
        r@.len() == vs@.len(),
        forall|i: int| 0 <= i < vs@.len() ==> (#[trigger] r@[i])@ == vs@[i]@,
{
    let mut out: Vec<RepoValue> = Vec::new();
    let mut i: usize = 0;
    while i < vs.len()
        invariant
            0 <= i <= vs@.len(),
            out@.len() == i,
            forall|j: int| 0 <= j < i ==> (#[trigger] out@[j])@ == vs@[j]@,
        decreases vs@.len() - i,
    {
        out.push(vs[i].clone());
        i = i + 1;
    }
    out
}

impl Clone for Filter<RepoValue> {
    /// A clone denotes the same predicate.
    fn clone(&self) -> (r: Self)
        ensures
            r@ == self@,
    {
        let r = match self {
            Filter::Equal(v) => Filter::Equal(v.clone()),
            Filter::Not(v) => Filter::Not(v.clone()),
            Filter::LessorThan(v) => Filter::LessorThan(v.clone()),
            Filter::EqualOrLessorThan(v) => Filter::EqualOrLessorThan(v.clone()),
            Filter::GreaterThan(v) => Filter::GreaterThan(v.clone()),
            Filter::EqualOrGreaterThan(v) => Filter::EqualOrGreaterThan(v.clone()),
            Filter::In(vs) => Filter::In(clone_value_vec(vs)),
            Filter::NotIn(vs) => Filter::NotIn(clone_value_vec(vs)),
            Filter::Between(a, b) => Filter::Between(a.clone(), b.clone()),
        };
        proof {
            match (self, &r) {
                (Filter::In(vs), Filter::In(ws)) => {
                    assert(ws@.map_values(|v: RepoValue| v@) =~= vs@.map_values(
                        |v: RepoValue| v@,
                    ));
                },
                (Filter::NotIn(vs), Filter::NotIn(ws)) => {
                    assert(ws@.map_values(|v: RepoValue| v@) =~= vs@.map_values(
                        |v: RepoValue| v@,
                    ));
                },
                _ => {},
            }
        }
        r
    }
}

/// At most one predicate for one field: setting a new comparison replaces
/// any previous one, and "no constraint" is a distinct, observable state.
#[derive(Debug)]
pub struct NamedFilterHolder {
    name: &'static str,
    filter: Option<Filter<RepoValue>>,
}

impl View for NamedFilterHolder {
    type V = (Seq<char>, Option<FilterModel>);

    closed spec fn view(&self) -> (Seq<char>, Option<FilterModel>) {
        (
            self.name@,
            match self.filter {
                Some(f) => Some(f@),
                None => None,
            },
        )
    }
}

impl NamedFilterHolder {
    /// A holder for `name` with no constraint yet.
    pub fn new(name: &'static str) -> (r: NamedFilterHolder)
        ensures
            r@ == (name@, Option::<FilterModel>::None),
    {
        NamedFilterHolder { name, filter: None }
    }

    /// The field this holder constrains.
    pub fn name(&self) -> (r: &'static str)
        ensures
            r@ == self@.0,
    {
        self.name
    }

    /// The current predicate, if one has been set.
    pub fn filter(&self) -> (r: Option<&Filter<RepoValue>>)
        ensures
            (match r {
                Some(f) => self@.1 == Some(f@),
                None => self@.1 is None,
            }),
    {
        self.filter.as_ref()
    }

    /// True when a predicate has been set.
    pub fn is_some(&self) -> (r: bool)
        ensures
            r == (self@.1 is Some),
    {
        self.filter.is_some()
    }

    /// True when no predicate has been set.
    pub fn is_none(&self) -> (r: bool)
        ensures
            r == (self@.1 is None),
    {
        self.filter.is_none()
    }

    /// Constrains the field to equal `value`, replacing any previous
    /// predicate.
    pub fn eq(&mut self, value: RepoValue)
        ensures
            final(self)@ == (old(self)@.0, Some(FilterModel::Equal(value@))),
    {
        self.filter = Some(Filter::Equal(value));
    }

    /// Constrains the field to differ from `value`, replacing any previous
    /// predicate.
    pub fn not(&mut self, value: RepoValue)
        ensures
            final(self)@ == (old(self)@.0, Some(FilterModel::Not(value@))),
    {
        self.filter = Some(Filter::Not(value));
    }

    /// Constrains the field to be less than `value`, replacing any previous
    /// predicate.
    pub fn lt(&mut self, value: RepoValue)
        ensures
            final(self)@ == (old(self)@.0, Some(FilterModel::LessorThan(value@))),
    {
        self.filter = Some(Filter::LessorThan(value));
    }

    /// Constrains the field to be at most `value`, replacing any previous
    /// predicate.
    pub fn elt(&mut self, value: RepoValue)
        ensures
            final(self)@ == (old(self)@.0, Some(FilterModel::EqualOrLessorThan(value@))),
    {
        self.filter = Some(Filter::EqualOrLessorThan(value));
    }

    /// Constrains the field to be greater than `value`, replacing any
    /// previous predicate.
    pub fn gt(&mut self, value: RepoValue)
        ensures
            final(self)@ == (old(self)@.0, Some(FilterModel::GreaterThan(value@))),
    {
        self.filter = Some(Filter::GreaterThan(value));
    }

    /// Constrains the field to be at least `value`, replacing any previous
    /// predicate.
    pub fn egt(&mut self, value: RepoValue)
        ensures
            final(self)@ == (old(self)@.0, Some(FilterModel::EqualOrGreaterThan(value@))),
    {
        self.filter = Some(Filter::EqualOrGreaterThan(value));
    }

    /// Constrains the field to lie in `values`, in order, replacing any
    /// previous predicate.
    pub fn included_in(&mut self, values: Vec<RepoValue>)
        ensures
            final(self)@ == (
                old(self)@.0,
                Some(FilterModel::In(values@.map_values(|v: RepoValue| v@))),
            ),
    {
        self.filter = Some(Filter::In(values));
    }

    /// Constrains the field to lie outside `values`, in order, replacing
    /// any previous predicate.
    pub fn excluded_from(&mut self, values: Vec<RepoValue>)
        ensures
            final(self)@ == (
                old(self)@.0,
                Some(FilterModel::NotIn(values@.map_values(|v: RepoValue| v@))),
            ),
    {
        self.filter = Some(Filter::NotIn(values));
    }

    /// Constrains the field to the range from `value1` to `value2`, in that
    /// order, replacing any previous predicate.
    pub fn between(&mut self, value1: RepoValue, value2: RepoValue)
        ensures
            final(self)@ == (old(self)@.0, Some(FilterModel::Between(value1@, value2@))),
    {
        self.filter = Some(Filter::Between(value1, value2));
    }

    /// An immutable snapshot pairing the field name with the current
    /// predicate, or nothing while unconstrained.
    pub fn to_named_filter(&self) -> (r: Option<NamedFilter>)
        ensures
            (match self@.1 {
                Some(fm) => r matches Some(nf) && nf@ == (self@.0, fm),
                None => r is None,
            }),
    {
        match &self.filter {
            Some(f) => Some(NamedFilter::new(self.name, f.clone())),
            None => None,
        }
    }
}

impl Clone for NamedFilterHolder {
    /// A clone denotes the same field and predicate state.
    fn clone(&self) -> (r: Self)
        ensures
            r@ == self@,
    {
        NamedFilterHolder {
            name: self.name,
            filter: match &self.filter {
                Some(f) => Some(f.clone()),
                None => None,
            },
        }
    }
}

} // verus!

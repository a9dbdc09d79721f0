//! The named-marker binding strategy: placeholder text that names each
//! parameter after its field (`field=:field`, `:field_in_0`, ...) and a
//! parameter list keyed by those same marker names, produced by one and
//! the same traversal so text order and parameter order cannot drift.

use vstd::prelude::*;

use crate::filter::{Filter, FilterModel};
use crate::sql_filter::{FilterEntryModel, SqlFilter};
use crate::sql_updates::SqlUpdates;
use crate::sql_values::{SqlValues, ValueEntryModel};
use crate::text::{
    lemma_count_char_absent, lemma_count_char_concat, lemma_count_char_unit,
    lemma_count_join_single, lemma_dec_nat_parses_back, lemma_join_step, spec_count_char,
    spec_dec_nat, spec_digit_val, spec_join, u64_to_string,
};
use crate::value::{RepoValue, ValueModel};

verus! {

/// The marker name for element `i` of a membership test on `name`:
/// `{name}_in_{i}`.
pub open spec fn spec_in_key(name: Seq<char>, i: int) -> Seq<char> {
    name + seq!['_', 'i', 'n', '_'] + spec_dec_nat(i as nat)
}

/// The marker name for element `i` of an exclusion test on `name`:
/// `{name}_not_in_{i}`.
pub open spec fn spec_not_in_key(name: Seq<char>, i: int) -> Seq<char> {
    name + seq!['_', 'n', 'o', 't', '_', 'i', 'n', '_'] + spec_dec_nat(i as nat)
}

/// The marker name for the low bound of a range on `name`:
/// `{name}_between_0`.
pub open spec fn spec_between_low_key(name: Seq<char>) -> Seq<char> {
    name + seq!['_', 'b', 'e', 't', 'w', 'e', 'e', 'n', '_', '0']
}

/// The marker name for the high bound of a range on `name`:
/// `{name}_between_1`.
pub open spec fn spec_between_high_key(name: Seq<char>) -> Seq<char> {
    name + seq!['_', 'b', 'e', 't', 'w', 'e', 'e', 'n', '_', '1']
}

/// The named parameters one predicate contributes, in the order its
/// markers appear in the placeholder text: one parameter keyed by the
/// field name for a plain comparison, one per element for a membership
/// test, and low before high for a range.
pub open spec fn spec_named_params_of(name: Seq<char>, f: FilterModel) -> Seq<ValueEntryModel> {
    match f {
        FilterModel::Equal(v) => seq![(name, v)],
        FilterModel::Not(v) => seq![(name, v)],
        FilterModel::LessorThan(v) => seq![(name, v)],
        FilterModel::EqualOrLessorThan(v) => seq![(name, v)],
        FilterModel::GreaterThan(v) => seq![(name, v)],
        FilterModel::EqualOrGreaterThan(v) => seq![(name, v)],
        FilterModel::In(vs) => Seq::new(vs.len(), |i: int| (spec_in_key(name, i), vs[i])),
        FilterModel::NotIn(vs) => Seq::new(vs.len(), |i: int| (spec_not_in_key(name, i), vs[i])),
        FilterModel::Between(a, b) => seq![
            (spec_between_low_key(name), a),
            (spec_between_high_key(name), b),
        ],
    }
}

/// The named parameters a whole predicate set contributes: each member's
/// parameters in insertion order.
pub open spec fn spec_filter_named_params(members: Seq<FilterEntryModel>) -> Seq<ValueEntryModel>
    decreases members.len(),
{
    if members.len() == 0 {
        Seq::empty()
    } else {
        spec_filter_named_params(members.drop_last()) + spec_named_params_of(
            members.last().0,
            members.last().1,
        )
    }
}

/// The marker names one predicate writes into the placeholder text, in
/// text order.
pub open spec fn spec_named_markers_of(name: Seq<char>, f: FilterModel) -> Seq<Seq<char>> {
    match f {
        FilterModel::Equal(v) => seq![name],
        FilterModel::Not(v) => seq![name],
        FilterModel::LessorThan(v) => seq![name],
        FilterModel::EqualOrLessorThan(v) => seq![name],
        FilterModel::GreaterThan(v) => seq![name],
        FilterModel::EqualOrGreaterThan(v) => seq![name],
        FilterModel::In(vs) => Seq::new(vs.len(), |i: int| spec_in_key(name, i)),
        FilterModel::NotIn(vs) => Seq::new(vs.len(), |i: int| spec_not_in_key(name, i)),
        FilterModel::Between(a, b) => seq![
            spec_between_low_key(name),
            spec_between_high_key(name),
        ],
    }
}

/// The marker names a whole predicate set writes, in text order.
pub open spec fn spec_filter_marker_names(members: Seq<FilterEntryModel>) -> Seq<Seq<char>>
    decreases members.len(),
{
    if members.len() == 0 {
        Seq::empty()
    } else {
        spec_filter_marker_names(members.drop_last()) + spec_named_markers_of(
            members.last().0,
            members.last().1,
        )
    }
}

/// The placeholder text one predicate contributes under named markers.
pub open spec fn spec_named_holder(name: Seq<char>, f: FilterModel) -> Seq<char> {
    match f {
        FilterModel::Equal(v) => name + seq!['=', ':'] + name,
        FilterModel::Not(v) => name + seq!['<', '>', ':'] + name,
        FilterModel::LessorThan(v) => name + seq!['<', ':'] + name,
        FilterModel::EqualOrLessorThan(v) => name + seq!['<', '=', ':'] + name,
        FilterModel::GreaterThan(v) => name + seq!['>', ':'] + name,
        FilterModel::EqualOrGreaterThan(v) => name + seq!['>', '=', ':'] + name,
        FilterModel::In(vs) => name + seq![' ', 'I', 'N', ' ', '('] + spec_join(
            Seq::new(vs.len(), |i: int| seq![':'] + spec_in_key(name, i)),
            seq![',', ' '],
        ) + seq![')'],
        FilterModel::NotIn(vs) => name + seq![' ', 'N', 'O', 'T', ' ', 'I', 'N', ' ', '(']
            + spec_join(
            Seq::new(vs.len(), |i: int| seq![':'] + spec_not_in_key(name, i)),
            seq![',', ' '],
        ) + seq![')'],
        FilterModel::Between(a, b) => name + seq![' ', 'B', 'E', 'T', 'W', 'E', 'E', 'N', ' ']
            + seq![':'] + spec_between_low_key(name) + seq![' ', 'A', 'N', 'D', ' '] + seq![':']
            + spec_between_high_key(name),
    }
}

/// The whole placeholder text under named markers: each member's piece,
/// in insertion order, joined with `" AND "`.
pub open spec fn spec_named_holder_text(members: Seq<FilterEntryModel>) -> Seq<char> {
    spec_join(
        members.map_values(|m: FilterEntryModel| spec_named_holder(m.0, m.1)),
        seq![' ', 'A', 'N', 'D', ' '],
    )
}

/// The spec-level view of an assembled parameter list.
pub open spec fn spec_pairs_view(pairs: Seq<(String, RepoValue)>) -> Seq<ValueEntryModel> {
    pairs.map_values(|p: (String, RepoValue)| (p.0@, p.1@))
}

/// Appending one pair appends its view to the list's view.
proof fn lemma_pairs_view_push(pairs: Seq<(String, RepoValue)>, p: (String, RepoValue))
    ensures
        spec_pairs_view(pairs.push(p)) == spec_pairs_view(pairs).push((p.0@, p.1@)),
{
    let f = |q: (String, RepoValue)| (q.0@, q.1@);
    pairs.lemma_push_map_commute(f, p);
    assert(spec_pairs_view(pairs.push(p)) =~= spec_pairs_view(pairs).push((p.0@, p.1@)));
}

/// Appends one (key, value) parameter, cloning the value.
fn push_pair(out: &mut Vec<(String, RepoValue)>, key: String, value: &RepoValue)
    ensures
        spec_pairs_view(final(out)@) == spec_pairs_view(old(out)@).push((key@, value@)),
{
    let ghost out0 = out@;
    let cloned = value.clone();
    let pair = (key, cloned);
    let ghost p = pair;
    out.push(pair);
    proof {
        lemma_pairs_view_push(out0, p);
    }
}

/// Unfolds one step of `spec_filter_named_params` over a growing prefix.
proof fn lemma_named_params_step(members: Seq<FilterEntryModel>, i: int)
    requires
        0 <= i < members.len(),
    ensures
        spec_filter_named_params(members.take(i + 1)) == spec_filter_named_params(members.take(i))
            + spec_named_params_of(members[i].0, members[i].1),
{
    let grown = members.take(i + 1);
    assert(grown.drop_last() =~= members.take(i));
    assert(grown.last() == members[i]);
}

/// Unfolds one step of `spec_filter_marker_names` over a growing prefix.
proof fn lemma_marker_names_step(members: Seq<FilterEntryModel>, i: int)
    requires
        0 <= i < members.len(),
    ensures
        spec_filter_marker_names(members.take(i + 1)) == spec_filter_marker_names(members.take(i))
            + spec_named_markers_of(members[i].0, members[i].1),
{
    let grown = members.take(i + 1);
    assert(grown.drop_last() =~= members.take(i));
    assert(grown.last() == members[i]);
}

/// Builds the marker name `{name}_in_{i}`.
fn in_key(name: &'static str, i: usize) -> (r: String)
    ensures
        r@ == spec_in_key(name@, i as int),
{
    let mut s = String::from_str(name);
    proof {
        reveal_strlit("_in_");
        assert("_in_"@ =~= seq!['_', 'i', 'n', '_']);
    }
    s.append("_in_");
    let digits = u64_to_string(i as u64);
    s.append(digits.as_str());
    proof {
        assert(s@ =~= spec_in_key(name@, i as int));
    }
    s
}

/// Builds the marker name `{name}_not_in_{i}`.
fn not_in_key(name: &'static str, i: usize) -> (r: String)
    ensures
        r@ == spec_not_in_key(name@, i as int),
{
    let mut s = String::from_str(name);
    proof {
        reveal_strlit("_not_in_");
        assert("_not_in_"@ =~= seq!['_', 'n', 'o', 't', '_', 'i', 'n', '_']);
    }
    s.append("_not_in_");
    let digits = u64_to_string(i as u64);
    s.append(digits.as_str());
    proof {
        assert(s@ =~= spec_not_in_key(name@, i as int));
    }
    s
}

/// Builds the marker name `{name}_between_0`.
fn between_low_key(name: &'static str) -> (r: String)
    ensures
        r@ == spec_between_low_key(name@),
{
    let mut s = String::from_str(name);
    proof {
        reveal_strlit("_between_0");
        assert("_between_0"@ =~= seq!['_', 'b', 'e', 't', 'w', 'e', 'e', 'n', '_', '0']);
    }
    s.append("_between_0");
    s
}

/// Builds the marker name `{name}_between_1`.
fn between_high_key(name: &'static str) -> (r: String)
    ensures
        r@ == spec_between_high_key(name@),
{
    let mut s = String::from_str(name);
    proof {
        reveal_strlit("_between_1");
        assert("_between_1"@ =~= seq!['_', 'b', 'e', 't', 'w', 'e', 'e', 'n', '_', '1']);
    }
    s.append("_between_1");
    s
}

/// Appends `", "`-joined named markers `:{prefix}_0, :{prefix}_1, ...` for
/// indices `0` up to `len`.
pub fn comma_seperated_named_binding_holders(len: usize, prefix: &str) -> (r: String)
    ensures
        r@ == spec_join(
            Seq::new(len as nat, |i: int| seq![':'] + prefix@ + seq!['_'] + spec_dec_nat(i as nat)),
            seq![',', ' '],
        ),
{
    let ghost parts = Seq::new(
        len as nat,
        |i: int| seq![':'] + prefix@ + seq!['_'] + spec_dec_nat(i as nat),
    );
    let mut out = String::new();
    let mut i: usize = 0;
    while i < len
        invariant
            0 <= i <= len,
            parts == Seq::new(
                len as nat,
                |i: int| seq![':'] + prefix@ + seq!['_'] + spec_dec_nat(i as nat),
            ),
            out@ == spec_join(parts.take(i as int), seq![',', ' ']),
        decreases len - i,
    {
        if i > 0 {
            proof {
                reveal_strlit(", ");
                assert(", "@ =~= seq![',', ' ']);
            }
            out.append(", ");
        }
        proof {
            reveal_strlit(":");
            assert(":"@ =~= seq![':']);
            reveal_strlit("_");
            assert("_"@ =~= seq!['_']);
        }
        out.append(":");
        out.append(prefix);
        out.append("_");
        let digits = u64_to_string(i as u64);
        out.append(digits.as_str());
        proof {
            lemma_join_step(parts, seq![',', ' '], i as int);
            assert(out@ =~= spec_join(parts.take(i as int + 1), seq![',', ' ']));
        }
        i = i + 1;
    }
    proof {
        assert(parts.take(parts.len() as int) =~= parts);
    }
    out
}

/// The named-marker strategy: matched placeholder text and parameter
/// list for one bindable set.
pub trait MySqlHelper {
    /// The parameter list: marker-name keys paired with the values to
    /// bind, in the same order as the markers appear in the text.
    fn params(&self) -> Vec<(String, RepoValue)>;

    /// The placeholder text, with each parameter referenced by a named
    /// marker.
    fn with_named_binding_holder(&self) -> String;
}

impl MySqlHelper for SqlFilter {
    fn params(&self) -> (r: Vec<(String, RepoValue)>)
        ensures
            spec_pairs_view(r@) == spec_filter_named_params(self@),
    {
        let mut out: Vec<(String, RepoValue)> = Vec::new();
        let mut m: usize = 0;
        proof {
            assert(spec_pairs_view(out@) =~= spec_filter_named_params(self@.take(0)));
        }
        while m < self.len()
            invariant
                0 <= m <= self@.len(),
                spec_pairs_view(out@) == spec_filter_named_params(self@.take(m as int)),
            decreases self@.len() - m,
        {
            let member = self.get(m);
            let name = member.name();
            let ghost entry = self@[m as int];
            match member.filter() {
                Filter::Equal(v) => {
                    push_pair(&mut out, String::from_str(name), v);
                    proof {
                        assert(spec_pairs_view(out@) =~= spec_filter_named_params(
                            self@.take(m as int),
                        ) + spec_named_params_of(entry.0, entry.1));
                    }
                },
                Filter::Not(v) => {
                    push_pair(&mut out, String::from_str(name), v);
                    proof {
                        assert(spec_pairs_view(out@) =~= spec_filter_named_params(
                            self@.take(m as int),
                        ) + spec_named_params_of(entry.0, entry.1));
                    }
                },
                Filter::LessorThan(v) => {
                    push_pair(&mut out, String::from_str(name), v);
                    proof {
                        assert(spec_pairs_view(out@) =~= spec_filter_named_params(
                            self@.take(m as int),
                        ) + spec_named_params_of(entry.0, entry.1));
                    }
                },
                Filter::EqualOrLessorThan(v) => {
                    push_pair(&mut out, String::from_str(name), v);
                    proof {
                        assert(spec_pairs_view(out@) =~= spec_filter_named_params(
                            self@.take(m as int),
                        ) + spec_named_params_of(entry.0, entry.1));
                    }
                },
                Filter::GreaterThan(v) => {
                    push_pair(&mut out, String::from_str(name), v);
                    proof {
                        assert(spec_pairs_view(out@) =~= spec_filter_named_params(
                            self@.take(m as int),
                        ) + spec_named_params_of(entry.0, entry.1));
                    }
                },
                Filter::EqualOrGreaterThan(v) => {
                    push_pair(&mut out, String::from_str(name), v);
                    proof {
                        assert(spec_pairs_view(out@) =~= spec_filter_named_params(
                            self@.take(m as int),
                        ) + spec_named_params_of(entry.0, entry.1));
                    }
                },
                Filter::In(vs) => {
                    let ghost vsm = entry.1->In_0;
                    let mut j: usize = 0;
                    while j < vs.len()
                        invariant
                            0 <= j <= vs@.len(),
                            0 <= m < self@.len(),
                            vsm == vs@.map_values(|v: RepoValue| v@),
                            vsm.len() == vs@.len(),
                            entry == self@[m as int],
                            name@ == entry.0,
                            spec_pairs_view(out@) == spec_filter_named_params(
                                self@.take(m as int),
                            ) + Seq::new(j as nat, |i: int| (spec_in_key(entry.0, i), vsm[i])),
                        decreases vs@.len() - j,
                    {
                        push_pair(&mut out, in_key(name, j), &vs[j]);
                        proof {
                            assert(Seq::new(
                                (j + 1) as nat,
                                |i: int| (spec_in_key(entry.0, i), vsm[i]),
                            ) =~= Seq::new(j as nat, |i: int| (spec_in_key(entry.0, i), vsm[i])).push(
                                (spec_in_key(entry.0, j as int), vsm[j as int]),
                            ));
                            assert(spec_pairs_view(out@) =~= spec_filter_named_params(
                                self@.take(m as int),
                            ) + Seq::new((j + 1) as nat, |i: int| (spec_in_key(entry.0, i), vsm[i])));
                        }
                        j = j + 1;
                    }
                    proof {
                        assert(Seq::new(vsm.len(), |i: int| (spec_in_key(entry.0, i), vsm[i]))
                            =~= Seq::new(
                            vs@.len() as nat,
                            |i: int| (spec_in_key(entry.0, i), vsm[i]),
                        ));
                        assert(spec_pairs_view(out@) =~= spec_filter_named_params(
                            self@.take(m as int),
                        ) + spec_named_params_of(entry.0, entry.1));
                    }
                },
                Filter::NotIn(vs) => {
                    let ghost vsm = entry.1->NotIn_0;
                    let mut j: usize = 0;
                    while j < vs.len()
                        invariant
                            0 <= j <= vs@.len(),
                            0 <= m < self@.len(),
                            vsm == vs@.map_values(|v: RepoValue| v@),
                            vsm.len() == vs@.len(),
                            entry == self@[m as int],
                            name@ == entry.0,
                            spec_pairs_view(out@) == spec_filter_named_params(
                                self@.take(m as int),
                            ) + Seq::new(j as nat, |i: int| (spec_not_in_key(entry.0, i), vsm[i])),
                        decreases vs@.len() - j,
                    {
                        push_pair(&mut out, not_in_key(name, j), &vs[j]);
                        proof {
                            assert(Seq::new(
                                (j + 1) as nat,
                                |i: int| (spec_not_in_key(entry.0, i), vsm[i]),
                            ) =~= Seq::new(
                                j as nat,
                                |i: int| (spec_not_in_key(entry.0, i), vsm[i]),
                            ).push((spec_not_in_key(entry.0, j as int), vsm[j as int])));
                            assert(spec_pairs_view(out@) =~= spec_filter_named_params(
                                self@.take(m as int),
                            ) + Seq::new(
                                (j + 1) as nat,
                                |i: int| (spec_not_in_key(entry.0, i), vsm[i]),
                            ));
                        }
                        j = j + 1;
                    }
                    proof {
                        assert(Seq::new(vsm.len(), |i: int| (spec_not_in_key(entry.0, i), vsm[i]))
                            =~= Seq::new(
                            vs@.len() as nat,
                            |i: int| (spec_not_in_key(entry.0, i), vsm[i]),
                        ));
                        assert(spec_pairs_view(out@) =~= spec_filter_named_params(
                            self@.take(m as int),
                        ) + spec_named_params_of(entry.0, entry.1));
                    }
                },
                Filter::Between(a, b) => {
                    push_pair(&mut out, between_low_key(name), a);
                    push_pair(&mut out, between_high_key(name), b);
                    proof {
                        assert(spec_pairs_view(out@) =~= spec_filter_named_params(
                            self@.take(m as int),
                        ) + spec_named_params_of(entry.0, entry.1));
                    }
                },
            }
            proof {
                lemma_named_params_step(self@, m as int);
                assert(spec_pairs_view(out@) == spec_filter_named_params(self@.take(m as int + 1)));
            }
            m = m + 1;
        }
        proof {
            assert(self@.take(self@.len() as int) =~= self@);
        }
        out
    }

    fn with_named_binding_holder(&self) -> (r: String)
        ensures
            r@ == spec_named_holder_text(self@),
    {
        let ghost parts = self@.map_values(|e: FilterEntryModel| spec_named_holder(e.0, e.1));
        let mut out = String::new();
        let mut m: usize = 0;
        while m < self.len()
            invariant
                0 <= m <= self@.len(),
                parts == self@.map_values(|e: FilterEntryModel| spec_named_holder(e.0, e.1)),
                parts.len() == self@.len(),
                out@ == spec_join(parts.take(m as int), seq![' ', 'A', 'N', 'D', ' ']),
            decreases self@.len() - m,
        {
            if m > 0 {
                proof {
                    reveal_strlit(" AND ");
                    assert(" AND "@ =~= seq![' ', 'A', 'N', 'D', ' ']);
                }
                out.append(" AND ");
            }
            let piece = named_holder_piece(self.get(m));
            out.append(piece.as_str());
            proof {
                lemma_join_step(parts, seq![' ', 'A', 'N', 'D', ' '], m as int);
                assert(parts[m as int] == spec_named_holder(self@[m as int].0, self@[m as int].1));
                assert(out@ =~= spec_join(parts.take(m as int + 1), seq![' ', 'A', 'N', 'D', ' ']));
            }
            m = m + 1;
        }
        proof {
            assert(parts.take(parts.len() as int) =~= parts);
        }
        out
    }
}

/// Builds one member's named-marker placeholder piece.
fn named_holder_piece(member: &crate::filter::NamedFilter) -> (r: String)
    ensures
        r@ == spec_named_holder(member@.0, member@.1),
{
    let name = member.name();
    let mut out = String::new();
    out.append(name);
    match member.filter() {
        Filter::Equal(_) => {
            proof {
                reveal_strlit("=:");
                assert("=:"@ =~= seq!['=', ':']);
            }
            out.append("=:");
            out.append(name);
        },
        Filter::Not(_) => {
            proof {
                reveal_strlit("<>:");
                assert("<>:"@ =~= seq!['<', '>', ':']);
            }
            out.append("<>:");
            out.append(name);
        },
        Filter::LessorThan(_) => {
            proof {
                reveal_strlit("<:");
                assert("<:"@ =~= seq!['<', ':']);
            }
            out.append("<:");
            out.append(name);
        },
        Filter::EqualOrLessorThan(_) => {
            proof {
                reveal_strlit("<=:");
                assert("<=:"@ =~= seq!['<', '=', ':']);
            }
            out.append("<=:");
            out.append(name);
        },
        Filter::GreaterThan(_) => {
            proof {
                reveal_strlit(">:");
                assert(">:"@ =~= seq!['>', ':']);
            }
            out.append(">:");
            out.append(name);
        },
        Filter::EqualOrGreaterThan(_) => {
            proof {
                reveal_strlit(">=:");
                assert(">=:"@ =~= seq!['>', '=', ':']);
            }
            out.append(">=:");
            out.append(name);
        },
        Filter::In(vs) => {
            proof {
                reveal_strlit(" IN (");
                assert(" IN ("@ =~= seq![' ', 'I', 'N', ' ', '(']);
                reveal_strlit(")");
                assert(")"@ =~= seq![')']);
                reveal_strlit("_in");
                assert("_in"@ =~= seq!['_', 'i', 'n']);
            }
            out.append(" IN (");
            let mut prefix = String::from_str(name);
            prefix.append("_in");
            let holders = comma_seperated_named_binding_holders(vs.len(), prefix.as_str());
            out.append(holders.as_str());
            out.append(")");
            proof {
                let vsm = member@.1->In_0;
                assert(Seq::new(
                    vs@.len() as nat,
                    |i: int| seq![':'] + prefix@ + seq!['_'] + spec_dec_nat(i as nat),
                ) =~~= Seq::new(vsm.len(), |i: int| seq![':'] + spec_in_key(member@.0, i)));
            }
        },
        Filter::NotIn(vs) => {
            proof {
                reveal_strlit(" NOT IN (");
                assert(" NOT IN ("@ =~= seq![' ', 'N', 'O', 'T', ' ', 'I', 'N', ' ', '(']);
                reveal_strlit(")");
                assert(")"@ =~= seq![')']);
                reveal_strlit("_not_in");
                assert("_not_in"@ =~= seq!['_', 'n', 'o', 't', '_', 'i', 'n']);
            }
            out.append(" NOT IN (");
            let mut prefix = String::from_str(name);
            prefix.append("_not_in");
            let holders = comma_seperated_named_binding_holders(vs.len(), prefix.as_str());
            out.append(holders.as_str());
            out.append(")");
            proof {
                let vsm = member@.1->NotIn_0;
                assert(Seq::new(
                    vs@.len() as nat,
                    |i: int| seq![':'] + prefix@ + seq!['_'] + spec_dec_nat(i as nat),
                ) =~~= Seq::new(vsm.len(), |i: int| seq![':'] + spec_not_in_key(member@.0, i)));
            }
        },
        Filter::Between(_, _) => {
            proof {
                reveal_strlit(" BETWEEN :");
                assert(" BETWEEN :"@ =~= seq![' ', 'B', 'E', 'T', 'W', 'E', 'E', 'N', ' ', ':']);
                reveal_strlit(" AND :");
                assert(" AND :"@ =~= seq![' ', 'A', 'N', 'D', ' ', ':']);
            }
            out.append(" BETWEEN :");
            let low = between_low_key(name);
            out.append(low.as_str());
            out.append(" AND :");
            let high = between_high_key(name);
            out.append(high.as_str());
        },
    }
    proof {
        assert(out@ =~= spec_named_holder(member@.0, member@.1));
    }
    out
}

impl MySqlHelper for SqlValues {
    /// For a plain value set, parameters are keyed by field name directly.
    fn params(&self) -> (r: Vec<(String, RepoValue)>)
        ensures
            spec_pairs_view(r@) == self@,
    {
        let mut out: Vec<(String, RepoValue)> = Vec::new();
        let mut i: usize = 0;
        proof {
            assert(spec_pairs_view(out@) =~= self@.take(0));
        }
        while i < self.len()
            invariant
                0 <= i <= self@.len(),
                spec_pairs_view(out@) == self@.take(i as int),
            decreases self@.len() - i,
        {
            let entry = self.get(i);
            push_pair(&mut out, String::from_str(entry.0), &entry.1);
            proof {
                assert(spec_pairs_view(out@) =~= self@.take(i as int + 1));
            }
            i = i + 1;
        }
        proof {
            assert(self@.take(self@.len() as int) =~= self@);
        }
        out
    }

    fn with_named_binding_holder(&self) -> (r: String)
        ensures
            r@ == spec_values_named_holder_text(self@),
    {
        let ghost parts = self@.map_values(|e: ValueEntryModel| e.0 + seq!['=', ':'] + e.0);
        let mut out = String::new();
        let mut i: usize = 0;
        while i < self.len()
            invariant
                0 <= i <= self@.len(),
                parts == self@.map_values(|e: ValueEntryModel| e.0 + seq!['=', ':'] + e.0),
                parts.len() == self@.len(),
                out@ == spec_join(parts.take(i as int), seq![',', ' ']),
            decreases self@.len() - i,
        {
            if i > 0 {
                proof {
                    reveal_strlit(", ");
                    assert(", "@ =~= seq![',', ' ']);
                }
                out.append(", ");
            }
            let entry = self.get(i);
            out.append(entry.0);
            proof {
                reveal_strlit("=:");
                assert("=:"@ =~= seq!['=', ':']);
            }
            out.append("=:");
            out.append(entry.0);
            proof {
                lemma_join_step(parts, seq![',', ' '], i as int);
                assert(out@ =~= spec_join(parts.take(i as int + 1), seq![',', ' ']));
            }
            i = i + 1;
        }
        proof {
            assert(parts.take(parts.len() as int) =~= parts);
        }
        out
    }
}

/// The named-marker placeholder text of a value set: `field=:field`
/// fragments joined with `", "`, in insertion order.
pub open spec fn spec_values_named_holder_text(entries: Seq<ValueEntryModel>) -> Seq<char> {
    spec_join(entries.map_values(|e: ValueEntryModel| e.0 + seq!['=', ':'] + e.0), seq![',', ' '])
}

impl MySqlHelper for SqlUpdates {
    /// A patch binds exactly as its value-set view does.
    fn params(&self) -> (r: Vec<(String, RepoValue)>)
        ensures
            spec_pairs_view(r@) == self@,
    {
        self.dataset().params()
    }

    fn with_named_binding_holder(&self) -> (r: String)
        ensures
            r@ == spec_values_named_holder_text(self@),
    {
        self.dataset().with_named_binding_holder()
    }
}

/// Binding a membership test with the named strategy produces exactly one
/// parameter per element, keyed `{field}_in_0 .. {field}_in_{n-1}`, in the
/// elements' order.
pub proof fn lemma_named_in_params(name: Seq<char>, vs: Seq<ValueModel>)
    ensures
        spec_named_params_of(name, FilterModel::In(vs)).len() == vs.len(),
        forall|i: int|
            0 <= i < vs.len() ==> spec_named_params_of(name, FilterModel::In(vs))[i] == (
                spec_in_key(name, i),
                vs[i],
            ),
{
}

/// A range always binds its low bound before its high bound, whatever
/// their numeric order, under the `_between_0` and `_between_1` keys.
pub proof fn lemma_named_between_order(name: Seq<char>, a: ValueModel, b: ValueModel)
    ensures
        spec_named_params_of(name, FilterModel::Between(a, b)) == seq![
            (spec_between_low_key(name), a),
            (spec_between_high_key(name), b),
        ],
{
}

/// The marker names in the placeholder text and the keys of the parameter
/// list agree one to one, in order: the n-th marker of the text names the
/// n-th produced parameter.
pub proof fn lemma_named_markers_match_params(members: Seq<FilterEntryModel>)
    ensures
        spec_filter_marker_names(members) == spec_filter_named_params(members).map_values(
            |p: ValueEntryModel| p.0,
        ),
    decreases members.len(),
{
    if members.len() == 0 {
        assert(spec_filter_marker_names(members) =~= spec_filter_named_params(members).map_values(
            |p: ValueEntryModel| p.0,
        ));
    } else {
        lemma_named_markers_match_params(members.drop_last());
        let name = members.last().0;
        let f = members.last().1;
        assert(spec_named_markers_of(name, f) =~= spec_named_params_of(name, f).map_values(
            |p: ValueEntryModel| p.0,
        ));
        assert(spec_filter_marker_names(members) =~= spec_filter_named_params(members).map_values(
            |p: ValueEntryModel| p.0,
        ));
    }
}

/// A decimal rendering holds no marker lead-in character.
proof fn lemma_dec_nat_no_colon(n: nat)
    ensures
        spec_count_char(spec_dec_nat(n), ':') == 0,
{
    lemma_dec_nat_parses_back(n);
    assert(spec_digit_val(':') < 0);
    assert(forall|i: int| 0 <= i < spec_dec_nat(n).len() ==> #[trigger] spec_dec_nat(n)[i] != ':');
    lemma_count_char_absent(spec_dec_nat(n), ':');
}

/// A membership-test marker name is free of the lead-in character when
/// the field name is.
proof fn lemma_in_key_no_colon(name: Seq<char>, i: int)
    requires
        spec_count_char(name, ':') == 0,
    ensures
        spec_count_char(spec_in_key(name, i), ':') == 0,
        spec_count_char(spec_not_in_key(name, i), ':') == 0,
{
    lemma_dec_nat_no_colon(i as nat);
    lemma_count_char_absent(seq!['_', 'i', 'n', '_'], ':');
    lemma_count_char_concat(name, seq!['_', 'i', 'n', '_'], ':');
    lemma_count_char_concat(name + seq!['_', 'i', 'n', '_'], spec_dec_nat(i as nat), ':');
    lemma_count_char_absent(seq!['_', 'n', 'o', 't', '_', 'i', 'n', '_'], ':');
    lemma_count_char_concat(name, seq!['_', 'n', 'o', 't', '_', 'i', 'n', '_'], ':');
    lemma_count_char_concat(
        name + seq!['_', 'n', 'o', 't', '_', 'i', 'n', '_'],
        spec_dec_nat(i as nat),
        ':',
    );
}

/// One named piece holds exactly one `:` marker per parameter the
/// predicate binds — provided the field name holds none itself.
pub proof fn lemma_named_marker_count(name: Seq<char>, f: FilterModel)
    requires
        spec_count_char(name, ':') == 0,
    ensures
        spec_count_char(spec_named_holder(name, f), ':') == spec_named_params_of(name, f).len(),
{
    lemma_count_char_unit(':', ':');
    match f {
        FilterModel::Equal(v) => {
            assert(seq!['=', ':'] =~= seq!['='] + seq![':']);
            lemma_count_char_absent(seq!['='], ':');
            lemma_count_char_concat(seq!['='], seq![':'], ':');
            lemma_count_char_concat(name, seq!['='] + seq![':'], ':');
            lemma_count_char_concat(name + (seq!['='] + seq![':']), name, ':');
        },
        FilterModel::Not(v) => {
            assert(seq!['<', '>', ':'] =~= seq!['<', '>'] + seq![':']);
            lemma_count_char_absent(seq!['<', '>'], ':');
            lemma_count_char_concat(seq!['<', '>'], seq![':'], ':');
            lemma_count_char_concat(name, seq!['<', '>'] + seq![':'], ':');
            lemma_count_char_concat(name + (seq!['<', '>'] + seq![':']), name, ':');
        },
        FilterModel::LessorThan(v) => {
            assert(seq!['<', ':'] =~= seq!['<'] + seq![':']);
            lemma_count_char_absent(seq!['<'], ':');
            lemma_count_char_concat(seq!['<'], seq![':'], ':');
            lemma_count_char_concat(name, seq!['<'] + seq![':'], ':');
            lemma_count_char_concat(name + (seq!['<'] + seq![':']), name, ':');
        },
        FilterModel::EqualOrLessorThan(v) => {
            assert(seq!['<', '=', ':'] =~= seq!['<', '='] + seq![':']);
            lemma_count_char_absent(seq!['<', '='], ':');
            lemma_count_char_concat(seq!['<', '='], seq![':'], ':');
            lemma_count_char_concat(name, seq!['<', '='] + seq![':'], ':');
            lemma_count_char_concat(name + (seq!['<', '='] + seq![':']), name, ':');
        },
        FilterModel::GreaterThan(v) => {
            assert(seq!['>', ':'] =~= seq!['>'] + seq![':']);
            lemma_count_char_absent(seq!['>'], ':');
            lemma_count_char_concat(seq!['>'], seq![':'], ':');
            lemma_count_char_concat(name, seq!['>'] + seq![':'], ':');
            lemma_count_char_concat(name + (seq!['>'] + seq![':']), name, ':');
        },
        FilterModel::EqualOrGreaterThan(v) => {
            assert(seq!['>', '=', ':'] =~= seq!['>', '='] + seq![':']);
            lemma_count_char_absent(seq!['>', '='], ':');
            lemma_count_char_concat(seq!['>', '='], seq![':'], ':');
            lemma_count_char_concat(name, seq!['>', '='] + seq![':'], ':');
            lemma_count_char_concat(name + (seq!['>', '='] + seq![':']), name, ':');
        },
        FilterModel::In(vs) => {
            let markers = Seq::new(vs.len(), |i: int| seq![':'] + spec_in_key(name, i));
            assert(forall|i: int| 0 <= i < markers.len() ==> spec_count_char(
                #[trigger] markers[i],
                ':',
            ) == 1) by {
                assert forall|i: int| 0 <= i < markers.len() implies spec_count_char(
                    markers[i],
                    ':',
                ) == 1 by {
                    lemma_in_key_no_colon(name, i);
                    lemma_count_char_concat(seq![':'], spec_in_key(name, i), ':');
                }
            }
            lemma_count_char_absent(seq![',', ' '], ':');
            lemma_count_join_single(markers, seq![',', ' '], ':');
            let open_part = name + seq![' ', 'I', 'N', ' ', '('];
            lemma_count_char_absent(seq![' ', 'I', 'N', ' ', '('], ':');
            lemma_count_char_concat(name, seq![' ', 'I', 'N', ' ', '('], ':');
            lemma_count_char_concat(open_part, spec_join(markers, seq![',', ' ']), ':');
            lemma_count_char_absent(seq![')'], ':');
            lemma_count_char_concat(open_part + spec_join(markers, seq![',', ' ']), seq![')'], ':');
        },
        FilterModel::NotIn(vs) => {
            let markers = Seq::new(vs.len(), |i: int| seq![':'] + spec_not_in_key(name, i));
            assert(forall|i: int| 0 <= i < markers.len() ==> spec_count_char(
                #[trigger] markers[i],
                ':',
            ) == 1) by {
                assert forall|i: int| 0 <= i < markers.len() implies spec_count_char(
                    markers[i],
                    ':',
                ) == 1 by {
                    lemma_in_key_no_colon(name, i);
                    lemma_count_char_concat(seq![':'], spec_not_in_key(name, i), ':');
                }
            }
            lemma_count_char_absent(seq![',', ' '], ':');
            lemma_count_join_single(markers, seq![',', ' '], ':');
            let open_part = name + seq![' ', 'N', 'O', 'T', ' ', 'I', 'N', ' ', '('];
            lemma_count_char_absent(seq![' ', 'N', 'O', 'T', ' ', 'I', 'N', ' ', '('], ':');
            lemma_count_char_concat(name, seq![' ', 'N', 'O', 'T', ' ', 'I', 'N', ' ', '('], ':');
            lemma_count_char_concat(open_part, spec_join(markers, seq![',', ' ']), ':');
            lemma_count_char_absent(seq![')'], ':');
            lemma_count_char_concat(open_part + spec_join(markers, seq![',', ' ']), seq![')'], ':');
        },
        FilterModel::Between(a, b) => {
            let low = spec_between_low_key(name);
            let high = spec_between_high_key(name);
            lemma_count_char_absent(seq!['_', 'b', 'e', 't', 'w', 'e', 'e', 'n', '_', '0'], ':');
            lemma_count_char_concat(
                name,
                seq!['_', 'b', 'e', 't', 'w', 'e', 'e', 'n', '_', '0'],
                ':',
            );
            lemma_count_char_absent(seq!['_', 'b', 'e', 't', 'w', 'e', 'e', 'n', '_', '1'], ':');
            lemma_count_char_concat(
                name,
                seq!['_', 'b', 'e', 't', 'w', 'e', 'e', 'n', '_', '1'],
                ':',
            );
            let part1 = name + seq![' ', 'B', 'E', 'T', 'W', 'E', 'E', 'N', ' '];
            lemma_count_char_absent(seq![' ', 'B', 'E', 'T', 'W', 'E', 'E', 'N', ' '], ':');
            lemma_count_char_concat(name, seq![' ', 'B', 'E', 'T', 'W', 'E', 'E', 'N', ' '], ':');
            lemma_count_char_concat(part1, seq![':'], ':');
            lemma_count_char_concat(part1 + seq![':'], low, ':');
            lemma_count_char_absent(seq![' ', 'A', 'N', 'D', ' '], ':');
            lemma_count_char_concat(part1 + seq![':'] + low, seq![' ', 'A', 'N', 'D', ' '], ':');
            lemma_count_char_concat(
                part1 + seq![':'] + low + seq![' ', 'A', 'N', 'D', ' '],
                seq![':'],
                ':',
            );
            lemma_count_char_concat(
                part1 + seq![':'] + low + seq![' ', 'A', 'N', 'D', ' '] + seq![':'],
                high,
                ':',
            );
        },
    }
}

/// The named analogue of the one correctness hazard, discharged: the
/// placeholder text holds exactly one `:` marker per produced parameter,
/// so the n-th marker in the text corresponds to the n-th parameter —
/// provided no field name holds a `:` itself.
pub proof fn lemma_named_text_matches_params(members: Seq<FilterEntryModel>)
    requires
        forall|i: int| 0 <= i < members.len() ==> spec_count_char(#[trigger] members[i].0, ':')
            == 0,
    ensures
        spec_count_char(spec_named_holder_text(members), ':') == spec_filter_named_params(
            members,
        ).len(),
    decreases members.len(),
{
    let parts = members.map_values(|m: FilterEntryModel| spec_named_holder(m.0, m.1));
    if members.len() == 0 {
    } else if members.len() == 1 {
        lemma_named_marker_count(members[0].0, members[0].1);
        assert(spec_named_holder_text(members) == parts[0]);
        assert(members.drop_last() =~= Seq::<FilterEntryModel>::empty());
        assert(spec_filter_named_params(Seq::<FilterEntryModel>::empty())
            =~= Seq::<ValueEntryModel>::empty());
        assert(spec_filter_named_params(members) =~= spec_named_params_of(
            members[0].0,
            members[0].1,
        ));
    } else {
        let shorter = members.drop_last();
        assert(forall|i: int|
            0 <= i < shorter.len() ==> #[trigger] shorter[i] == members[i]);
        lemma_named_text_matches_params(shorter);
        lemma_named_marker_count(members.last().0, members.last().1);
        let shorter_parts = shorter.map_values(|m: FilterEntryModel| spec_named_holder(m.0, m.1));
        assert(parts.drop_last() =~= shorter_parts);
        assert(parts.last() == spec_named_holder(members.last().0, members.last().1));
        let joined_shorter = spec_join(shorter_parts, seq![' ', 'A', 'N', 'D', ' ']);
        assert(spec_named_holder_text(members) == joined_shorter + seq![' ', 'A', 'N', 'D', ' ']
            + parts.last());
        lemma_count_char_concat(joined_shorter, seq![' ', 'A', 'N', 'D', ' '], ':');
        lemma_count_char_concat(joined_shorter + seq![' ', 'A', 'N', 'D', ' '], parts.last(), ':');
        lemma_count_char_absent(seq![' ', 'A', 'N', 'D', ' '], ':');
        assert(members.last() == members[members.len() - 1]);
    }
}

/// The value-set analogue: the `field=:field` text holds exactly one `:`
/// marker per entry, and `params` produces exactly one parameter per
/// entry — provided no field name holds a `:` itself.
pub proof fn lemma_values_named_text_matches_params(entries: Seq<ValueEntryModel>)
    requires
        forall|i: int| 0 <= i < entries.len() ==> spec_count_char(#[trigger] entries[i].0, ':')
            == 0,
    ensures
        spec_count_char(spec_values_named_holder_text(entries), ':') == entries.len(),
{
    let parts = entries.map_values(|e: ValueEntryModel| e.0 + seq!['=', ':'] + e.0);
    assert(forall|i: int| 0 <= i < parts.len() ==> spec_count_char(
        #[trigger] parts[i],
        ':',
    ) == 1) by {
        assert forall|i: int| 0 <= i < parts.len() implies spec_count_char(parts[i], ':')
            == 1 by {
            let name = entries[i].0;
            lemma_count_char_unit(':', ':');
            assert(seq!['=', ':'] =~= seq!['='] + seq![':']);
            lemma_count_char_absent(seq!['='], ':');
            lemma_count_char_concat(seq!['='], seq![':'], ':');
            lemma_count_char_concat(name, seq!['='] + seq![':'], ':');
            lemma_count_char_concat(name + (seq!['='] + seq![':']), name, ':');
            assert(parts[i] == name + seq!['=', ':'] + name);
        }
    }
    lemma_count_char_absent(seq![',', ' '], ':');
    lemma_count_join_single(parts, seq![',', ' '], ':');
}

} // verus!

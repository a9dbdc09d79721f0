//! The positional-marker binding strategy: one generic `?` marker per
//! bound value and an unkeyed parameter sequence, produced by one and the
//! same traversal so that the n-th marker in the text always corresponds
//! to the n-th value in the sequence.

use vstd::prelude::*;

use crate::filter::{Filter, FilterModel};
use crate::sql_filter::{FilterEntryModel, SqlFilter};
use crate::sql_updates::SqlUpdates;
use crate::sql_values::{SqlValues, ValueEntryModel};
use crate::text::{
    lemma_count_char_absent, lemma_count_char_concat, lemma_count_char_unit,
    lemma_count_join_single, lemma_join_step, spec_count_char, spec_join,
};
use crate::value::{RepoValue, ValueModel};

verus! {

/// The placeholder text one predicate contributes under positional
/// markers: its literal template with a `?` in each value position.
pub open spec fn spec_positional_holder(name: Seq<char>, f: FilterModel) -> Seq<char> {
    match f {
        FilterModel::Equal(v) => name + seq!['=', '?'],
        FilterModel::Not(v) => name + seq!['<', '>', '?'],
        FilterModel::LessorThan(v) => name + seq!['<', '?'],
        FilterModel::EqualOrLessorThan(v) => name + seq!['<', '=', '?'],
        FilterModel::GreaterThan(v) => name + seq!['>', '?'],
        FilterModel::EqualOrGreaterThan(v) => name + seq!['>', '=', '?'],
        FilterModel::In(vs) => name + seq![' ', 'I', 'N', ' ', '('] + spec_join(
            Seq::new(vs.len(), |i: int| seq!['?']),
            seq![',', ' '],
        ) + seq![')'],
        FilterModel::NotIn(vs) => name + seq![' ', 'N', 'O', 'T', ' ', 'I', 'N', ' ', '(']
            + spec_join(Seq::new(vs.len(), |i: int| seq!['?']), seq![',', ' ']) + seq![')'],
        FilterModel::Between(a, b) => name + seq![
            ' ',
            'B',
            'E',
            'T',
            'W',
            'E',
            'E',
            'N',
            ' ',
            '?',
            ' ',
            'A',
            'N',
            'D',
            ' ',
            '?',
        ],
    }
}

/// The whole placeholder text under positional markers: each member's
/// piece, in insertion order, joined with `" AND "`.
pub open spec fn spec_positional_text(members: Seq<FilterEntryModel>) -> Seq<char> {
    spec_join(
        members.map_values(|m: FilterEntryModel| spec_positional_holder(m.0, m.1)),
        seq![' ', 'A', 'N', 'D', ' '],
    )
}

/// The values one predicate binds, in the order its markers appear: one
/// for a comparison, the elements in order for a membership test, low
/// then high for a range.
pub open spec fn spec_positional_params_of(f: FilterModel) -> Seq<ValueModel> {
    match f {
        FilterModel::Equal(v) => seq![v],
        FilterModel::Not(v) => seq![v],
        FilterModel::LessorThan(v) => seq![v],
        FilterModel::EqualOrLessorThan(v) => seq![v],
        FilterModel::GreaterThan(v) => seq![v],
        FilterModel::EqualOrGreaterThan(v) => seq![v],
        FilterModel::In(vs) => vs,
        FilterModel::NotIn(vs) => vs,
        FilterModel::Between(a, b) => seq![a, b],
    }
}

/// The values a whole predicate set binds: each member's values in
/// insertion order.
pub open spec fn spec_filter_positional_params(members: Seq<FilterEntryModel>) -> Seq<ValueModel>
    decreases members.len(),
{
    if members.len() == 0 {
        Seq::empty()
    } else {
        spec_filter_positional_params(members.drop_last()) + spec_positional_params_of(
            members.last().1,
        )
    }
}

/// The spec-level view of an assembled value sequence.
pub open spec fn spec_values_view(vs: Seq<RepoValue>) -> Seq<ValueModel> {
    vs.map_values(|v: RepoValue| v@)
}

/// Appending one value appends its view to the sequence's view.
proof fn lemma_values_view_push(vs: Seq<RepoValue>, v: RepoValue)
    ensures
        spec_values_view(vs.push(v)) == spec_values_view(vs).push(v@),
{
    let f = |q: RepoValue| q@;
    vs.lemma_push_map_commute(f, v);
    assert(spec_values_view(vs.push(v)) =~= spec_values_view(vs).push(v@));
}

/// Appends one value to a parameter sequence, cloning it.
fn push_value(out: &mut Vec<RepoValue>, value: &RepoValue)
    ensures
        spec_values_view(final(out)@) == spec_values_view(old(out)@).push(value@),
{
    let ghost out0 = out@;
    let cloned = value.clone();
    let ghost c = cloned;
    out.push(cloned);
    proof {
        lemma_values_view_push(out0, c);
    }
}

/// Unfolds one step of `spec_filter_positional_params` over a growing
/// prefix.
proof fn lemma_positional_params_step(members: Seq<FilterEntryModel>, i: int)
    requires
        0 <= i < members.len(),
    ensures
        spec_filter_positional_params(members.take(i + 1)) == spec_filter_positional_params(
            members.take(i),
        ) + spec_positional_params_of(members[i].1),
{
    let grown = members.take(i + 1);
    assert(grown.drop_last() =~= members.take(i));
    assert(grown.last() == members[i]);
}

/// An operator text without markers followed by one marker counts one.
proof fn lemma_count_op_marker(op: Seq<char>)
    requires
        forall|i: int| 0 <= i < op.len() ==> op[i] != '?',
    ensures
        spec_count_char(op + seq!['?'], '?') == 1,
{
    lemma_count_char_absent(op, '?');
    lemma_count_char_unit('?', '?');
    lemma_count_char_concat(op, seq!['?'], '?');
}

/// Appends `", "`-joined generic markers `?, ?, ...`, `len` of them.
pub fn comma_seperated_binding_holders(len: usize) -> (r: String)
    ensures
        r@ == spec_join(Seq::new(len as nat, |i: int| seq!['?']), seq![',', ' ']),
{
    let ghost parts = Seq::new(len as nat, |i: int| seq!['?']);
    let mut out = String::new();
    let mut i: usize = 0;
    while i < len
        invariant
            0 <= i <= len,
            parts == Seq::new(len as nat, |i: int| seq!['?']),
            out@ == spec_join(parts.take(i as int), seq![',', ' ']),
        decreases len - i,
    {
        if i > 0 {
            proof {
                reveal_strlit(", ");
                assert(", "@ =~= seq![',', ' ']);
            }
            out.append(", ");
        }
        proof {
            reveal_strlit("?");
            assert("?"@ =~= seq!['?']);
        }
        out.append("?");
        proof {
            lemma_join_step(parts, seq![',', ' '], i as int);
            assert(out@ =~= spec_join(parts.take(i as int + 1), seq![',', ' ']));
        }
        i = i + 1;
    }
    proof {
        assert(parts.take(parts.len() as int) =~= parts);
    }
    out
}

/// The positional-marker strategy: placeholder text whose markers carry
/// no field name, matched solely by position.
pub trait SqlxHelper {
    /// The placeholder text, with one generic marker per bound value.
    fn with_binding_holder(&self) -> String;
}

/// Builds one member's positional placeholder piece.
fn positional_holder_piece(member: &crate::filter::NamedFilter) -> (r: String)
    ensures
        r@ == spec_positional_holder(member@.0, member@.1),
{
    let name = member.name();
    let mut out = String::new();
    out.append(name);
    match member.filter() {
        Filter::Equal(_) => {
            proof {
                reveal_strlit("=?");
                assert("=?"@ =~= seq!['=', '?']);
            }
            out.append("=?");
        },
        Filter::Not(_) => {
            proof {
                reveal_strlit("<>?");
                assert("<>?"@ =~= seq!['<', '>', '?']);
            }
            out.append("<>?");
        },
        Filter::LessorThan(_) => {
            proof {
                reveal_strlit("<?");
                assert("<?"@ =~= seq!['<', '?']);
            }
            out.append("<?");
        },
        Filter::EqualOrLessorThan(_) => {
            proof {
                reveal_strlit("<=?");
                assert("<=?"@ =~= seq!['<', '=', '?']);
            }
            out.append("<=?");
        },
        Filter::GreaterThan(_) => {
            proof {
                reveal_strlit(">?");
                assert(">?"@ =~= seq!['>', '?']);
            }
            out.append(">?");
        },
        Filter::EqualOrGreaterThan(_) => {
            proof {
                reveal_strlit(">=?");
                assert(">=?"@ =~= seq!['>', '=', '?']);
            }
            out.append(">=?");
        },
        Filter::In(vs) => {
            proof {
                reveal_strlit(" IN (");
                assert(" IN ("@ =~= seq![' ', 'I', 'N', ' ', '(']);
                reveal_strlit(")");
                assert(")"@ =~= seq![')']);
            }
            out.append(" IN (");
            let holders = comma_seperated_binding_holders(vs.len());
            out.append(holders.as_str());
            out.append(")");
            proof {
                let vsm = member@.1->In_0;
                assert(Seq::new(vs@.len() as nat, |i: int| seq!['?']) =~~= Seq::new(
                    vsm.len(),
                    |i: int| seq!['?'],
                ));
            }
        },
        Filter::NotIn(vs) => {
            proof {
                reveal_strlit(" NOT IN (");
                assert(" NOT IN ("@ =~= seq![' ', 'N', 'O', 'T', ' ', 'I', 'N', ' ', '(']);
                reveal_strlit(")");
                assert(")"@ =~= seq![')']);
            }
            out.append(" NOT IN (");
            let holders = comma_seperated_binding_holders(vs.len());
            out.append(holders.as_str());
            out.append(")");
            proof {
                let vsm = member@.1->NotIn_0;
                assert(Seq::new(vs@.len() as nat, |i: int| seq!['?']) =~~= Seq::new(
                    vsm.len(),
                    |i: int| seq!['?'],
                ));
            }
        },
        Filter::Between(_, _) => {
            proof {
                reveal_strlit(" BETWEEN ? AND ?");
                assert(" BETWEEN ? AND ?"@ =~= seq![
                    ' ',
                    'B',
                    'E',
                    'T',
                    'W',
                    'E',
                    'E',
                    'N',
                    ' ',
                    '?',
                    ' ',
                    'A',
                    'N',
                    'D',
                    ' ',
                    '?',
                ]);
            }
            out.append(" BETWEEN ? AND ?");
        },
    }
    proof {
        assert(out@ =~= spec_positional_holder(member@.0, member@.1));
    }
    out
}

impl SqlxHelper for SqlFilter {
    fn with_binding_holder(&self) -> (r: String)
        ensures
            r@ == spec_positional_text(self@),
    {
        let ghost parts = self@.map_values(|e: FilterEntryModel| spec_positional_holder(e.0, e.1));
        let mut out = String::new();
        let mut m: usize = 0;
        while m < self.len()
            invariant
                0 <= m <= self@.len(),
                parts == self@.map_values(|e: FilterEntryModel| spec_positional_holder(e.0, e.1)),
                parts.len() == self@.len(),
                out@ == spec_join(parts.take(m as int), seq![' ', 'A', 'N', 'D', ' ']),
            decreases self@.len() - m,
        {
            if m > 0 {
                proof {
                    reveal_strlit(" AND ");
                    assert(" AND "@ =~= seq![' ', 'A', 'N', 'D', ' ']);
                }
                out.append(" AND ");
            }
            let piece = positional_holder_piece(self.get(m));
            out.append(piece.as_str());
            proof {
                lemma_join_step(parts, seq![' ', 'A', 'N', 'D', ' '], m as int);
                assert(parts[m as int] == spec_positional_holder(
                    self@[m as int].0,
                    self@[m as int].1,
                ));
                assert(out@ =~= spec_join(parts.take(m as int + 1), seq![' ', 'A', 'N', 'D', ' ']));
            }
            m = m + 1;
        }
        proof {
            assert(parts.take(parts.len() as int) =~= parts);
        }
        out
    }
}

/// The positional placeholder text of a value set: `field=?` fragments
/// joined with `", "`, in insertion order.
pub open spec fn spec_values_positional_holder_text(entries: Seq<ValueEntryModel>) -> Seq<char> {
    spec_join(entries.map_values(|e: ValueEntryModel| e.0 + seq!['=', '?']), seq![',', ' '])
}

impl SqlxHelper for SqlValues {
    fn with_binding_holder(&self) -> (r: String)
        ensures
            r@ == spec_values_positional_holder_text(self@),
    {
        let ghost parts = self@.map_values(|e: ValueEntryModel| e.0 + seq!['=', '?']);
        let mut out = String::new();
        let mut i: usize = 0;
        while i < self.len()
            invariant
                0 <= i <= self@.len(),
                parts == self@.map_values(|e: ValueEntryModel| e.0 + seq!['=', '?']),
                parts.len() == self@.len(),
                out@ == spec_join(parts.take(i as int), seq![',', ' ']),
            decreases self@.len() - i,
        {
            if i > 0 {
                proof {
                    reveal_strlit(", ");
                    assert(", "@ =~= seq![',', ' ']);
                }
                out.append(", ");
            }
            let entry = self.get(i);
            out.append(entry.0);
            proof {
                reveal_strlit("=?");
                assert("=?"@ =~= seq!['=', '?']);
            }
            out.append("=?");
            proof {
                lemma_join_step(parts, seq![',', ' '], i as int);
                assert(out@ =~= spec_join(parts.take(i as int + 1), seq![',', ' ']));
            }
            i = i + 1;
        }
        proof {
            assert(parts.take(parts.len() as int) =~= parts);
        }
        out
    }
}

impl SqlxHelper for SqlUpdates {
    /// A patch binds exactly as its value-set view does.
    fn with_binding_holder(&self) -> (r: String)
        ensures
            r@ == spec_values_positional_holder_text(self@),
    {
        self.dataset().with_binding_holder()
    }
}

impl SqlFilter {
    /// The values to bind, in exactly the order the positional markers
    /// appear in `with_binding_holder`'s text; correctness of a prepared
    /// statement depends on using both outputs of this one traversal.
    pub fn positional_params(&self) -> (r: Vec<RepoValue>)
        ensures
            spec_values_view(r@) == spec_filter_positional_params(self@),
    {
        let mut out: Vec<RepoValue> = Vec::new();
        let mut m: usize = 0;
        proof {
            assert(spec_values_view(out@) =~= spec_filter_positional_params(self@.take(0)));
        }
        while m < self.len()
            invariant
                0 <= m <= self@.len(),
                spec_values_view(out@) == spec_filter_positional_params(self@.take(m as int)),
            decreases self@.len() - m,
        {
            let member = self.get(m);
            let ghost entry = self@[m as int];
            match member.filter() {
                Filter::Equal(v) => {
                    push_value(&mut out, v);
                    proof {
                        assert(spec_values_view(out@) =~= spec_filter_positional_params(
                            self@.take(m as int),
                        ) + spec_positional_params_of(entry.1));
                    }
                },
                Filter::Not(v) => {
                    push_value(&mut out, v);
                    proof {
                        assert(spec_values_view(out@) =~= spec_filter_positional_params(
                            self@.take(m as int),
                        ) + spec_positional_params_of(entry.1));
                    }
                },
                Filter::LessorThan(v) => {
                    push_value(&mut out, v);
                    proof {
                        assert(spec_values_view(out@) =~= spec_filter_positional_params(
                            self@.take(m as int),
                        ) + spec_positional_params_of(entry.1));
                    }
                },
                Filter::EqualOrLessorThan(v) => {
                    push_value(&mut out, v);
                    proof {
                        assert(spec_values_view(out@) =~= spec_filter_positional_params(
                            self@.take(m as int),
                        ) + spec_positional_params_of(entry.1));
                    }
                },
                Filter::GreaterThan(v) => {
                    push_value(&mut out, v);
                    proof {
                        assert(spec_values_view(out@) =~= spec_filter_positional_params(
                            self@.take(m as int),
                        ) + spec_positional_params_of(entry.1));
                    }
                },
                Filter::EqualOrGreaterThan(v) => {
                    push_value(&mut out, v);
                    proof {
                        assert(spec_values_view(out@) =~= spec_filter_positional_params(
                            self@.take(m as int),
                        ) + spec_positional_params_of(entry.1));
                    }
                },
                Filter::In(vs) => {
                    let ghost vsm = entry.1->In_0;
                    let mut j: usize = 0;
                    while j < vs.len()
                        invariant
                            0 <= j <= vs@.len(),
                            0 <= m < self@.len(),
                            vsm == vs@.map_values(|v: RepoValue| v@),
                            vsm.len() == vs@.len(),
                            entry == self@[m as int],
                            spec_values_view(out@) == spec_filter_positional_params(
                                self@.take(m as int),
                            ) + vsm.take(j as int),
                        decreases vs@.len() - j,
                    {
                        push_value(&mut out, &vs[j]);
                        proof {
                            assert(vsm.take(j as int + 1) =~= vsm.take(j as int).push(
                                vsm[j as int],
                            ));
                            assert(spec_values_view(out@) =~= spec_filter_positional_params(
                                self@.take(m as int),
                            ) + vsm.take(j as int + 1));
                        }
                        j = j + 1;
                    }
                    proof {
                        assert(vsm.take(vsm.len() as int) =~= vsm);
                        assert(spec_values_view(out@) =~= spec_filter_positional_params(
                            self@.take(m as int),
                        ) + spec_positional_params_of(entry.1));
                    }
                },
                Filter::NotIn(vs) => {
                    let ghost vsm = entry.1->NotIn_0;
                    let mut j: usize = 0;
                    while j < vs.len()
                        invariant
                            0 <= j <= vs@.len(),
                            0 <= m < self@.len(),
                            vsm == vs@.map_values(|v: RepoValue| v@),
                            vsm.len() == vs@.len(),
                            entry == self@[m as int],
                            spec_values_view(out@) == spec_filter_positional_params(
                                self@.take(m as int),
                            ) + vsm.take(j as int),
                        decreases vs@.len() - j,
                    {
                        push_value(&mut out, &vs[j]);
                        proof {
                            assert(vsm.take(j as int + 1) =~= vsm.take(j as int).push(
                                vsm[j as int],
                            ));
                            assert(spec_values_view(out@) =~= spec_filter_positional_params(
                                self@.take(m as int),
                            ) + vsm.take(j as int + 1));
                        }
                        j = j + 1;
                    }
                    proof {
                        assert(vsm.take(vsm.len() as int) =~= vsm);
                        assert(spec_values_view(out@) =~= spec_filter_positional_params(
                            self@.take(m as int),
                        ) + spec_positional_params_of(entry.1));
                    }
                },
                Filter::Between(a, b) => {
                    push_value(&mut out, a);
                    push_value(&mut out, b);
                    proof {
                        assert(spec_values_view(out@) =~= spec_filter_positional_params(
                            self@.take(m as int),
                        ) + spec_positional_params_of(entry.1));
                    }
                },
            }
            proof {
                lemma_positional_params_step(self@, m as int);
                assert(spec_values_view(out@) == spec_filter_positional_params(
                    self@.take(m as int + 1),
                ));
            }
            m = m + 1;
        }
        proof {
            assert(self@.take(self@.len() as int) =~= self@);
        }
        out
    }
}

impl SqlValues {
    /// The values to bind, in entry order, matching the markers of
    /// `with_binding_holder`'s text one to one by position.
    pub fn positional_params(&self) -> (r: Vec<RepoValue>)
        ensures
            spec_values_view(r@) == self@.map_values(|e: ValueEntryModel| e.1),
    {
        let ghost expected = self@.map_values(|e: ValueEntryModel| e.1);
        let mut out: Vec<RepoValue> = Vec::new();
        let mut i: usize = 0;
        proof {
            assert(spec_values_view(out@) =~= expected.take(0));
        }
        while i < self.len()
            invariant
                0 <= i <= self@.len(),
                expected == self@.map_values(|e: ValueEntryModel| e.1),
                expected.len() == self@.len(),
                spec_values_view(out@) == expected.take(i as int),
            decreases self@.len() - i,
        {
            let entry = self.get(i);
            push_value(&mut out, &entry.1);
            proof {
                assert(expected.take(i as int + 1) =~= expected.take(i as int).push(
                    expected[i as int],
                ));
                assert(spec_values_view(out@) =~= expected.take(i as int + 1));
            }
            i = i + 1;
        }
        proof {
            assert(expected.take(expected.len() as int) =~= expected);
        }
        out
    }
}

impl SqlUpdates {
    /// A patch binds exactly as its value-set view does.
    pub fn positional_params(&self) -> (r: Vec<RepoValue>)
        ensures
            spec_values_view(r@) == self@.map_values(|e: ValueEntryModel| e.1),
    {
        self.dataset().positional_params()
    }
}

/// The number of positional markers in the `", "`-join of `n` lone `?`
/// parts is exactly `n`.
proof fn lemma_count_join_markers(n: nat)
    ensures
        spec_count_char(spec_join(Seq::new(n, |i: int| seq!['?']), seq![',', ' ']), '?') == n,
    decreases n,
{
    let parts = Seq::new(n, |i: int| seq!['?']);
    if n == 0 {
    } else if n == 1 {
        assert(spec_join(parts, seq![',', ' ']) == seq!['?']);
        lemma_count_char_unit('?', '?');
    } else {
        lemma_count_join_markers((n - 1) as nat);
        assert(parts.drop_last() =~= Seq::new((n - 1) as nat, |i: int| seq!['?']));
        let shorter = spec_join(parts.drop_last(), seq![',', ' ']);
        assert(spec_join(parts, seq![',', ' ']) == shorter + seq![',', ' '] + parts.last());
        lemma_count_char_concat(shorter, seq![',', ' '], '?');
        lemma_count_char_concat(shorter + seq![',', ' '], parts.last(), '?');
        lemma_count_char_absent(seq![',', ' '], '?');
        lemma_count_char_unit('?', '?');
        assert(parts.last() == seq!['?']);
    }
}

/// One predicate's positional placeholder piece holds exactly as many `?`
/// markers as the predicate binds values — provided the field name itself
/// holds none.
pub proof fn lemma_positional_marker_count(name: Seq<char>, f: FilterModel)
    requires
        spec_count_char(name, '?') == 0,
    ensures
        spec_count_char(spec_positional_holder(name, f), '?') == spec_positional_params_of(
            f,
        ).len(),
{
    match f {
        FilterModel::Equal(v) => {
            assert(seq!['=', '?'] =~= seq!['='] + seq!['?']);
            lemma_count_op_marker(seq!['=']);
            lemma_count_char_concat(name, seq!['='] + seq!['?'], '?');
        },
        FilterModel::Not(v) => {
            assert(seq!['<', '>', '?'] =~= seq!['<', '>'] + seq!['?']);
            lemma_count_op_marker(seq!['<', '>']);
            lemma_count_char_concat(name, seq!['<', '>'] + seq!['?'], '?');
        },
        FilterModel::LessorThan(v) => {
            assert(seq!['<', '?'] =~= seq!['<'] + seq!['?']);
            lemma_count_op_marker(seq!['<']);
            lemma_count_char_concat(name, seq!['<'] + seq!['?'], '?');
        },
        FilterModel::EqualOrLessorThan(v) => {
            assert(seq!['<', '=', '?'] =~= seq!['<', '='] + seq!['?']);
            lemma_count_op_marker(seq!['<', '=']);
            lemma_count_char_concat(name, seq!['<', '='] + seq!['?'], '?');
        },
        FilterModel::GreaterThan(v) => {
            assert(seq!['>', '?'] =~= seq!['>'] + seq!['?']);
            lemma_count_op_marker(seq!['>']);
            lemma_count_char_concat(name, seq!['>'] + seq!['?'], '?');
        },
        FilterModel::EqualOrGreaterThan(v) => {
            assert(seq!['>', '=', '?'] =~= seq!['>', '='] + seq!['?']);
            lemma_count_op_marker(seq!['>', '=']);
            lemma_count_char_concat(name, seq!['>', '='] + seq!['?'], '?');
        },
        FilterModel::In(vs) => {
            let open_part = name + seq![' ', 'I', 'N', ' ', '('];
            let joined = spec_join(Seq::new(vs.len(), |i: int| seq!['?']), seq![',', ' ']);
            lemma_count_char_absent(seq![' ', 'I', 'N', ' ', '('], '?');
            lemma_count_char_concat(name, seq![' ', 'I', 'N', ' ', '('], '?');
            lemma_count_join_markers(vs.len());
            lemma_count_char_concat(open_part, joined, '?');
            lemma_count_char_absent(seq![')'], '?');
            lemma_count_char_concat(open_part + joined, seq![')'], '?');
        },
        FilterModel::NotIn(vs) => {
            let open_part = name + seq![' ', 'N', 'O', 'T', ' ', 'I', 'N', ' ', '('];
            let joined = spec_join(Seq::new(vs.len(), |i: int| seq!['?']), seq![',', ' ']);
            lemma_count_char_absent(seq![' ', 'N', 'O', 'T', ' ', 'I', 'N', ' ', '('], '?');
            lemma_count_char_concat(name, seq![' ', 'N', 'O', 'T', ' ', 'I', 'N', ' ', '('], '?');
            lemma_count_join_markers(vs.len());
            lemma_count_char_concat(open_part, joined, '?');
            lemma_count_char_absent(seq![')'], '?');
            lemma_count_char_concat(open_part + joined, seq![')'], '?');
        },
        FilterModel::Between(a, b) => {
            let between_text = seq![' ', 'B', 'E', 'T', 'W', 'E', 'E', 'N', ' '];
            let and_text = seq![' ', 'A', 'N', 'D', ' '];
            let whole = seq![
                ' ',
                'B',
                'E',
                'T',
                'W',
                'E',
                'E',
                'N',
                ' ',
                '?',
                ' ',
                'A',
                'N',
                'D',
                ' ',
                '?',
            ];
            assert(whole =~= between_text + seq!['?'] + and_text + seq!['?']);
            lemma_count_char_absent(between_text, '?');
            lemma_count_char_unit('?', '?');
            lemma_count_char_absent(and_text, '?');
            lemma_count_char_concat(between_text, seq!['?'], '?');
            lemma_count_char_concat(between_text + seq!['?'], and_text, '?');
            lemma_count_char_concat(between_text + seq!['?'] + and_text, seq!['?'], '?');
            lemma_count_char_concat(name, whole, '?');
        },
    }
}

/// The one correctness hazard of the positional strategy, discharged: the
/// placeholder text holds exactly one `?` marker per bound value, so the
/// n-th marker in the text corresponds to the n-th value of
/// `positional_params` — provided no field name holds a `?` itself.
pub proof fn lemma_positional_text_matches_params(members: Seq<FilterEntryModel>)
    requires
        forall|i: int| 0 <= i < members.len() ==> spec_count_char(#[trigger] members[i].0, '?')
            == 0,
    ensures
        spec_count_char(spec_positional_text(members), '?') == spec_filter_positional_params(
            members,
        ).len(),
    decreases members.len(),
{
    let parts = members.map_values(|m: FilterEntryModel| spec_positional_holder(m.0, m.1));
    if members.len() == 0 {
    } else if members.len() == 1 {
        lemma_positional_marker_count(members[0].0, members[0].1);
        assert(spec_positional_text(members) == parts[0]);
        assert(members.drop_last() =~= Seq::<FilterEntryModel>::empty());
        assert(spec_filter_positional_params(Seq::<FilterEntryModel>::empty())
            =~= Seq::<ValueModel>::empty());
        assert(spec_filter_positional_params(members) =~= spec_positional_params_of(
            members[0].1,
        ));
    } else {
        let shorter = members.drop_last();
        lemma_positional_text_matches_params(shorter);
        lemma_positional_marker_count(members.last().0, members.last().1);
        let shorter_parts = shorter.map_values(
            |m: FilterEntryModel| spec_positional_holder(m.0, m.1),
        );
        assert(parts.drop_last() =~= shorter_parts);
        assert(parts.last() == spec_positional_holder(members.last().0, members.last().1));
        let joined_shorter = spec_join(shorter_parts, seq![' ', 'A', 'N', 'D', ' ']);
        assert(spec_positional_text(members) == joined_shorter + seq![' ', 'A', 'N', 'D', ' ']
            + parts.last());
        lemma_count_char_concat(joined_shorter, seq![' ', 'A', 'N', 'D', ' '], '?');
        lemma_count_char_concat(joined_shorter + seq![' ', 'A', 'N', 'D', ' '], parts.last(), '?');
        lemma_count_char_absent(seq![' ', 'A', 'N', 'D', ' '], '?');
    }
}

/// Binding a membership test with the positional strategy produces
/// exactly one marker and one parameter per element, in the elements'
/// order, matched one to one by position.
pub proof fn lemma_positional_in(name: Seq<char>, vs: Seq<ValueModel>)
    requires
        spec_count_char(name, '?') == 0,
    ensures
        spec_positional_params_of(FilterModel::In(vs)) == vs,
        spec_count_char(spec_positional_holder(name, FilterModel::In(vs)), '?') == vs.len(),
{
    lemma_positional_marker_count(name, FilterModel::In(vs));
}

/// A range always binds its low bound before its high bound, whatever
/// their numeric order.
pub proof fn lemma_positional_between_order(a: ValueModel, b: ValueModel)
    ensures
        spec_positional_params_of(FilterModel::Between(a, b)) == seq![a, b],
{
}

/// The value-set analogue: the `field=?` text holds exactly one `?`
/// marker per entry, matching `positional_params` one to one by position
/// — provided no field name holds a `?` itself.
pub proof fn lemma_values_positional_text_matches_params(entries: Seq<ValueEntryModel>)
    requires
        forall|i: int| 0 <= i < entries.len() ==> spec_count_char(#[trigger] entries[i].0, '?')
            == 0,
    ensures
        spec_count_char(spec_values_positional_holder_text(entries), '?') == entries.len(),
{
    let parts = entries.map_values(|e: ValueEntryModel| e.0 + seq!['=', '?']);
    assert(forall|i: int| 0 <= i < parts.len() ==> spec_count_char(
        #[trigger] parts[i],
        '?',
    ) == 1) by {
        assert forall|i: int| 0 <= i < parts.len() implies spec_count_char(parts[i], '?')
            == 1 by {
            let name = entries[i].0;
            lemma_count_op_marker(seq!['=']);
            assert(seq!['=', '?'] =~= seq!['='] + seq!['?']);
            lemma_count_char_concat(name, seq!['='] + seq!['?'], '?');
            assert(parts[i] == name + seq!['=', '?']);
        }
    }
    lemma_count_char_absent(seq![',', ' '], '?');
    lemma_count_join_single(parts, seq![',', ' '], '?');
}

} // verus!

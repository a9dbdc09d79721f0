use repo_sql::{Filter, NamedFilter, NamedFilterHolder, RepoValue, SqlFilter};

fn iv(n: i64) -> RepoValue {
    RepoValue::Int(n)
}

#[test]
fn expression_templates_for_every_predicate_kind() {
    let cases: Vec<(Filter<RepoValue>, &str)> = vec![
        (Filter::Equal(iv(1)), "age=1"),
        (Filter::Not(iv(1)), "age<>1"),
        (Filter::LessorThan(iv(1)), "age<1"),
        (Filter::EqualOrLessorThan(iv(1)), "age<=1"),
        (Filter::GreaterThan(iv(1)), "age>1"),
        (Filter::EqualOrGreaterThan(iv(1)), "age>=1"),
        (Filter::In(vec![iv(1), iv(2), iv(3)]), "age IN (1,2,3)"),
        (Filter::NotIn(vec![iv(1), iv(2)]), "age NOT IN (1,2)"),
        (Filter::Between(iv(1), iv(5)), "age BETWEEN 1 AND 5"),
    ];
    for (filter, expected) in cases {
        assert_eq!(NamedFilter::new("age", filter).sql_expression(), expected);
    }
}

#[test]
fn expression_renders_empty_membership_literally() {
    assert_eq!(NamedFilter::new("age", Filter::In(vec![])).sql_expression(), "age IN ()");
    assert_eq!(NamedFilter::new("age", Filter::NotIn(vec![])).sql_expression(), "age NOT IN ()");
}

#[test]
fn holder_starts_unconstrained() {
    let h = NamedFilterHolder::new("age");
    assert!(h.is_none());
    assert!(!h.is_some());
    assert_eq!(h.name(), "age");
    assert!(h.to_named_filter().is_none());
    assert!(h.filter().is_none());
}

#[test]
fn holder_last_write_wins() {
    let mut h = NamedFilterHolder::new("age");
    h.eq(iv(1));
    h.gt(iv(5));
    assert!(h.is_some());
    let named = h.to_named_filter().unwrap();
    assert_eq!(named.name(), "age");
    assert_eq!(*named.filter(), Filter::GreaterThan(iv(5)));
    assert_eq!(named.sql_expression(), "age>5");
}

#[test]
fn holder_setters_set_the_documented_predicate() {
    let mut h = NamedFilterHolder::new("f");
    h.eq(iv(1));
    assert_eq!(*h.filter().unwrap(), Filter::Equal(iv(1)));
    h.not(iv(2));
    assert_eq!(*h.filter().unwrap(), Filter::Not(iv(2)));
    h.lt(iv(3));
    assert_eq!(*h.filter().unwrap(), Filter::LessorThan(iv(3)));
    h.elt(iv(4));
    assert_eq!(*h.filter().unwrap(), Filter::EqualOrLessorThan(iv(4)));
    h.gt(iv(5));
    assert_eq!(*h.filter().unwrap(), Filter::GreaterThan(iv(5)));
    h.egt(iv(6));
    assert_eq!(*h.filter().unwrap(), Filter::EqualOrGreaterThan(iv(6)));
    h.included_in(vec![iv(7), iv(8)]);
    assert_eq!(*h.filter().unwrap(), Filter::In(vec![iv(7), iv(8)]));
    h.excluded_from(vec![iv(9)]);
    assert_eq!(*h.filter().unwrap(), Filter::NotIn(vec![iv(9)]));
    h.between(iv(10), iv(11));
    assert_eq!(*h.filter().unwrap(), Filter::Between(iv(10), iv(11)));
}

#[test]
fn map_preserves_shape_order_and_bounds() {
    let mapped: Filter<RepoValue> = Filter::In(vec![1i64, 2, 3]).map(RepoValue::from);
    assert_eq!(mapped, Filter::In(vec![iv(1), iv(2), iv(3)]));
    let mapped: Filter<RepoValue> = Filter::Between(9i64, 2).map(RepoValue::from);
    assert_eq!(mapped, Filter::Between(iv(9), iv(2)));
    let mapped: Filter<RepoValue> = Filter::Equal("x").map(RepoValue::from);
    assert_eq!(mapped, Filter::Equal(RepoValue::Str("x")));
}

#[test]
fn sql_filter_renders_one_clause_per_member() {
    let f = SqlFilter::new()
        .with("a", Filter::Equal(iv(1)))
        .with("b", Filter::LessorThan(iv(2)))
        .with("c", Filter::GreaterThan(iv(3)));
    assert_eq!(f.len(), 3);
    let text = f.expressions();
    assert_eq!(text, "a=1 AND b<2 AND c>3");
    assert_eq!(text.matches(" AND ").count(), 2);
}

#[test]
fn sql_filter_with_named_skips_unconstrained_holders() {
    let mut set_holder = NamedFilterHolder::new("age");
    set_holder.between(iv(1), iv(5));
    let empty_holder = NamedFilterHolder::new("name");
    let f = SqlFilter::new().with_named(&empty_holder).with_named(&set_holder);
    assert_eq!(f.len(), 1);
    assert!(!f.is_empty());
    assert_eq!(f.expressions(), "age BETWEEN 1 AND 5");
    assert_eq!(f.get(0).name(), "age");

    let none = SqlFilter::new().with_named(&empty_holder);
    assert!(none.is_empty());
    assert_eq!(none.expressions(), "");
}

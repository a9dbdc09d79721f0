use repo_sql::{
    comma_seperated_binding_holders, comma_seperated_named_binding_holders, Filter, MySqlHelper,
    RepoValue, SqlFilter, SqlUpdates, SqlValues, SqlxHelper,
};

fn iv(n: i64) -> RepoValue {
    RepoValue::Int(n)
}

fn keys(params: &[(String, RepoValue)]) -> Vec<&str> {
    params.iter().map(|p| p.0.as_str()).collect()
}

#[test]
fn named_membership_produces_one_keyed_param_per_element() {
    let f = SqlFilter::new().with("tag", Filter::In(vec![iv(10), iv(20), iv(30)]));
    assert_eq!(f.with_named_binding_holder(), "tag IN (:tag_in_0, :tag_in_1, :tag_in_2)");
    let params = f.params();
    assert_eq!(keys(&params), vec!["tag_in_0", "tag_in_1", "tag_in_2"]);
    assert_eq!(params[0].1, iv(10));
    assert_eq!(params[1].1, iv(20));
    assert_eq!(params[2].1, iv(30));
}

#[test]
fn named_exclusion_produces_one_keyed_param_per_element() {
    let f = SqlFilter::new().with("tag", Filter::NotIn(vec![iv(1), iv(2)]));
    assert_eq!(f.with_named_binding_holder(), "tag NOT IN (:tag_not_in_0, :tag_not_in_1)");
    assert_eq!(keys(&f.params()), vec!["tag_not_in_0", "tag_not_in_1"]);
}

#[test]
fn named_text_and_params_agree_across_kinds() {
    let f = SqlFilter::new()
        .with("a", Filter::Equal(iv(1)))
        .with("b", Filter::Between(iv(9), iv(2)))
        .with("c", Filter::EqualOrGreaterThan(iv(3)));
    assert_eq!(
        f.with_named_binding_holder(),
        "a=:a AND b BETWEEN :b_between_0 AND :b_between_1 AND c>=:c"
    );
    let params = f.params();
    assert_eq!(keys(&params), vec!["a", "b_between_0", "b_between_1", "c"]);
    assert_eq!(params[1].1, iv(9));
    assert_eq!(params[2].1, iv(2));
}

#[test]
fn named_between_binds_low_then_high_regardless_of_order() {
    let f = SqlFilter::new().with("b", Filter::Between(iv(9), iv(2)));
    let params = f.params();
    assert_eq!(keys(&params), vec!["b_between_0", "b_between_1"]);
    assert_eq!(params[0].1, iv(9));
    assert_eq!(params[1].1, iv(2));
}

#[test]
fn positional_membership_produces_one_marker_and_param_per_element() {
    let f = SqlFilter::new().with("tag", Filter::In(vec![iv(10), iv(20), iv(30)]));
    let text = f.with_binding_holder();
    assert_eq!(text, "tag IN (?, ?, ?)");
    assert_eq!(text.matches('?').count(), 3);
    assert_eq!(f.positional_params(), vec![iv(10), iv(20), iv(30)]);
}

#[test]
fn positional_between_binds_low_then_high_regardless_of_order() {
    let f = SqlFilter::new().with("b", Filter::Between(iv(5), iv(2)));
    assert_eq!(f.with_binding_holder(), "b BETWEEN ? AND ?");
    assert_eq!(f.positional_params(), vec![iv(5), iv(2)]);
}

#[test]
fn positional_marker_count_matches_param_count_for_mixed_filter() {
    let f = SqlFilter::new()
        .with("a", Filter::Equal(iv(1)))
        .with("b", Filter::In(vec![iv(2), iv(3), iv(4)]))
        .with("c", Filter::Between(iv(5), iv(6)))
        .with("d", Filter::NotIn(vec![iv(7)]));
    let text = f.with_binding_holder();
    let params = f.positional_params();
    assert_eq!(text.matches('?').count(), params.len());
    assert_eq!(params.len(), 7);
    assert_eq!(
        text,
        "a=? AND b IN (?, ?, ?) AND c BETWEEN ? AND ? AND d NOT IN (?)"
    );
}

#[test]
fn value_set_binds_by_field_name() {
    let values = SqlValues::new()
        .with("name", RepoValue::from(String::from("Alice")))
        .with("age", iv(30));
    assert_eq!(values.expressions(), "name='Alice', age=30");
    assert_eq!(values.with_named_binding_holder(), "name=:name, age=:age");
    let params = values.params();
    assert_eq!(keys(&params), vec!["name", "age"]);
    assert_eq!(params[0].1, RepoValue::OwnedString(String::from("Alice")));
    assert_eq!(values.with_binding_holder(), "name=?, age=?");
    assert_eq!(
        values.positional_params(),
        vec![RepoValue::OwnedString(String::from("Alice")), iv(30)]
    );
}

#[test]
fn update_patch_binds_exactly_like_its_value_set() {
    let mut patch = SqlUpdates::new();
    patch.push("name", RepoValue::from(String::from("Bob")));
    patch.push("age", iv(41));
    assert_eq!(patch.expressions(), "name='Bob', age=41");
    assert_eq!(patch.with_named_binding_holder(), "name=:name, age=:age");
    assert_eq!(keys(&MySqlHelper::params(&patch)), vec!["name", "age"]);
    assert_eq!(patch.with_binding_holder(), "name=?, age=?");
    assert_eq!(patch.positional_params().len(), 2);
    assert_eq!(patch.dataset().len(), 2);
}

#[test]
fn empty_sets_produce_empty_text_and_no_params() {
    let f = SqlFilter::new();
    assert_eq!(f.with_named_binding_holder(), "");
    assert_eq!(f.with_binding_holder(), "");
    assert!(f.params().is_empty());
    assert!(f.positional_params().is_empty());
    let v = SqlValues::new();
    assert!(v.is_empty());
    assert_eq!(v.expressions(), "");
    assert!(v.params().is_empty());
}

#[test]
fn named_holder_helper_numbers_markers_from_zero() {
    assert_eq!(comma_seperated_named_binding_holders(3, "f_in"), ":f_in_0, :f_in_1, :f_in_2");
    assert_eq!(comma_seperated_named_binding_holders(1, "x"), ":x_0");
    assert_eq!(comma_seperated_named_binding_holders(0, "x"), "");
}

#[test]
fn positional_holder_helper_repeats_the_marker() {
    assert_eq!(comma_seperated_binding_holders(2), "?, ?");
    assert_eq!(comma_seperated_binding_holders(1), "?");
    assert_eq!(comma_seperated_binding_holders(0), "");
}

#[test]
fn named_holder_templates_for_every_predicate_kind() {
    let cases: Vec<(Filter<RepoValue>, &str)> = vec![
        (Filter::Equal(iv(1)), "f=:f"),
        (Filter::Not(iv(1)), "f<>:f"),
        (Filter::LessorThan(iv(1)), "f<:f"),
        (Filter::EqualOrLessorThan(iv(1)), "f<=:f"),
        (Filter::GreaterThan(iv(1)), "f>:f"),
        (Filter::EqualOrGreaterThan(iv(1)), "f>=:f"),
        (Filter::In(vec![iv(1), iv(2)]), "f IN (:f_in_0, :f_in_1)"),
        (Filter::NotIn(vec![iv(1)]), "f NOT IN (:f_not_in_0)"),
        (Filter::Between(iv(1), iv(2)), "f BETWEEN :f_between_0 AND :f_between_1"),
    ];
    for (filter, expected) in cases {
        let set = SqlFilter::new().with("f", filter);
        assert_eq!(set.with_named_binding_holder(), expected);
    }
}

#[test]
fn positional_holder_templates_for_every_predicate_kind() {
    let cases: Vec<(Filter<RepoValue>, &str)> = vec![
        (Filter::Equal(iv(1)), "f=?"),
        (Filter::Not(iv(1)), "f<>?"),
        (Filter::LessorThan(iv(1)), "f<?"),
        (Filter::EqualOrLessorThan(iv(1)), "f<=?"),
        (Filter::GreaterThan(iv(1)), "f>?"),
        (Filter::EqualOrGreaterThan(iv(1)), "f>=?"),
        (Filter::In(vec![iv(1), iv(2)]), "f IN (?, ?)"),
        (Filter::NotIn(vec![iv(1)]), "f NOT IN (?)"),
        (Filter::Between(iv(1), iv(2)), "f BETWEEN ? AND ?"),
    ];
    for (filter, expected) in cases {
        let set = SqlFilter::new().with("f", filter);
        assert_eq!(set.with_binding_holder(), expected);
    }
}

#[test]
fn named_marker_count_matches_param_count_for_mixed_filter() {
    let f = SqlFilter::new()
        .with("a", Filter::Equal(iv(1)))
        .with("b", Filter::In(vec![iv(2), iv(3)]))
        .with("c", Filter::Between(iv(4), iv(5)));
    let text = f.with_named_binding_holder();
    let params = f.params();
    assert_eq!(text.matches(':').count(), params.len());
    assert_eq!(params.len(), 5);
}

#[test]
fn empty_membership_binds_no_parameters() {
    let f = SqlFilter::new().with("f", Filter::In(vec![]));
    assert_eq!(f.with_named_binding_holder(), "f IN ()");
    assert_eq!(f.with_binding_holder(), "f IN ()");
    assert!(f.params().is_empty());
    assert!(f.positional_params().is_empty());
}

use repo_sql::{
    AsStaticStr, Definable, Entity, EntityNotFoundError, FromStrError, InsertResult, RepoValue,
    SqlUpdates, UnexpectedAffectedRowsError, UpdateResult,
};

#[derive(Debug, Clone, PartialEq)]
struct Person {
    id: i64,
    name: String,
    age: i64,
}

impl Entity for Person {
    type Key = i64;

    fn get_key(&self) -> i64 {
        self.id
    }

    fn not_found(key: i64) -> EntityNotFoundError<i64> {
        EntityNotFoundError::new("Person", key)
    }
}

fn set_person_field(mut person: Person, field: &'static str, value: RepoValue) -> Person {
    match (field, value) {
        ("name", RepoValue::OwnedString(s)) => person.name = s,
        ("age", RepoValue::Int(n)) => person.age = n,
        _ => panic!("unexpected field/value pair"),
    }
    person
}

#[test]
fn apply_runs_each_action_once_in_push_order() {
    let mut patch = SqlUpdates::new();
    patch.push("name", RepoValue::from(String::from("Alice")));
    patch.push("age", RepoValue::from(30i64));
    let person = Person { id: 1, name: String::from("old"), age: 0 };
    let updated = patch.apply(person, set_person_field);
    assert_eq!(updated.name, "Alice");
    assert_eq!(updated.age, 30);
    assert_eq!(updated.id, 1);
}

#[test]
fn apply_visits_fields_in_insertion_order_exactly_once() {
    let mut patch = SqlUpdates::new();
    patch.push("a", RepoValue::Int(1));
    patch.push("b", RepoValue::Int(2));
    patch.push("a", RepoValue::Int(3));
    let log: Vec<(&'static str, RepoValue)> = patch.apply(Vec::new(), |mut log, field, value| {
        log.push((field, value));
        log
    });
    assert_eq!(
        log,
        vec![("a", RepoValue::Int(1)), ("b", RepoValue::Int(2)), ("a", RepoValue::Int(3))]
    );
}

#[test]
fn undefined_fields_are_excluded_from_the_patch() {
    let name: Definable<RepoValue> = Definable::Undefined;
    let age: Definable<RepoValue> = Definable::Defined(RepoValue::Int(30));
    let mut patch = SqlUpdates::new();
    patch.push_if_defined("name", name);
    patch.push_if_defined("age", age);
    assert_eq!(patch.len(), 1);
    assert_eq!(patch.expressions(), "age=30");
    assert_eq!(patch.dataset().get(0).0, "age");
}

#[test]
fn empty_patch_reports_empty() {
    let patch = SqlUpdates::new();
    assert!(patch.is_empty());
    assert_eq!(patch.expressions(), "");
    let person = Person { id: 7, name: String::from("same"), age: 9 };
    let unchanged = patch.apply(person.clone(), set_person_field);
    assert_eq!(unchanged, person);
}

#[test]
fn definable_distinguishes_unset_from_set() {
    let mut d: Definable<i64> = Definable::default();
    assert!(d.is_undefined());
    assert!(d.is_none());
    assert!(!d.is_defined());
    assert!(!d.is_some());
    assert_eq!(d.as_option(), None);
    assert_eq!(d.get(), None);
    d.set(5);
    assert!(d.is_defined());
    assert!(d.is_some());
    assert_eq!(d.as_option(), Some(&5));
    assert_eq!(d.get(), Some(5));
    assert!(d.is_defined_and(|v| *v == 5));
    assert!(!d.is_some_and(|v| *v == 6));
    assert_eq!(d.take(), Some(5));
    assert!(d.is_undefined());
    assert_eq!(d.take(), None);
}

#[test]
fn definable_map_and_as_ref_keep_the_state() {
    let d: Definable<i64> = Definable::Defined(2);
    assert_eq!(d.clone().map(|v| v * 10), Definable::Defined(20));
    assert_eq!(d.as_ref(), Definable::Defined(&2));
    let u: Definable<i64> = Definable::Undefined;
    assert_eq!(u.map(|v| v * 10), Definable::Undefined);
}

#[test]
fn definable_as_mut_writes_through() {
    let mut d: Definable<i64> = Definable::Defined(2);
    if let Definable::Defined(x) = d.as_mut() {
        *x = 9;
    }
    assert_eq!(d, Definable::Defined(9));
    let mut u: Definable<i64> = Definable::Undefined;
    assert_eq!(u.as_mut(), Definable::Undefined);
}

#[test]
fn entity_reports_its_key_and_not_found_error() {
    let person = Person { id: 9, name: String::from("x"), age: 1 };
    assert_eq!(person.get_key(), 9);
    let err = Person::not_found(9);
    assert_eq!(err, EntityNotFoundError::new("Person", 9));
    assert_eq!(err.entity_name, "Person");
    assert_eq!(err.key, 9);
}

#[derive(Debug, PartialEq, Clone, Copy)]
enum Color {
    Red,
    Blue,
}

impl AsStaticStr for Color {
    fn as_str(&self) -> &'static str {
        match self {
            Color::Red => "red",
            Color::Blue => "blue",
        }
    }
}

#[test]
fn static_str_values_bind_as_borrowed_strings() {
    assert_eq!(RepoValue::from(Color::Red.as_str()), RepoValue::Str("red"));
    assert_eq!(RepoValue::from(Color::Blue.as_str()).render(), "'blue'");
}

#[test]
fn error_types_carry_their_data() {
    let rows = UnexpectedAffectedRowsError::new(1, 3);
    assert_eq!(rows.expected, 1);
    assert_eq!(rows.actual, 3);
    let parse: FromStrError = String::from("Cannot convert \"x\" to Color").into();
    assert_eq!(parse.message, "Cannot convert \"x\" to Color");
}

#[test]
fn statement_results_expose_their_counts() {
    assert_eq!(InsertResult(17).last_insert_id(), 17);
    assert_eq!(UpdateResult(2).affected_rows(), 2);
}

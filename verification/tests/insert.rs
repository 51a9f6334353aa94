use omnia::insert::{str_eq, ConflictStrategy, ConflictTarget, EntityValues, InsertBuilder};
use omnia::orm::SqlValue;

struct Item {
    id: i32,
    name: String,
}

impl EntityValues for Item {
    fn to_values(&self) -> Vec<(&'static str, SqlValue)> {
        vec![("id", SqlValue::Int(Some(self.id))), ("name", SqlValue::Text(Some(self.name.clone())))]
    }
}

fn columns(values: &[(&'static str, SqlValue)]) -> Vec<&'static str> {
    values.iter().map(|(c, _)| *c).collect()
}

fn strategy(c: Option<ConflictStrategy>) -> (bool, Vec<&'static str>, Vec<&'static str>) {
    match c.expect("a conflict strategy") {
        ConflictStrategy::DoNothing { target: ConflictTarget::Columns(t) } => (false, t, vec![]),
        ConflictStrategy::DoUpdate { target: ConflictTarget::Columns(t), columns } => (true, t, columns),
    }
}

#[test]
fn insert_basic_values_in_order() {
    let builder = InsertBuilder::<Item>::new()
        .set("id", SqlValue::Int(Some(1)))
        .set("name", SqlValue::Text(Some("a".to_string())));
    let (values, conflict) = builder.into_parts();
    assert_eq!(columns(&values), vec!["id", "name"]);
    assert!(conflict.is_none());
}

#[test]
fn insert_from_entity_values() {
    let item = Item { id: 7, name: "seven".to_string() };
    let (values, conflict) = InsertBuilder::from_entity(&item).into_parts();
    assert_eq!(columns(&values), vec!["id", "name"]);
    assert!(matches!(values[0].1, SqlValue::Int(Some(7))));
    assert!(conflict.is_none());
}

#[test]
fn insert_with_upsert_updates_given_columns() {
    let builder = InsertBuilder::<Item>::new()
        .set("id", SqlValue::Int(Some(1)))
        .set("name", SqlValue::Text(Some("a".to_string())))
        .on_conflict("id")
        .do_update(&["name"]);
    let (_, conflict) = builder.into_parts();
    assert_eq!(strategy(conflict), (true, vec!["id"], vec!["name"]));
}

#[test]
fn insert_parts_upsert_do_nothing() {
    let builder = InsertBuilder::<Item>::new()
        .set("id", SqlValue::Int(Some(1)))
        .on_conflict_columns(&["id", "name"])
        .do_nothing();
    let (_, conflict) = builder.into_parts();
    assert_eq!(strategy(conflict), (false, vec!["id", "name"], vec![]));
}

#[test]
fn update_all_skips_conflict_columns() {
    let builder = InsertBuilder::<Item>::new()
        .set("id", SqlValue::Int(Some(1)))
        .set("name", SqlValue::Text(Some("a".to_string())))
        .set("size", SqlValue::BigInt(Some(3)))
        .on_conflict("id")
        .do_update_all();
    let (_, conflict) = builder.into_parts();
    assert_eq!(strategy(conflict), (true, vec!["id"], vec!["name", "size"]));
}

#[test]
fn update_without_target_is_ignored() {
    let (_, conflict) = InsertBuilder::<Item>::new()
        .set("id", SqlValue::Int(Some(1)))
        .do_update(&["id"])
        .do_update_all()
        .into_parts();
    assert!(conflict.is_none());
}

#[test]
fn do_nothing_after_update_keeps_target() {
    let (_, conflict) = InsertBuilder::<Item>::new()
        .set("name", SqlValue::Text(Some("test".to_string())))
        .on_conflict("name")
        .do_update(&["count"])
        .do_nothing()
        .into_parts();
    assert_eq!(strategy(conflict), (false, vec!["name"], vec![]));
}

#[test]
fn do_nothing_without_target_is_ignored() {
    let (_, conflict) = InsertBuilder::<Item>::new().do_nothing().into_parts();
    assert!(conflict.is_none());
}

#[test]
fn insert_upsert_do_nothing() {
    let (values, conflict) = InsertBuilder::<Item>::new()
        .set("name", SqlValue::Text(Some("test".to_string())))
        .on_conflict("name")
        .do_nothing()
        .into_parts();
    assert_eq!(columns(&values), vec!["name"]);
    assert_eq!(values.len(), 1);
    assert!(matches!(&values[0].1, SqlValue::Text(Some(s)) if s == "test"));
    assert_eq!(strategy(conflict), (false, vec!["name"], vec![]));
}

#[test]
fn insert_with_upsert() {
    let (values, conflict) = InsertBuilder::<Item>::new()
        .set("name", SqlValue::Text(Some("unique".to_string())))
        .set("count", SqlValue::Int(Some(1)))
        .on_conflict("name")
        .do_update(&["count"])
        .into_parts();
    assert_eq!(columns(&values), vec!["name", "count"]);
    assert!(matches!(&values[0].1, SqlValue::Text(Some(s)) if s == "unique"));
    assert!(matches!(values[1].1, SqlValue::Int(Some(1))));
    assert_eq!(strategy(conflict), (true, vec!["name"], vec!["count"]));
}

#[test]
fn update_keeps_target_after_retarget() {
    let (_, conflict) = InsertBuilder::<Item>::new()
        .on_conflict("a")
        .do_update(&["x"])
        .do_update(&["y", "z"])
        .into_parts();
    assert_eq!(strategy(conflict), (true, vec!["a"], vec!["y", "z"]));
}

#[test]
fn string_equality() {
    assert!(str_eq("abc", "abc"));
    assert!(!str_eq("abc", "abd"));
    assert!(!str_eq("abc", "ab"));
}

#[test]
fn from_values_keeps_given_values() {
    let (values, conflict) = InsertBuilder::<Item>::from_values(vec![
        ("a", SqlValue::Bool(Some(true))),
        ("b", SqlValue::Unsupported),
    ])
    .into_parts();
    assert_eq!(columns(&values), vec!["a", "b"]);
    assert!(conflict.is_none());
}

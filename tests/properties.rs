use struct_diff::difference::{Difference, Differences};
use struct_diff::engine::Diff;
use struct_diff::path::{decimal_string, index_segment_string, join_path, under_variant_path};
use struct_diff::value::{layouts_match, Field, Members, Value};

fn text(s: &str) -> Value {
    Value::Text(s.to_string())
}

fn record(fields: Vec<(&str, Value)>) -> Value {
    Value::Struct(Members::Named(
        fields
            .into_iter()
            .map(|(name, value)| Field { name: name.to_string(), value })
            .collect(),
    ))
}

fn ints(items: &[i128]) -> Value {
    Value::List(items.iter().map(|n| Value::Int(*n)).collect())
}

fn fields_of(found: &[Difference]) -> Vec<String> {
    found.iter().map(|d| d.field.clone()).collect()
}

#[test]
fn comparing_a_value_with_itself_finds_nothing() {
    let v = record(vec![
        ("name", text("x")),
        ("tags", Value::List(vec![text("a"), text("b")])),
        ("next", Value::Opt(Some(Box::new(Value::Boxed(Box::new(Value::Bool(true))))))),
        ("kind", Value::Variant("Pair".to_string(), Members::Tuple(vec![Value::Int(-1), Value::Char('z')]))),
        ("unit", Value::Variant("Empty".to_string(), Members::Unit)),
    ]);
    assert!(v.diff(&v).is_none());
}

#[test]
fn distinct_leaves_give_one_record_at_the_root() {
    let a = Value::Int(-3);
    let b = Value::Int(4);
    let found = a.diff(&b).unwrap();
    assert_eq!(found.len(), 1);
    assert_eq!(found[0].field, "");
    assert_eq!(found[0].left, &a);
    assert_eq!(found[0].right, &b);
}

#[test]
fn presence_changes_are_named() {
    let absent = Value::Opt(None);
    let present = Value::Opt(Some(Box::new(Value::UInt(7))));
    let same = Value::Opt(Some(Box::new(Value::UInt(7))));
    let none = absent.diff(&present).unwrap();
    assert_eq!(fields_of(&none), vec!["none"]);
    assert_eq!(none[0].left, &absent);
    assert_eq!(none[0].right, &present);
    assert_eq!(fields_of(&present.diff(&absent).unwrap()), vec!["some"]);
    assert!(present.diff(&same).is_none());
    assert!(absent.diff(&Value::Opt(None)).is_none());
}

#[test]
fn two_present_values_are_compared_without_a_segment() {
    let a = Value::Opt(Some(Box::new(record(vec![("x", Value::Int(1))]))));
    let b = Value::Opt(Some(Box::new(record(vec![("x", Value::Int(2))]))));
    assert_eq!(fields_of(&a.diff(&b).unwrap()), vec!["x"]);
}

#[test]
fn sequences_report_each_differing_index_in_order() {
    let a = ints(&[1, 2, 4]);
    let b = ints(&[2, 2, 3]);
    let found = a.diff(&b).unwrap();
    assert_eq!(fields_of(&found), vec!["[0]", "[2]"]);
    assert_eq!(found[0].left, &Value::Int(1));
    assert_eq!(found[0].right, &Value::Int(2));
    assert_eq!(found[1].left, &Value::Int(4));
    assert_eq!(found[1].right, &Value::Int(3));
}

#[test]
fn sequences_of_other_lengths_compare_the_common_prefix() {
    assert!(ints(&[5, 7]).diff(&ints(&[5, 7, 8])).is_none());
    assert!(ints(&[]).diff(&ints(&[1])).is_none());
    assert_eq!(fields_of(&ints(&[5, 6, 9]).diff(&ints(&[5, 7])).unwrap()), vec!["[1]"]);
}

#[test]
fn indexes_past_nine_are_written_in_full() {
    let a = ints(&[0; 12]);
    let mut items = vec![0; 12];
    items[10] = 1;
    let b = ints(&items);
    assert_eq!(fields_of(&a.diff(&b).unwrap()), vec!["[10]"]);
}

#[test]
fn wrappers_add_no_segment() {
    let a = record(vec![("b", Value::Boxed(Box::new(record(vec![("val", Value::UInt(5))]))))]);
    let b = record(vec![("b", record(vec![("val", Value::UInt(6))]))]);
    assert_eq!(fields_of(&a.diff(&b).unwrap()), vec!["b.val"]);
}

#[test]
fn tuple_structs_use_positions() {
    let a = Value::Struct(Members::Tuple(vec![Value::Int(1), text("p"), Value::Int(3)]));
    let b = Value::Struct(Members::Tuple(vec![Value::Int(1), text("q"), Value::Int(4)]));
    assert_eq!(fields_of(&a.diff(&b).unwrap()), vec!["1", "2"]);
}

#[test]
fn named_variant_members_use_names() {
    let a = Value::Variant("V".to_string(), Members::Named(vec![Field { name: "f".to_string(), value: Value::Bool(true) }]));
    let b = Value::Variant("V".to_string(), Members::Named(vec![Field { name: "f".to_string(), value: Value::Bool(false) }]));
    assert_eq!(fields_of(&a.diff(&b).unwrap()), vec!["V.f"]);
}

#[test]
fn different_variants_are_reported_whole() {
    let a = Value::Variant("A".to_string(), Members::Tuple(vec![Value::UInt(5)]));
    let b = Value::Variant("B".to_string(), Members::Tuple(vec![text("x")]));
    let found = a.diff(&b).unwrap();
    assert_eq!(found.len(), 1);
    assert_eq!(found[0].field, "self");
    assert_eq!(found[0].left, &a);
    assert_eq!(found[0].right, &b);
    let unit = Value::Variant("A".to_string(), Members::Unit);
    assert_eq!(fields_of(&unit.diff(&a).unwrap()), vec!["self"]);
    assert!(unit.diff(&Value::Variant("A".to_string(), Members::Unit)).is_none());
}

#[test]
fn values_of_different_kinds_differ_at_the_root() {
    let a = Value::Bool(true);
    let b = Value::Int(1);
    assert_eq!(fields_of(&a.diff(&b).unwrap()), vec![""]);
    let s = record(vec![("x", Value::Int(1))]);
    let t = record(vec![("y", Value::Int(1))]);
    assert_eq!(fields_of(&s.diff(&t).unwrap()), vec![""]);
}

#[test]
fn paths_compare_by_components() {
    assert!(Value::Path("/a//b".to_string()).diff(&Value::Path("/a/b".to_string())).is_none());
    assert!(Value::Path("/a/".to_string()).diff(&Value::Path("/a".to_string())).is_none());
    assert!(Value::Path("/a".to_string()).diff(&Value::Path("/a/b".to_string())).is_some());
}

#[test]
fn path_pieces() {
    assert_eq!(decimal_string(0), "0");
    assert_eq!(decimal_string(1234), "1234");
    assert_eq!(index_segment_string(42), "[42]");
    assert_eq!(join_path("a", ""), "a");
    assert_eq!(join_path("a", "b.c"), "a.b.c");
    assert_eq!(under_variant_path("V", "0"), "V.0");
}

#[test]
fn layouts() {
    let two = Members::Tuple(vec![Value::Int(1), Value::Int(2)]);
    let three = Members::Tuple(vec![Value::Int(1), Value::Int(2), Value::Int(3)]);
    assert!(layouts_match(&two, &two));
    assert!(!layouts_match(&two, &three));
    assert!(!layouts_match(&two, &Members::Unit));
    assert!(layouts_match(&Members::Unit, &Members::Unit));
}

#[test]
fn log_records_keep_the_order_found() {
    let a = ints(&[1, 2, 4]);
    let b = ints(&[2, 2, 3]);
    let record = Differences::new(a.diff(&b));
    assert_eq!(record.0.len(), 2);
    assert_eq!(record.0[0].0.field, "[0]");
    assert_eq!(record.0[1].0.field, "[2]");
    assert!(Differences::new(a.diff(&a)).0.is_empty());
}

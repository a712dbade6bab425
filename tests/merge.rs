use iio_rotation::doc::{variant_name, Doc, Kind};
use iio_rotation::merge::{merge_with_fallback, Mismatch};

fn s(v: &str) -> Doc {
    Doc::Str(v.to_string())
}

fn table(entries: Vec<(&str, Doc)>) -> Doc {
    Doc::Table(entries.into_iter().map(|(k, v)| (k.to_string(), v)).collect())
}

fn get<'a>(d: &'a Doc, key: &str) -> Option<&'a Doc> {
    match d {
        Doc::Table(t) => t.iter().find(|(k, _)| k == key).map(|(_, v)| v),
        _ => None,
    }
}

#[test]
fn nested_tables_merge_and_siblings_stay() {
    let mut base = table(vec![
        ("a", table(vec![("x", Doc::Integer(1)), ("y", Doc::Integer(2))])),
        ("b", s("keep")),
    ]);
    let over = table(vec![("a", table(vec![("y", Doc::Integer(20)), ("z", Doc::Boolean(true))]))]);
    let mut diags: Vec<Mismatch> = Vec::new();
    merge_with_fallback(&mut base, over, "", &mut diags);
    assert!(diags.is_empty());
    let a = get(&base, "a").unwrap();
    assert_eq!(get(a, "x"), Some(&Doc::Integer(1)));
    assert_eq!(get(a, "y"), Some(&Doc::Integer(20)));
    assert_eq!(get(a, "z"), Some(&Doc::Boolean(true)));
    assert_eq!(get(&base, "b"), Some(&s("keep")));
}

#[test]
fn mismatched_variant_keeps_base_and_reports() {
    let mut base = table(vec![
        ("debounce", Doc::Integer(300)),
        ("orientation", table(vec![("normal", s("n")), ("leftup", s("l"))])),
    ]);
    let over = table(vec![
        ("debounce", s("fast")),
        ("orientation", table(vec![("normal", Doc::Integer(5)), ("leftup", s("L"))])),
    ]);
    let mut diags: Vec<Mismatch> = Vec::new();
    merge_with_fallback(&mut base, over, "", &mut diags);
    assert_eq!(get(&base, "debounce"), Some(&Doc::Integer(300)));
    let o = get(&base, "orientation").unwrap();
    assert_eq!(get(o, "normal"), Some(&s("n")));
    assert_eq!(get(o, "leftup"), Some(&s("L")));
    assert_eq!(diags.len(), 2);
    assert_eq!(diags[0], Mismatch { path: "debounce".to_string(), expected: Kind::Integer, found: Kind::Str });
    assert_eq!(
        diags[1],
        Mismatch { path: "orientation.normal".to_string(), expected: Kind::Str, found: Kind::Integer }
    );
}

#[test]
fn unknown_key_is_inserted() {
    let mut base = table(vec![("a", Doc::Integer(1))]);
    let over = table(vec![("extra", Doc::Array(vec![Doc::Integer(1), Doc::Integer(2)]))]);
    let mut diags: Vec<Mismatch> = Vec::new();
    merge_with_fallback(&mut base, over, "", &mut diags);
    assert!(diags.is_empty());
    assert_eq!(get(&base, "a"), Some(&Doc::Integer(1)));
    assert_eq!(get(&base, "extra"), Some(&Doc::Array(vec![Doc::Integer(1), Doc::Integer(2)])));
}

#[test]
fn table_replaced_by_scalar_is_refused() {
    let mut base = table(vec![("t", table(vec![("x", Doc::Integer(1))]))]);
    let over = table(vec![("t", Doc::Integer(2))]);
    let mut diags: Vec<Mismatch> = Vec::new();
    merge_with_fallback(&mut base, over, "root", &mut diags);
    assert_eq!(get(&base, "t"), Some(&table(vec![("x", Doc::Integer(1))])));
    assert_eq!(diags.len(), 1);
    assert_eq!(diags[0].path, "root.t");
    assert_eq!(diags[0].expected, Kind::Table);
    assert_eq!(diags[0].found, Kind::Integer);
}

#[test]
fn non_table_root_is_left_alone() {
    let mut base = Doc::Integer(1);
    let mut diags: Vec<Mismatch> = Vec::new();
    merge_with_fallback(&mut base, table(vec![("a", Doc::Integer(2))]), "", &mut diags);
    assert_eq!(base, Doc::Integer(1));
    let mut base2 = table(vec![("a", Doc::Integer(1))]);
    merge_with_fallback(&mut base2, Doc::Integer(7), "", &mut diags);
    assert_eq!(base2, table(vec![("a", Doc::Integer(1))]));
    assert!(diags.is_empty());
}

#[test]
fn same_variant_scalars_are_replaced() {
    let mut base = table(vec![("f", Doc::Float(1)), ("d", Doc::Datetime("1979-05-27".to_string()))]);
    let over = table(vec![("f", Doc::Float(2)), ("d", Doc::Datetime("2000-01-01".to_string()))]);
    let mut diags: Vec<Mismatch> = Vec::new();
    merge_with_fallback(&mut base, over, "", &mut diags);
    assert_eq!(get(&base, "f"), Some(&Doc::Float(2)));
    assert_eq!(get(&base, "d"), Some(&Doc::Datetime("2000-01-01".to_string())));
}

#[test]
fn variant_names() {
    assert_eq!(variant_name(&s("x")), "String");
    assert_eq!(variant_name(&Doc::Integer(1)), "Integer");
    assert_eq!(variant_name(&Doc::Float(0)), "Float number");
    assert_eq!(variant_name(&Doc::Boolean(true)), "Boolean");
    assert_eq!(variant_name(&Doc::Array(vec![])), "Array");
    assert_eq!(variant_name(&Doc::Table(vec![])), "Table");
    assert_eq!(variant_name(&Doc::Datetime(String::new())), "Date/Time");
    assert_eq!(Doc::Boolean(false).kind(), Kind::Boolean);
}

#[test]
fn refusals_at_every_depth_are_reported_in_order() {
    let mut base = table(vec![
        ("a", table(vec![("b", table(vec![("c", Doc::Integer(1))])), ("d", s("x"))])),
        ("e", Doc::Boolean(true)),
    ]);
    let over = table(vec![
        ("a", table(vec![("b", table(vec![("c", s("deep"))])), ("d", s("y"))])),
        ("e", Doc::Integer(0)),
        ("new", Doc::Float(3)),
    ]);
    let mut diags: Vec<Mismatch> = Vec::new();
    merge_with_fallback(&mut base, over, "", &mut diags);
    assert_eq!(diags.len(), 2);
    assert_eq!(diags[0], Mismatch { path: "a.b.c".to_string(), expected: Kind::Integer, found: Kind::Str });
    assert_eq!(diags[1], Mismatch { path: "e".to_string(), expected: Kind::Boolean, found: Kind::Integer });
    let a = get(&base, "a").unwrap();
    assert_eq!(get(a, "d"), Some(&s("y")));
    assert_eq!(get(&base, "new"), Some(&Doc::Float(3)));
    match &base {
        Doc::Table(t) => {
            let keys: Vec<&str> = t.iter().map(|(k, _)| k.as_str()).collect();
            assert_eq!(keys, vec!["a", "e", "new"]);
        }
        _ => panic!("root is not a table"),
    }
}

#[test]
fn empty_override_changes_nothing() {
    let mut base = table(vec![("a", Doc::Integer(1)), ("b", s("x"))]);
    let mut diags: Vec<Mismatch> = Vec::new();
    merge_with_fallback(&mut base, table(vec![]), "", &mut diags);
    assert_eq!(base, table(vec![("a", Doc::Integer(1)), ("b", s("x"))]));
    assert!(diags.is_empty());
}

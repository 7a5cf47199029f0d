use kiro_web_search::json::{object2, Json};

fn s(v: &str) -> Json {
    Json::Str(v.to_string())
}

fn obj(members: Vec<(&str, Json)>) -> Json {
    Json::Object(members.into_iter().map(|(k, v)| (k.to_string(), v)).collect())
}

fn path(keys: &[&str]) -> Vec<String> {
    keys.iter().map(|k| k.to_string()).collect()
}

#[test]
fn get_reads_first_member_with_key() {
    let v = obj(vec![("a", s("1")), ("b", s("2")), ("a", s("3"))]);
    assert_eq!(v.get(&"a".to_string()), Some(&s("1")));
    assert_eq!(v.get(&"b".to_string()), Some(&s("2")));
    assert_eq!(v.get(&"c".to_string()), None);
    assert_eq!(s("x").get(&"a".to_string()), None);
}

#[test]
fn get_path_reads_nested_members() {
    let v = obj(vec![("a", obj(vec![("b", s("deep"))]))]);
    assert_eq!(v.get_path(&path(&["a", "b"]), 0), Some(&s("deep")));
    assert_eq!(v.get_path(&path(&["a", "c"]), 0), None);
    assert_eq!(v.get_path(&path(&["x", "y"]), 0), None);
    assert_eq!(v.get_path(&path(&["a", "b"]), 2), Some(&v));
}

#[test]
fn set_then_get_reads_the_value() {
    let p = path(&["a", "b", "c"]);
    let v = obj(vec![("a", obj(vec![("z", s("keep"))])), ("other", s("o"))]);
    let v2 = v.clone().with_path_set(&p, 0, s("new"));
    assert_eq!(v2.get_path(&p, 0), Some(&s("new")));
    assert_eq!(v2.get_path(&path(&["a", "z"]), 0), Some(&s("keep")));
    assert_eq!(v2.get_path(&path(&["other"]), 0), Some(&s("o")));
}

#[test]
fn set_replaces_member_in_place() {
    let v = obj(vec![("a", s("1")), ("b", s("2"))]);
    let v2 = v.with_path_set(&path(&["a"]), 0, s("9"));
    assert_eq!(v2, obj(vec![("a", s("9")), ("b", s("2"))]));
}

#[test]
fn set_through_null_makes_objects() {
    let v = Json::Null.with_path_set(&path(&["a", "b"]), 0, s("x"));
    assert_eq!(v, obj(vec![("a", obj(vec![("b", s("x"))]))]));
}

#[test]
fn settable_only_through_null_or_objects() {
    let p = path(&["a", "b", "c"]);
    assert!(Json::Null.path_settable(&p));
    assert!(obj(vec![("a", Json::Null)]).path_settable(&p));
    assert!(obj(vec![("a", obj(vec![("b", s("leaf"))]))]).path_settable(&path(&["a", "b"])));
    assert!(!obj(vec![("a", s("text"))]).path_settable(&p));
    assert!(!Json::Array(vec![]).path_settable(&p));
    assert!(Json::Array(vec![]).path_settable(&[]));
}

#[test]
fn deep_clone_is_equal() {
    let v = obj(vec![
        ("n", Json::Number("1.5".to_string())),
        ("arr", Json::Array(vec![Json::Bool(true), Json::Null, s("x")])),
    ]);
    assert_eq!(v.deep_clone(), v);
    assert_eq!(v.clone(), v);
}

#[test]
fn object2_keeps_member_order() {
    assert_eq!(object2("k", s("v"), "l", Json::Null), obj(vec![("k", s("v")), ("l", Json::Null)]));
}

use nix_search::catalog::Catalog;
use nix_search::codec::{
    catalog_bytes, decode_catalog, encode_catalog, parse_catalog, CatalogParseError,
};
use nix_search::index::{
    build_index, decode_index, encode_index, index_bytes, lookup, parse_index, query,
    IndexCorrupt,
};
use nix_search::json::Json;
use nix_search::record::PackageRecord;

const RAW: &str = r#"{"foo-1.0": {"name":"foo-1.0","pname":"foo","version":"1.0","meta":{}}, "foobar-2.0": {"name":"foobar-2.0","pname":"foobar","version":"2.0","meta":{}}}"#;

fn names(items: &[&str]) -> Vec<String> {
    items.iter().map(|s| s.to_string()).collect()
}

fn record(name: &str, pname: &str, version: &str) -> PackageRecord {
    PackageRecord {
        name: name.to_string(),
        pname: Some(pname.to_string()),
        version: Some(version.to_string()),
        description: None,
        homepage: Vec::new(),
        position: None,
    }
}

fn sample() -> Catalog {
    let mut catalog = Catalog::new();
    catalog.insert("zsh-5.8".to_string(), record("zsh-5.8", "zsh", "5.8"));
    catalog.insert("bash-5.0".to_string(), record("bash-5.0", "bash", "5.0"));
    let mut full = record("hello-2.10", "hello", "2.10");
    full.description = Some("greets".to_string());
    full.homepage = vec!["https://a.example".to_string(), "https://b.example".to_string()];
    full.position = Some("pkgs/hello.nix:3".to_string());
    catalog.insert("hello-2.10".to_string(), full);
    let mut bare = record("bare", "x", "y");
    bare.pname = None;
    bare.version = None;
    catalog.insert("bare".to_string(), bare);
    catalog
}

#[test]
fn scenario_index_and_queries() {
    let catalog = parse_catalog(RAW.as_bytes()).unwrap();
    let index = build_index(&catalog);
    assert_eq!(index, names(&["foo-1.0", "foobar-2.0"]));
    let hits = lookup("foo", &index, &catalog).unwrap();
    assert_eq!(
        hits,
        vec![
            ("foo-1.0".to_string(), record("foo-1.0", "foo", "1.0")),
            ("foobar-2.0".to_string(), record("foobar-2.0", "foobar", "2.0")),
        ]
    );
    assert_eq!(lookup("bar", &index, &catalog), Ok(vec![]));
}

#[test]
fn new_catalog_is_empty() {
    let catalog = Catalog::new();
    assert_eq!(catalog.len(), 0);
    assert_eq!(catalog.get("a"), None);
    assert_eq!(catalog.position("a"), None);
    assert_eq!(build_index(&catalog), Vec::<String>::new());
}

#[test]
fn insert_keeps_identifiers_sorted_and_unique() {
    let mut catalog = sample();
    assert_eq!(catalog.len(), 4);
    assert_eq!(build_index(&catalog), names(&["bare", "bash-5.0", "hello-2.10", "zsh-5.8"]));
    catalog.insert("bash-5.0".to_string(), record("bash-5.0", "bash", "5.1"));
    assert_eq!(catalog.len(), 4);
    assert_eq!(catalog.get("bash-5.0"), Some(&record("bash-5.0", "bash", "5.1")));
    assert_eq!(catalog.get("zsh-5.8"), Some(&record("zsh-5.8", "zsh", "5.8")));
    assert_eq!(catalog.get("zsh"), None);
    assert_eq!(catalog.position("hello-2.10"), Some(2));
    assert_eq!(catalog.key_at(3), "zsh-5.8");
    assert_eq!(catalog.record_at(1), &record("bash-5.0", "bash", "5.1"));
}

#[test]
fn index_holds_each_key_once_in_order() {
    let catalog = sample();
    let index = build_index(&catalog);
    assert_eq!(index.len(), catalog.len());
    for name in index.iter() {
        assert!(catalog.get(name).is_some());
    }
    for pair in index.windows(2) {
        assert!(pair[0] < pair[1]);
    }
}

#[test]
fn catalog_round_trip_through_documents() {
    let catalog = sample();
    assert_eq!(decode_catalog(&encode_catalog(&catalog)), Ok(catalog.clone()));
    let empty = Catalog::new();
    assert_eq!(decode_catalog(&encode_catalog(&empty)), Ok(empty));
}

#[test]
fn catalog_round_trip_through_bytes() {
    let catalog = sample();
    let bytes = catalog_bytes(&catalog).unwrap();
    assert_eq!(parse_catalog(&bytes), Ok(catalog));
}

#[test]
fn catalog_bytes_are_compact_json() {
    let mut catalog = Catalog::new();
    let mut only = record("a-1", "a", "1");
    only.homepage = vec!["u".to_string()];
    catalog.insert("a-1".to_string(), only);
    let bytes = catalog_bytes(&catalog).unwrap();
    assert_eq!(
        String::from_utf8(bytes).unwrap(),
        r#"{"a-1":{"meta":{"description":null,"homepage":["u"],"position":null},"name":"a-1","pname":"a","version":"1"}}"#
    );
}

#[test]
fn malformed_bytes_are_rejected_without_a_key() {
    assert_eq!(parse_catalog(b"{\"a\": "), Err(CatalogParseError { key: None }));
    assert_eq!(parse_catalog(b""), Err(CatalogParseError { key: None }));
    assert_eq!(parse_catalog(b"[1, 2]"), Err(CatalogParseError { key: None }));
    assert_eq!(decode_catalog(&Json::Null), Err(CatalogParseError { key: None }));
}

#[test]
fn first_rejected_package_is_named() {
    let raw = br#"{"a": {"name": "a"}, "b": {"pname": "b"}, "c": {"name": 3}}"#;
    assert_eq!(parse_catalog(raw), Err(CatalogParseError { key: Some("b".to_string()) }));
    let doc = Json::Object(vec![
        ("z".to_string(), Json::Null),
        ("a".to_string(), Json::Null),
    ]);
    assert_eq!(decode_catalog(&doc), Err(CatalogParseError { key: Some("z".to_string()) }));
}

#[test]
fn unknown_members_and_numbers_are_tolerated() {
    let raw = br#"{"a": {"name": "a", "system": "x86_64-linux", "priority": 5, "meta": {"homepage": ["u", "v"], "broken": false, "weight": 1.5}}}"#;
    let catalog = parse_catalog(raw).unwrap();
    let mut expected = record("a", "", "");
    expected.pname = None;
    expected.version = None;
    expected.homepage = names(&["u", "v"]);
    assert_eq!(catalog.get("a"), Some(&expected));
}

#[test]
fn later_member_replaces_earlier_one() {
    let doc = Json::Object(vec![
        ("a".to_string(), Json::Object(vec![("name".to_string(), Json::Text("one".to_string()))])),
        ("a".to_string(), Json::Object(vec![("name".to_string(), Json::Text("two".to_string()))])),
    ]);
    let catalog = decode_catalog(&doc).unwrap();
    assert_eq!(catalog.len(), 1);
    assert_eq!(catalog.get("a").unwrap().name, "two");
}

#[test]
fn query_selects_in_index_order() {
    let index = names(&["bar", "foo", "foo-1.0", "foobar-2.0", "fop"]);
    assert_eq!(query("foo", &index), names(&["foo", "foo-1.0", "foobar-2.0"]));
    assert_eq!(query("fo", &index), names(&["foo", "foo-1.0", "foobar-2.0", "fop"]));
    assert_eq!(query("foobar-2.0", &index), names(&["foobar-2.0"]));
}

#[test]
fn empty_prefix_selects_everything() {
    let index = names(&["b", "a", "", "a"]);
    assert_eq!(query("", &index), index);
    assert_eq!(query("", &Vec::new()), Vec::<String>::new());
}

#[test]
fn prefix_matching_nothing_selects_nothing() {
    let index = names(&["bar", "foo"]);
    assert_eq!(query("baz", &index), Vec::<String>::new());
    assert_eq!(query("Foo", &index), Vec::<String>::new());
    assert_eq!(query("foo", &Vec::new()), Vec::<String>::new());
}

#[test]
fn orphan_identifier_is_reported() {
    let catalog = sample();
    let index = names(&["bash-5.0", "ghost-1", "gone-2", "zsh-5.8"]);
    assert_eq!(lookup("g", &index, &catalog), Err(IndexCorrupt { key: "ghost-1".to_string() }));
    assert_eq!(
        lookup("b", &index, &catalog),
        Ok(vec![("bash-5.0".to_string(), record("bash-5.0", "bash", "5.0"))])
    );
    assert_eq!(lookup("", &index, &catalog), Err(IndexCorrupt { key: "ghost-1".to_string() }));
}

#[test]
fn index_round_trip() {
    let index = names(&["bar", "foo-1.0", "foobar-2.0"]);
    assert_eq!(decode_index(&encode_index(&index)), Some(index.clone()));
    let bytes = index_bytes(&index).unwrap();
    assert_eq!(String::from_utf8(bytes.clone()).unwrap(), r#"["bar","foo-1.0","foobar-2.0"]"#);
    assert_eq!(parse_index(&bytes), Some(index));
}

#[test]
fn index_of_another_shape_is_rejected() {
    assert_eq!(parse_index(b"{}"), None);
    assert_eq!(parse_index(b"[\"a\", 1]"), None);
    assert_eq!(parse_index(b"[\"a\""), None);
    assert_eq!(parse_index(b"[]"), Some(vec![]));
    assert_eq!(decode_index(&Json::Text("a".to_string())), None);
}

use nix_search::json::Json;
use nix_search::record::{
    decode_homepage, decode_optional_text, decode_record, decode_texts, encode_record,
    encode_texts, Homepage, PackageRecord,
};

fn text(s: &str) -> Json {
    Json::Text(s.to_string())
}

fn member(name: &str, value: Json) -> (String, Json) {
    (name.to_string(), value)
}

fn package(meta: Vec<(String, Json)>) -> Json {
    Json::Object(vec![
        member("name", text("hello-2.10")),
        member("pname", text("hello")),
        member("version", text("2.10")),
        member("meta", Json::Object(meta)),
    ])
}

fn bare(name: &str) -> PackageRecord {
    PackageRecord {
        name: name.to_string(),
        pname: None,
        version: None,
        description: None,
        homepage: Vec::new(),
        position: None,
    }
}

#[test]
fn homepage_single_string_gives_one_uri() {
    let record = decode_record(&package(vec![member("homepage", text("https://a.example"))]))
        .unwrap();
    assert_eq!(record.homepage, vec!["https://a.example".to_string()]);
}

#[test]
fn homepage_list_gives_the_same_list() {
    let list = Json::List(vec![text("https://b.example"), text("https://a.example")]);
    let record = decode_record(&package(vec![member("homepage", list)])).unwrap();
    assert_eq!(
        record.homepage,
        vec!["https://b.example".to_string(), "https://a.example".to_string()]
    );
}

#[test]
fn homepage_absent_gives_no_uri() {
    let record = decode_record(&package(vec![])).unwrap();
    assert_eq!(record.homepage, Vec::<String>::new());
    let record = decode_record(&package(vec![member("homepage", Json::Null)])).unwrap();
    assert_eq!(record.homepage, Vec::<String>::new());
}

#[test]
fn homepage_of_another_shape_is_rejected() {
    assert_eq!(decode_homepage(Some(&Json::Bool(true))), None);
    assert_eq!(decode_homepage(Some(&Json::List(vec![text("a"), Json::Null]))), None);
    assert_eq!(decode_record(&package(vec![member("homepage", Json::Bool(false))])), None);
}

#[test]
fn homepage_variants_are_told_apart() {
    assert_eq!(Homepage::from_json(&text("u")), Some(Homepage::Simple("u".to_string())));
    assert_eq!(
        Homepage::from_json(&Json::List(vec![text("u"), text("v")])),
        Some(Homepage::List(vec!["u".to_string(), "v".to_string()]))
    );
    assert_eq!(Homepage::from_json(&Json::Null), None);
    assert_eq!(Homepage::Simple("u".to_string()).uris(), vec!["u".to_string()]);
    assert_eq!(Homepage::List(vec![]).uris(), Vec::<String>::new());
}

#[test]
fn optional_text_shapes() {
    assert_eq!(decode_optional_text(None), Some(None));
    assert_eq!(decode_optional_text(Some(&Json::Null)), Some(None));
    assert_eq!(decode_optional_text(Some(&text("x"))), Some(Some("x".to_string())));
    assert_eq!(decode_optional_text(Some(&Json::Bool(true))), None);
    assert_eq!(decode_optional_text(Some(&Json::List(vec![]))), None);
}

#[test]
fn text_lists() {
    assert_eq!(decode_texts(&vec![]), Some(vec![]));
    assert_eq!(decode_texts(&vec![text("a"), text("b")]), Some(vec!["a".to_string(), "b".to_string()]));
    assert_eq!(decode_texts(&vec![text("a"), Json::Object(vec![])]), None);
    assert_eq!(
        encode_texts(&vec!["a".to_string(), "b".to_string()]),
        Json::List(vec![text("a"), text("b")])
    );
}

#[test]
fn full_record_is_decoded() {
    let doc = package(vec![
        member("description", text("A friendly greeter")),
        member("homepage", text("https://hello.example")),
        member("position", text("pkgs/hello/default.nix:12")),
        member("license", Json::Object(vec![member("free", Json::Bool(true))])),
    ]);
    let record = decode_record(&doc).unwrap();
    assert_eq!(
        record,
        PackageRecord {
            name: "hello-2.10".to_string(),
            pname: Some("hello".to_string()),
            version: Some("2.10".to_string()),
            description: Some("A friendly greeter".to_string()),
            homepage: vec!["https://hello.example".to_string()],
            position: Some("pkgs/hello/default.nix:12".to_string()),
        }
    );
}

#[test]
fn only_name_is_required() {
    let doc = Json::Object(vec![member("name", text("solo"))]);
    assert_eq!(decode_record(&doc), Some(bare("solo")));
    let doc = Json::Object(vec![member("name", text("solo")), member("meta", Json::Null)]);
    assert_eq!(decode_record(&doc), Some(bare("solo")));
}

#[test]
fn missing_or_wrong_name_is_rejected() {
    assert_eq!(decode_record(&Json::Object(vec![member("pname", text("x"))])), None);
    assert_eq!(decode_record(&Json::Object(vec![member("name", Json::Null)])), None);
    assert_eq!(decode_record(&Json::Object(vec![member("name", Json::Bool(true))])), None);
    assert_eq!(decode_record(&text("solo")), None);
    assert_eq!(decode_record(&Json::Null), None);
}

#[test]
fn wrong_shapes_of_known_members_are_rejected() {
    let doc = Json::Object(vec![member("name", text("a")), member("pname", Json::Bool(true))]);
    assert_eq!(decode_record(&doc), None);
    let doc = Json::Object(vec![member("name", text("a")), member("version", Json::List(vec![]))]);
    assert_eq!(decode_record(&doc), None);
    let doc = Json::Object(vec![member("name", text("a")), member("meta", text("m"))]);
    assert_eq!(decode_record(&doc), None);
    assert_eq!(decode_record(&package(vec![member("description", Json::Bool(true))])), None);
    assert_eq!(decode_record(&package(vec![member("position", Json::List(vec![]))])), None);
}

#[test]
fn later_member_of_the_same_name_counts() {
    let doc = Json::Object(vec![member("name", text("first")), member("name", text("second"))]);
    assert_eq!(decode_record(&doc), Some(bare("second")));
}

#[test]
fn unknown_members_are_ignored() {
    let doc = Json::Object(vec![
        member("system", text("x86_64-linux")),
        member("name", text("a")),
        member("outputs", Json::List(vec![Json::Null])),
    ]);
    assert_eq!(decode_record(&doc), Some(bare("a")));
}

#[test]
fn record_encoding_has_every_member() {
    let doc = encode_record(&bare("a"));
    let expected = Json::Object(vec![
        member("name", text("a")),
        member("pname", Json::Null),
        member("version", Json::Null),
        member(
            "meta",
            Json::Object(vec![
                member("description", Json::Null),
                member("homepage", Json::List(vec![])),
                member("position", Json::Null),
            ]),
        ),
    ]);
    assert_eq!(doc, expected);
}

#[test]
fn record_round_trip() {
    let records = vec![
        bare("a"),
        PackageRecord {
            name: "hello-2.10".to_string(),
            pname: Some("hello".to_string()),
            version: None,
            description: Some(String::new()),
            homepage: vec!["u".to_string(), "v".to_string()],
            position: None,
        },
        PackageRecord {
            name: String::new(),
            pname: None,
            version: Some("1".to_string()),
            description: None,
            homepage: vec!["only".to_string()],
            position: Some("p:1".to_string()),
        },
    ];
    for record in records.iter() {
        assert_eq!(decode_record(&encode_record(record)).as_ref(), Some(record));
        assert_eq!(&record.duplicate(), record);
    }
}

use hya_server::query::{
    body_len, dispatch_uri, encode, field_text, query_of, query_request_fields, scope_directory,
    QueryField, QueryScalar, SerializedField, DIRECTORY_HEADER,
};

fn pairs(list: &[(&str, &str)]) -> Vec<(String, String)> {
    list.iter().map(|(k, v)| (k.to_string(), v.to_string())).collect()
}

fn lookup<'a>(fields: &'a [(String, QueryField)], key: &str) -> Option<&'a QueryField> {
    fields.iter().find(|(k, _)| k == key).map(|(_, v)| v)
}

#[test]
fn query_request_decodes_page_fields_from_dotted_query_keys() {
    let query = pairs(&[("page.cursor", "next"), ("page.limit", "2")]);
    let fields = query_request_fields(&Vec::new(), &query);
    assert_eq!(fields.len(), 1);
    match lookup(&fields, "page") {
        Some(QueryField::Page(page)) => {
            let cursor = page.iter().find(|(k, _)| k == "cursor").map(|(_, v)| v);
            let limit = page.iter().find(|(k, _)| k == "limit").map(|(_, v)| v);
            assert_eq!(cursor, Some(&QueryScalar::Text("next".to_string())));
            // protojson decodes the string-encoded number "2" as the limit 2
            assert_eq!(limit, Some(&QueryScalar::Text("2".to_string())));
        }
        other => panic!("unexpected page field {other:?}"),
    }
}

#[test]
fn query_fields_coerce_booleans_skip_empties_and_let_path_vars_win() {
    let query = pairs(&[
        ("includeRaw", "true"),
        ("limit", ""),
        ("page.other", "x"),
        ("session", "from-query"),
        ("verbose", "false"),
    ]);
    let fields = query_request_fields(&pairs(&[("session", "from-path")]), &query);
    assert_eq!(fields.len(), 4);
    assert_eq!(lookup(&fields, "includeRaw"), Some(&QueryField::Scalar(QueryScalar::Bool(true))));
    assert_eq!(lookup(&fields, "verbose"), Some(&QueryField::Scalar(QueryScalar::Bool(false))));
    assert_eq!(
        lookup(&fields, "page.other"),
        Some(&QueryField::Scalar(QueryScalar::Text("x".to_string())))
    );
    assert_eq!(
        lookup(&fields, "session"),
        Some(&QueryField::Scalar(QueryScalar::Text("from-path".to_string())))
    );
    assert_eq!(lookup(&fields, "limit"), None);
    assert_eq!(lookup(&fields, "page"), None);
}

#[test]
fn query_of_drops_defaults() {
    let fields = vec![
        ("a".to_string(), SerializedField::Text("x".to_string())),
        ("b".to_string(), SerializedField::Text(String::new())),
        ("c".to_string(), SerializedField::Number("0".to_string())),
        ("d".to_string(), SerializedField::Number("12".to_string())),
        ("e".to_string(), SerializedField::Bool(false)),
        ("f".to_string(), SerializedField::Bool(true)),
        ("g".to_string(), SerializedField::Other),
        ("h".to_string(), SerializedField::Text("false".to_string())),
    ];
    assert_eq!(query_of(&fields), pairs(&[("a", "x"), ("d", "12"), ("f", "true")]));
}

#[test]
fn path_fields_take_strings_and_numbers() {
    assert_eq!(field_text(&Some(SerializedField::Text("s1".to_string()))), "s1");
    assert_eq!(field_text(&Some(SerializedField::Number("5000".to_string()))), "5000");
    assert_eq!(field_text(&Some(SerializedField::Bool(true))), "");
    assert_eq!(field_text(&None), "");
}

#[test]
fn encode_percent_encodes_reserved_bytes() {
    assert_eq!(encode("abc-_.~XYZ019"), "abc-_.~XYZ019");
    assert_eq!(encode("v1 probe"), "v1%20probe");
    assert_eq!(encode("**/*.rs"), "%2A%2A%2F%2A.rs");
    assert_eq!(encode("a&b=c?d#"), "a%26b%3Dc%3Fd%23");
    assert_eq!(encode("\u{e9}"), "%C3%A9");
    assert_eq!(encode(""), "");
}

#[test]
fn dispatch_uri_appends_encoded_query() {
    assert_eq!(dispatch_uri("/v1/health", &Vec::new()), "/v1/health");
    assert_eq!(
        dispatch_uri("/v1/fs/find", &pairs(&[("directory", "/tmp/x y"), ("pattern", "*.rs")])),
        "/v1/fs/find?directory=%2Ftmp%2Fx%20y&pattern=%2A.rs"
    );
}

#[test]
fn body_len_is_decimal() {
    assert_eq!(body_len(b""), "0");
    assert_eq!(body_len(b"hello"), "5");
    assert_eq!(body_len(&[0u8; 1234]), "1234");
}

#[test]
fn scope_directory_prefers_header_then_field_then_workdir() {
    assert_eq!(DIRECTORY_HEADER, "x-hya-directory");
    assert_eq!(scope_directory(Some(" /h "), "/r"), "/h");
    assert_eq!(scope_directory(Some("  "), " /r "), "/r");
    assert_eq!(scope_directory(None, "/r"), "/r");
    assert_eq!(scope_directory(None, " \t"), ".");
    assert_eq!(scope_directory(Some("\u{3000}"), ""), ".");
}

#[test]
fn query_of_flattens_nested_page_fields() {
    let page = SerializedField::Object(vec![
        ("cursor".to_string(), SerializedField::Text("abc".to_string())),
        ("limit".to_string(), SerializedField::Number("50".to_string())),
        ("skip".to_string(), SerializedField::Number("0".to_string())),
        ("deep".to_string(), SerializedField::Object(Vec::new())),
    ]);
    let fields = vec![
        ("directory".to_string(), SerializedField::Text("/w".to_string())),
        ("page".to_string(), page),
    ];
    let query = query_of(&fields);
    assert_eq!(
        query,
        pairs(&[("directory", "/w"), ("page.cursor", "abc"), ("page.limit", "50")])
    );
    assert_eq!(
        dispatch_uri("/v1/sessions", &query),
        "/v1/sessions?directory=%2Fw&page.cursor=abc&page.limit=50"
    );
    // the HTTP side reads the dotted keys back into the nested page object
    let back = query_request_fields(&Vec::new(), &query);
    match lookup(&back, "page") {
        Some(QueryField::Page(page)) => {
            assert_eq!(page.len(), 2);
            assert!(page.contains(&("cursor".to_string(), QueryScalar::Text("abc".to_string()))));
            assert!(page.contains(&("limit".to_string(), QueryScalar::Text("50".to_string()))));
        }
        other => panic!("unexpected page field {other:?}"),
    }
}

#[test]
fn grpc_directory_metadata_scopes_like_the_http_header() {
    assert_eq!(hya_server::query::DIRECTORY_METADATA, "hya-directory");
    assert_eq!(hya_server::query::forwarded_directory_header(None), None);
    let (name, value) = hya_server::query::forwarded_directory_header(Some(" /w ")).unwrap();
    assert_eq!(name, DIRECTORY_HEADER);
    assert_eq!(scope_directory(Some(&value), "/r"), "/w");
}

#[test]
fn encoded_text_decodes_back_and_keeps_its_shape() {
    fn decode(text: &str) -> Vec<u8> {
        let bytes = text.as_bytes();
        let mut out = Vec::new();
        let mut i = 0;
        while i < bytes.len() {
            if bytes[i] == b'%' {
                out.push(u8::from_str_radix(&text[i + 1..i + 3], 16).unwrap());
                i += 3;
            } else {
                out.push(bytes[i]);
                i += 1;
            }
        }
        out
    }
    for text in ["a b&c=d+e", "\u{e9}t\u{e9}", "", "~._-", "100%"] {
        let encoded = encode(text);
        assert_eq!(decode(&encoded), text.as_bytes());
        assert!(encoded
            .chars()
            .all(|c| c.is_ascii_alphanumeric() || "-_.~%".contains(c)));
        let escaped = text.bytes().filter(|b| !(b.is_ascii_alphanumeric() || b"-_.~".contains(b))).count();
        assert_eq!(encoded.len(), text.len() + 2 * escaped);
        assert_eq!(encode(&format!("{text}{text}")), format!("{encoded}{encoded}"));
    }
    assert_eq!(encode("a+b c"), "a%2Bb%20c");
}

#[test]
fn query_of_lists_keys_once_in_ascending_order() {
    let fields = vec![
        ("zeta".to_string(), SerializedField::Text("z".to_string())),
        ("alpha".to_string(), SerializedField::Bool(true)),
        (
            "page".to_string(),
            SerializedField::Object(vec![
                ("limit".to_string(), SerializedField::Number("5".to_string())),
                ("cursor".to_string(), SerializedField::Text("c".to_string())),
            ]),
        ),
        ("a.b".to_string(), SerializedField::Text("1".to_string())),
        ("a".to_string(), SerializedField::Object(vec![("b".to_string(), SerializedField::Text("2".to_string()))])),
    ];
    assert_eq!(
        query_of(&fields),
        pairs(&[
            ("a.b", "2"),
            ("alpha", "true"),
            ("page.cursor", "c"),
            ("page.limit", "5"),
            ("zeta", "z"),
        ])
    );
}

use appmeta::names::stored_names;
use appmeta::text::{concat2, concat3, same_text};
use appmeta::{
    decode_name_list, encode_name_list, get_app_meta_basicinfo_list, service_basic, Action,
    AppMetaService, ServiceBasic,
};

fn actions() -> Vec<Action> {
    vec![Action { name: "start".to_string(), cmd: "./start.sh".to_string() }]
}

#[test]
fn record_keeps_what_it_was_made_of() {
    let record = AppMetaService::new(actions(), 9, "/srv/a".to_string());
    assert_eq!(record.node(), 9);
    assert_eq!(record.app_dir(), "/srv/a");
    assert_eq!(record.actions(), &actions());
}

#[test]
fn listing_shows_node_in_decimal() {
    let record = AppMetaService::new(actions(), 4_000_000_000, "/srv/a".to_string());
    let shown = service_basic(&"a".to_string(), &record);
    assert_eq!(
        shown,
        ServiceBasic {
            name: "a".to_string(),
            node: "4000000000".to_string(),
            dir: "/srv/a".to_string(),
            actions: actions(),
        }
    );
    let zero = service_basic(&"z".to_string(), &AppMetaService::new(vec![], 0, String::new()));
    assert_eq!(zero.node, "0");
}

#[test]
fn listing_has_one_entry_for_each_name_in_order() {
    let entries = vec![
        ("b".to_string(), AppMetaService::new(actions(), 2, "/srv/b".to_string())),
        ("a".to_string(), AppMetaService::new(vec![], 10, "/srv/a".to_string())),
    ];
    let listed = get_app_meta_basicinfo_list(&entries);
    assert_eq!(
        listed,
        vec![
            ServiceBasic {
                name: "b".to_string(),
                node: "2".to_string(),
                dir: "/srv/b".to_string(),
                actions: actions(),
            },
            ServiceBasic {
                name: "a".to_string(),
                node: "10".to_string(),
                dir: "/srv/a".to_string(),
                actions: vec![],
            },
        ]
    );
    assert!(get_app_meta_basicinfo_list(&Vec::new()).is_empty());
}

#[test]
fn name_list_is_stored_as_json() {
    let names = vec!["a".to_string(), "b \"c\"".to_string()];
    assert_eq!(encode_name_list(&names), Some("[\"a\",\"b \\\"c\\\"\"]".to_string()));
    assert_eq!(encode_name_list(&Vec::new()), Some("[]".to_string()));
}

#[test]
fn name_list_is_read_from_json() {
    assert_eq!(
        decode_name_list(Some(b"[\"a\", \"b\"]")),
        vec!["a".to_string(), "b".to_string()]
    );
    assert_eq!(decode_name_list(Some(b"[]")), Vec::<String>::new());
}

#[test]
fn unreadable_name_list_is_empty() {
    assert_eq!(decode_name_list(None), Vec::<String>::new());
    assert_eq!(decode_name_list(Some(b"")), Vec::<String>::new());
    assert_eq!(decode_name_list(Some(b"{\"a\":1}")), Vec::<String>::new());
    assert_eq!(decode_name_list(Some(b"[1, 2]")), Vec::<String>::new());
    assert_eq!(decode_name_list(Some(b"[\"a\"")), Vec::<String>::new());
}

#[test]
fn name_list_survives_storing_and_reading() {
    let names = vec!["svc1".to_string(), "svc 2".to_string(), "\u{e9}".to_string()];
    let text = encode_name_list(&names).unwrap();
    assert_eq!(decode_name_list(Some(text.as_bytes())), names);
}

#[test]
fn stored_names_is_fail_open() {
    assert_eq!(stored_names(Some(vec!["a".to_string()])), vec!["a".to_string()]);
    assert_eq!(stored_names(None), Vec::<String>::new());
}

#[test]
fn text_helpers() {
    assert!(same_text("abc", "abc"));
    assert!(!same_text("abc", "abd"));
    assert!(!same_text("abc", "ab"));
    assert_eq!(concat2("ab", "cd"), "abcd");
    assert_eq!(concat3("a", "", "c"), "ac");
}

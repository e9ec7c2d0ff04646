use appmeta::{
    DescriptorError, FnArg, FnArgYaml, FnEvent, FnEventYaml, FnMeta, FnMetaYaml, KeyPattern, KvOps,
};

fn ops(names: &[&str]) -> Vec<String> {
    names.iter().map(|s| s.to_string()).collect()
}

fn entry(pattern: &str, names: &[&str]) -> (String, Vec<String>) {
    (pattern.to_string(), ops(names))
}

fn sample_yaml() -> FnMetaYaml {
    FnMetaYaml {
        event: vec![
            FnEventYaml::HttpFn { http_fn: () },
            FnEventYaml::KvSet { kv_set: 1 },
            FnEventYaml::KvSet { kv_set: 0 },
        ],
        args: vec![FnArgYaml::KvKey { kv_key: 0 }, FnArgYaml::HttpText { http_text: () }],
        kvs: Some(vec![
            entry("user_{}", &["get"]),
            entry("order_{}_{}", &["set", "delete"]),
            entry("user_{}_{}", &["get", "set", "get"]),
        ]),
    }
}

#[test]
fn event_and_argument_conversions() {
    assert_eq!(FnEvent::from(FnEventYaml::HttpFn { http_fn: () }), FnEvent::HttpFn);
    assert_eq!(FnEvent::from(FnEventYaml::HttpApp { http_app: () }), FnEvent::HttpApp);
    assert_eq!(FnEvent::from(FnEventYaml::KvSet { kv_set: 3 }), FnEvent::KvSet(3));
    assert_eq!(FnArg::from(FnArgYaml::KvKey { kv_key: 2 }), FnArg::KvKey(2));
    assert_eq!(FnArg::from(FnArgYaml::HttpText { http_text: () }), FnArg::HttpText);
}

#[test]
fn valid_descriptor_is_accepted_and_loaded() {
    let yaml = sample_yaml();
    assert_eq!(yaml.validate(), Ok(()));
    let meta = FnMeta::from(yaml);
    assert_eq!(meta.event, vec![FnEvent::HttpFn, FnEvent::KvSet(1), FnEvent::KvSet(0)]);
    assert_eq!(meta.args, vec![FnArg::KvKey(0), FnArg::HttpText]);
    let kvs = meta.kvs.as_ref().unwrap();
    assert_eq!(kvs.len(), 3);
    assert_eq!(kvs[0].pattern, KeyPattern::new("user_{}".to_owned()));
    assert!(kvs[0].can(KvOps::Get));
    assert!(!kvs[0].can(KvOps::Put));
    assert!(!kvs[0].can(KvOps::Delete));
    assert!(!kvs[1].can(KvOps::Get));
    assert!(kvs[1].can(KvOps::Put));
    assert!(kvs[1].can(KvOps::Delete));
    assert!(kvs[2].can(KvOps::Get));
    assert!(kvs[2].can(KvOps::Put));
    assert!(!kvs[2].can(KvOps::Delete));
}

#[test]
fn descriptor_without_keys_loads_without_records() {
    let yaml = FnMetaYaml {
        event: vec![FnEventYaml::HttpApp { http_app: () }],
        args: vec![],
        kvs: None,
    };
    assert_eq!(yaml.validate(), Ok(()));
    let meta = FnMeta::from(yaml);
    assert!(meta.kvs.is_none());
    assert!(meta.try_get_kv_meta_by_index(0).is_none());
    assert_eq!(meta.match_key(b"anything", KvOps::Get), None);
}

#[test]
fn unknown_operation_name_is_refused() {
    let yaml = FnMetaYaml {
        event: vec![],
        args: vec![],
        kvs: Some(vec![entry("a_{}", &["get", "set"]), entry("b_{}", &["get", "write", "nope"])]),
    };
    assert_eq!(yaml.validate(), Err(DescriptorError::InvalidOperation { record: 1, op: 1 }));
}

#[test]
fn operation_names_are_case_sensitive() {
    let yaml = FnMetaYaml { event: vec![], args: vec![], kvs: Some(vec![entry("a_{}", &["Get"])]) };
    assert_eq!(yaml.validate(), Err(DescriptorError::InvalidOperation { record: 0, op: 0 }));
}

#[test]
fn repeated_pattern_is_refused() {
    let yaml = FnMetaYaml {
        event: vec![],
        args: vec![],
        kvs: Some(vec![entry("a_{}", &["get"]), entry("b_{}", &[]), entry("a_{}", &["set"])]),
    };
    assert_eq!(yaml.validate(), Err(DescriptorError::DuplicatePattern { record: 2 }));
}

#[test]
fn trigger_index_out_of_range_is_refused() {
    let yaml = FnMetaYaml {
        event: vec![
            FnEventYaml::KvSet { kv_set: 0 },
            FnEventYaml::HttpFn { http_fn: () },
            FnEventYaml::KvSet { kv_set: 1 },
        ],
        args: vec![],
        kvs: Some(vec![entry("a_{}", &["set"])]),
    };
    assert_eq!(yaml.validate(), Err(DescriptorError::TriggerOutOfRange { event: 2 }));
    let none = FnMetaYaml {
        event: vec![FnEventYaml::KvSet { kv_set: 0 }],
        args: vec![],
        kvs: None,
    };
    assert_eq!(none.validate(), Err(DescriptorError::TriggerOutOfRange { event: 0 }));
}

#[test]
fn operation_names_are_checked_before_triggers() {
    let yaml = FnMetaYaml {
        event: vec![FnEventYaml::KvSet { kv_set: 9 }],
        args: vec![],
        kvs: Some(vec![entry("a_{}", &["bad"])]),
    };
    assert_eq!(yaml.validate(), Err(DescriptorError::InvalidOperation { record: 0, op: 0 }));
}

#[test]
fn match_key_returns_first_record_with_the_right() {
    let meta = FnMeta::from(sample_yaml());
    assert_eq!(
        meta.match_key(b"user_7", KvOps::Get),
        Some(KeyPattern::new("user_{}".to_owned()))
    );
    assert_eq!(meta.match_key(b"user_7", KvOps::Put), None);
    assert_eq!(
        meta.match_key(b"order_1_2", KvOps::Delete),
        Some(KeyPattern::new("order_{}_{}".to_owned()))
    );
    assert_eq!(meta.match_key(b"order_1_2", KvOps::Get), None);
    assert_eq!(
        meta.match_key(b"user_1_2", KvOps::Put),
        Some(KeyPattern::new("user_{}_{}".to_owned()))
    );
    assert_eq!(meta.match_key(b"nothing", KvOps::Get), None);
}

#[test]
fn match_key_takes_declaration_order_not_best_match() {
    let yaml = FnMetaYaml {
        event: vec![],
        args: vec![],
        kvs: Some(vec![entry("{}_{}", &["get"]), entry("user_{}", &["get", "set"])]),
    };
    let meta = FnMeta::from(yaml);
    assert_eq!(meta.match_key(b"user_1", KvOps::Get), Some(KeyPattern::new("{}_{}".to_owned())));
    assert_eq!(
        meta.match_key(b"user_1", KvOps::Put),
        Some(KeyPattern::new("user_{}".to_owned()))
    );
}

#[test]
fn match_key_never_matches_bytes_that_are_no_text() {
    let yaml = FnMetaYaml {
        event: vec![],
        args: vec![],
        kvs: Some(vec![entry("{}", &["get"])]),
    };
    let meta = FnMeta::from(yaml);
    assert_eq!(meta.match_key(&[0x61, 0xff], KvOps::Get), None);
    assert_eq!(meta.match_key(&[0xc3], KvOps::Get), None);
    assert_eq!(meta.match_key(&[0x61, 0x62], KvOps::Get), Some(KeyPattern::new("{}".to_owned())));
}

#[test]
fn records_are_found_by_index() {
    let meta = FnMeta::from(sample_yaml());
    assert_eq!(
        meta.try_get_kv_meta_by_index(1).unwrap().pattern,
        KeyPattern::new("order_{}_{}".to_owned())
    );
    assert!(meta.try_get_kv_meta_by_index(3).is_none());
    assert_eq!(
        meta.get_kv_meta_by_index_unwrap(2).pattern,
        KeyPattern::new("user_{}_{}".to_owned())
    );
}

#[test]
fn find_will_trigger_kv_event_compares_pattern_text() {
    let meta = FnMeta::from(sample_yaml());
    let order = KeyPattern::new("order_{}_{}".to_owned());
    let user = KeyPattern::new("user_{}".to_owned());
    let unsubscribed = KeyPattern::new("user_{}_{}".to_owned());
    assert_eq!(meta.find_will_trigger_kv_event(&order, KvOps::Put).unwrap().pattern, order);
    assert_eq!(meta.find_will_trigger_kv_event(&user, KvOps::Put).unwrap().pattern, user);
    assert!(meta.find_will_trigger_kv_event(&unsubscribed, KvOps::Put).is_none());
    assert!(meta
        .find_will_trigger_kv_event(&KeyPattern::new("order_a_b".to_owned()), KvOps::Put)
        .is_none());
}

#[test]
fn only_writes_trigger() {
    let meta = FnMeta::from(sample_yaml());
    let order = KeyPattern::new("order_{}_{}".to_owned());
    assert!(meta.find_will_trigger_kv_event(&order, KvOps::Get).is_none());
    assert!(meta.find_will_trigger_kv_event(&order, KvOps::Delete).is_none());
}

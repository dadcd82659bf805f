use tushare::jsontext::request_body;
use tushare::{Dict, Tushare};

#[test]
fn fresh_builder_request_is_null() {
    let t = Tushare::new("tok".to_string());
    let b = t.querybuilder("daily".to_string());
    let env = b.build();
    assert!(env.params.is_none());
    assert!(env.fields.is_none());
    let body = request_body(&env);
    assert_eq!(
        body,
        "{\"api_name\":\"daily\",\"token\":\"tok\",\"params\":null,\"fields\":null}"
    );
}

#[test]
fn add_param_last_write_wins_and_originals_unchanged() {
    let t = Tushare::new("tok".to_string());
    let b0 = t.querybuilder("daily".to_string());
    let b1 = b0.addparam("k1".to_string(), "v1".to_string());
    let b2 = b1.addparam("k1".to_string(), "v2".to_string());
    let p2 = b2.build().params.unwrap();
    assert_eq!(p2.len(), 1);
    assert_eq!(p2.get(&"k1".to_string()).unwrap().as_str(), "v2");
    // deriving b2 left b1 untouched
    let p1 = b1.build().params.unwrap();
    assert_eq!(p1.get(&"k1".to_string()).unwrap().as_str(), "v1");
    // and b0 still carries no parameters at all
    assert!(b0.build().params.is_none());
}

#[test]
fn add_param_keeps_other_keys() {
    let t = Tushare::new("tok".to_string());
    let b = t
        .querybuilder("daily".to_string())
        .addparam("start_date".to_string(), "2023-01-01".to_string())
        .addparam("end_date".to_string(), "2024-04-23".to_string())
        .addparam("start_date".to_string(), "2023-06-01".to_string());
    let p = b.build().params.unwrap();
    assert_eq!(p.len(), 2);
    assert_eq!(p.get(&"start_date".to_string()).unwrap().as_str(), "2023-06-01");
    assert_eq!(p.get(&"end_date".to_string()).unwrap().as_str(), "2024-04-23");
}

#[test]
fn set_params_replaces_wholesale() {
    let t = Tushare::new("tok".to_string());
    let b = t
        .querybuilder("daily".to_string())
        .addparam("old_key".to_string(), "old_val".to_string());
    let replacement = Dict::new().insert("x".to_string(), "y".to_string());
    let b2 = b.params(replacement);
    let p = b2.build().params.unwrap();
    assert_eq!(p.len(), 1);
    assert!(p.get(&"old_key".to_string()).is_none());
    assert_eq!(p.get(&"x".to_string()).unwrap().as_str(), "y");
}

#[test]
fn fields_sets_field_list() {
    let t = Tushare::new("tok".to_string());
    let b = t
        .querybuilder("daily".to_string())
        .fields("ts_code,trade_date,open".to_string());
    let env = b.build();
    assert_eq!(env.fields.unwrap(), "ts_code,trade_date,open");
}

#[test]
fn request_body_with_params_and_fields() {
    let t = Tushare::new("tok".to_string());
    let b = t
        .querybuilder("daily".to_string())
        .addparam("k1".to_string(), "v1".to_string())
        .addparam("k2".to_string(), "v2".to_string())
        .fields("f1,f2".to_string());
    let body = request_body(&b.build());
    assert_eq!(
        body,
        "{\"api_name\":\"daily\",\"token\":\"tok\",\"params\":{\"k1\":\"v1\",\"k2\":\"v2\"},\"fields\":\"f1,f2\"}"
    );
}

#[test]
fn request_body_escapes_special_characters() {
    let t = Tushare::new("t\"o\\k\n".to_string());
    let b = t.querybuilder("daily".to_string());
    let body = request_body(&b.build());
    assert_eq!(
        body,
        "{\"api_name\":\"daily\",\"token\":\"t\\\"o\\\\k\\u000a\",\"params\":null,\"fields\":null}"
    );
}

#[test]
fn dict_insert_and_get() {
    let d = Dict::new();
    assert_eq!(d.len(), 0);
    let d = d.insert("a".to_string(), "1".to_string());
    let d = d.insert("b".to_string(), "2".to_string());
    let d = d.insert("a".to_string(), "3".to_string());
    assert_eq!(d.len(), 2);
    assert_eq!(d.get(&"a".to_string()).unwrap().as_str(), "3");
    assert_eq!(d.get(&"b".to_string()).unwrap().as_str(), "2");
    assert!(d.get(&"c".to_string()).is_none());
    let copy = d.duplicate();
    assert_eq!(copy.len(), 2);
    assert_eq!(copy.get(&"a".to_string()).unwrap().as_str(), "3");
}

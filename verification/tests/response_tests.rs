use serde_json::Value;
use tushare::jsontext::{i64_to_string, u64_to_string};
use tushare::response::{
    code_outcome, handle_reply, process_response, render_table_text, reshape, rows_to_json,
    tabulate,
};
use tushare::TushareError;

fn val(text: &str) -> Value {
    serde_json::from_str(text).unwrap()
}

#[test]
fn well_formed_response_becomes_two_by_two_table() {
    let df = process_response(
        "{\"code\":0,\"data\":{\"fields\":[\"a\",\"b\"],\"items\":[[1,2],[3,4]]}}",
    )
    .unwrap();
    assert_eq!(df.shape(), (2, 2));
    let names = df.get_column_names();
    assert_eq!(names.len(), 2);
    assert_eq!(names[0].as_str(), "a");
    assert_eq!(names[1].as_str(), "b");
    let a = df.column("a").unwrap().as_materialized_series().i64().unwrap();
    assert_eq!(a.get(0), Some(1));
    assert_eq!(a.get(1), Some(3));
    let b = df.column("b").unwrap().as_materialized_series().i64().unwrap();
    assert_eq!(b.get(0), Some(2));
    assert_eq!(b.get(1), Some(4));
}

#[test]
fn empty_items_fail_with_empty_data() {
    let r = process_response("{\"code\":0,\"data\":{\"fields\":[\"a\"],\"items\":[]}}");
    assert!(matches!(r.unwrap_err(), TushareError::EmptyError));
}

#[test]
fn nonzero_code_fails_with_request_error() {
    let r = process_response("{\"code\":18,\"msg\":\"invalid token\"}");
    match r.unwrap_err() {
        TushareError::RequestError { code, msg } => {
            assert_eq!(code, "18");
            assert_eq!(msg, "invalid token");
        }
        other => panic!("expected RequestError, got {:?}", other),
    }
}

#[test]
fn negative_code_is_rendered_in_decimal() {
    let r = process_response("{\"code\":-7,\"msg\":\"boom\"}");
    match r.unwrap_err() {
        TushareError::RequestError { code, msg } => {
            assert_eq!(code, "-7");
            assert_eq!(msg, "boom");
        }
        other => panic!("expected RequestError, got {:?}", other),
    }
}

#[test]
fn nonzero_code_without_msg_reports_unknown() {
    let r = process_response("{\"code\":5}");
    match r.unwrap_err() {
        TushareError::RequestError { code, msg } => {
            assert_eq!(code, "5");
            assert_eq!(msg, "unknown");
        }
        other => panic!("expected RequestError, got {:?}", other),
    }
}

#[test]
fn missing_items_fail_naming_the_path() {
    let r = process_response("{\"code\":0,\"data\":{\"fields\":[\"a\"]}}");
    match r.unwrap_err() {
        TushareError::DataError(path) => assert_eq!(path, "data/items"),
        other => panic!("expected DataError, got {:?}", other),
    }
}

#[test]
fn missing_data_fails_naming_fields_path() {
    let r = process_response("{\"code\":0}");
    match r.unwrap_err() {
        TushareError::DataError(path) => assert_eq!(path, "data/fields"),
        other => panic!("expected DataError, got {:?}", other),
    }
}

#[test]
fn non_string_field_fails_naming_the_index() {
    let r = process_response("{\"code\":0,\"data\":{\"fields\":[\"a\",1],\"items\":[[1,2]]}}");
    match r.unwrap_err() {
        TushareError::DataError(path) => assert_eq!(path, "data/fields at 1"),
        other => panic!("expected DataError, got {:?}", other),
    }
}

#[test]
fn non_array_item_fails_naming_the_index() {
    let r = process_response("{\"code\":0,\"data\":{\"fields\":[\"a\"],\"items\":[5]}}");
    match r.unwrap_err() {
        TushareError::DataError(path) => {
            assert_eq!(path, "data/items/0 is expected to be an array")
        }
        other => panic!("expected DataError, got {:?}", other),
    }
}

#[test]
fn short_row_drops_unmatched_field_names() {
    let df = process_response(
        "{\"code\":0,\"data\":{\"fields\":[\"a\",\"b\",\"c\"],\"items\":[[1,2]]}}",
    )
    .unwrap();
    assert_eq!(df.shape(), (1, 2));
    let names = df.get_column_names();
    assert_eq!(names[0].as_str(), "a");
    assert_eq!(names[1].as_str(), "b");
}

#[test]
fn long_row_drops_extra_values() {
    let df =
        process_response("{\"code\":0,\"data\":{\"fields\":[\"a\"],\"items\":[[1,2,3]]}}").unwrap();
    assert_eq!(df.shape(), (1, 1));
}

#[test]
fn invalid_json_fails_with_decode_error() {
    let r = process_response("this is not json");
    assert!(matches!(r.unwrap_err(), TushareError::JsonError(_)));
}

#[test]
fn transport_failure_surfaces_as_network_error_only() {
    let r = handle_reply(Err("connection timed out".to_string()));
    match r.unwrap_err() {
        TushareError::NetworkError { cause } => assert_eq!(cause, "connection timed out"),
        other => panic!("expected NetworkError, got {:?}", other),
    }
}

#[test]
fn received_body_never_becomes_network_error() {
    let r = handle_reply(Ok("not json at all".to_string()));
    assert!(matches!(r.unwrap_err(), TushareError::JsonError(_)));
}

#[test]
fn reshape_zips_fields_against_rows() {
    let fields = vec!["a".to_string(), "b".to_string()];
    let items = vec![vec![val("1"), val("2")], vec![val("3")]];
    let rows = reshape(&fields, &items);
    assert_eq!(rows.len(), 2);
    assert_eq!(rows[0].len(), 2);
    assert_eq!(rows[0][0].0, "a");
    assert_eq!(rows[0][0].1, val("1"));
    assert_eq!(rows[0][1].0, "b");
    assert_eq!(rows[0][1].1, val("2"));
    assert_eq!(rows[1].len(), 1);
    assert_eq!(rows[1][0].0, "a");
    assert_eq!(rows[1][0].1, val("3"));
}

#[test]
fn rows_to_json_frames_array_of_objects() {
    let fields = vec!["a".to_string(), "b".to_string()];
    let items = vec![vec![val("1"), val("2")], vec![val("3"), val("4")]];
    let rows = reshape(&fields, &items);
    let text = rows_to_json(&rows).unwrap();
    assert_eq!(text, "[{\"a\":1,\"b\":2},{\"a\":3,\"b\":4}]");
}

#[test]
fn repeated_field_name_keeps_last_value() {
    let fields = vec!["a".to_string(), "b".to_string(), "a".to_string()];
    let items = vec![vec![val("1"), val("2"), val("3")]];
    let rows = reshape(&fields, &items);
    assert_eq!(rows.len(), 1);
    assert_eq!(rows[0].len(), 2);
    assert_eq!(rows[0][0].0, "a");
    assert_eq!(rows[0][0].1, val("3"));
    assert_eq!(rows[0][1].0, "b");
    assert_eq!(rows[0][1].1, val("2"));
    let text = rows_to_json(&rows).unwrap();
    assert_eq!(text, "[{\"a\":3,\"b\":2}]");
}

#[test]
fn repeated_field_name_materializes_last_value() {
    let df = process_response(
        "{\"code\":0,\"data\":{\"fields\":[\"a\",\"a\"],\"items\":[[1,2]]}}",
    )
    .unwrap();
    assert_eq!(df.shape(), (1, 1));
    let a = df.column("a").unwrap().as_materialized_series().i64().unwrap();
    assert_eq!(a.get(0), Some(2));
}

#[test]
fn render_table_text_spells_the_rows() {
    let fields = vec!["a".to_string(), "b".to_string()];
    let items = vec![vec![val("1"), val("2")], vec![val("3"), val("4")]];
    let text = render_table_text(&fields, &items);
    assert_eq!(text, "[{\"a\":1,\"b\":2},{\"a\":3,\"b\":4}]");
}

#[test]
fn tabulate_rejects_empty_rows() {
    let fields = vec!["a".to_string()];
    let items: Vec<Vec<Value>> = Vec::new();
    let r = tabulate(&fields, &items);
    assert!(matches!(r.unwrap_err(), TushareError::EmptyError));
}

#[test]
fn code_outcome_passes_absent_and_zero_codes() {
    assert!(code_outcome(None, None).is_ok());
    assert!(code_outcome(Some(0), Some("fine".to_string())).is_ok());
    assert!(code_outcome(Some(2), None).is_err());
}

#[test]
fn decimal_rendering_is_exact() {
    assert_eq!(u64_to_string(0), "0");
    assert_eq!(u64_to_string(90210), "90210");
    assert_eq!(i64_to_string(-5), "-5");
    assert_eq!(i64_to_string(i64::MIN), "-9223372036854775808");
    assert_eq!(i64_to_string(i64::MAX), "9223372036854775807");
}

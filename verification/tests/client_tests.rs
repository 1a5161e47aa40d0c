use employee_manager::codec::{
    decode_config, decode_employee, decode_entity_envelope, decode_list_envelope,
    decode_list_items, delete_outcome, encode_config, encode_employee, read_config,
};
use employee_manager::urls::{build_item_url, build_list_url, list_all_params};
use employee_manager::wire::{Employee, PaginationParams};

fn sample_employee() -> Employee {
    Employee {
        id: 7,
        name: "Ann Droid".to_string(),
        email: "ann@example.com".to_string(),
        department: "QA".to_string(),
        position: "Engineer".to_string(),
        salary: 90000,
        hire_date: "2021-03-09".to_string(),
        ssn: Some("123-45-6789".to_string()),
        phone: None,
        address: Some("1 Main St".to_string()),
        employee_id: None,
        status: Some("active".to_string()),
        manager: None,
    }
}

fn assert_same_employee(a: &Employee, b: &Employee) {
    assert_eq!(a.id, b.id);
    assert_eq!(a.name, b.name);
    assert_eq!(a.email, b.email);
    assert_eq!(a.department, b.department);
    assert_eq!(a.position, b.position);
    assert_eq!(a.salary, b.salary);
    assert_eq!(a.hire_date, b.hire_date);
    assert_eq!(a.ssn, b.ssn);
    assert_eq!(a.phone, b.phone);
    assert_eq!(a.address, b.address);
    assert_eq!(a.employee_id, b.employee_id);
    assert_eq!(a.status, b.status);
    assert_eq!(a.manager, b.manager);
}

fn no_params() -> PaginationParams {
    PaginationParams {
        page: None,
        limit: None,
        search: None,
        department: None,
        status: None,
        sort_by: None,
        sort_order: None,
        min_salary: None,
        max_salary: None,
    }
}

#[test]
fn employee_json_round_trip() {
    let e = sample_employee();
    let text = encode_employee(&e);
    let back = decode_employee(&text).expect("own encoding must decode");
    assert_same_employee(&e, &back);
}

#[test]
fn employee_round_trip_with_escapes_and_unicode() {
    let mut e = sample_employee();
    e.name = "Zo\u{eb} \"The Backslash\\\" \n\tExpert".to_string();
    e.manager = Some("".to_string());
    e.ssn = None;
    let text = encode_employee(&e);
    let back = decode_employee(&text).expect("escaped encoding must decode");
    assert_same_employee(&e, &back);
}

#[test]
fn employee_encoding_readable_by_serde() {
    let e = sample_employee();
    let text = encode_employee(&e);
    let v: serde_json::Value = serde_json::from_str(&text).expect("valid JSON");
    assert_eq!(v["id"].as_u64(), Some(7));
    assert_eq!(v["name"].as_str(), Some("Ann Droid"));
    assert_eq!(v["salary"].as_u64(), Some(90000));
    assert_eq!(v["ssn"].as_str(), Some("123-45-6789"));
    assert!(v.get("phone").is_none());
}

#[test]
fn list_url_without_params_has_no_query() {
    let url = build_list_url("http://srv:3000", &no_params());
    assert_eq!(url, "http://srv:3000/api/employees");
}

#[test]
fn list_url_omits_empty_search() {
    let mut p = no_params();
    p.search = Some("".to_string());
    let url = build_list_url("http://srv:3000", &p);
    assert_eq!(url, "http://srv:3000/api/employees");
}

#[test]
fn list_url_percent_encodes_search() {
    let mut p = no_params();
    p.search = Some("a b".to_string());
    let url = build_list_url("http://srv:3000", &p);
    assert_eq!(url, "http://srv:3000/api/employees?search=a%20b");
}

#[test]
fn list_url_joins_all_present_params() {
    let p = PaginationParams {
        page: Some(2),
        limit: Some(25),
        search: Some("jo e".to_string()),
        department: Some("R&D".to_string()),
        status: Some("active".to_string()),
        sort_by: Some("salary".to_string()),
        sort_order: Some("DESC".to_string()),
        min_salary: Some(1000),
        max_salary: Some(200000),
    };
    let url = build_list_url("http://h", &p);
    assert_eq!(
        url,
        "http://h/api/employees?page=2&limit=25&search=jo%20e&department=R%26D&status=active&sortBy=salary&sortOrder=DESC&minSalary=1000&maxSalary=200000"
    );
}

#[test]
fn item_url_embeds_id_in_decimal() {
    assert_eq!(build_item_url("http://h", 42), "http://h/api/employees/42");
    assert_eq!(build_item_url("http://h", 0), "http://h/api/employees/0");
}

#[test]
fn list_all_params_use_large_limit_and_name_order() {
    let p = list_all_params();
    assert_eq!(p.page, Some(1));
    assert_eq!(p.limit, Some(10000));
    assert_eq!(p.sort_by.as_deref(), Some("name"));
    assert_eq!(p.sort_order.as_deref(), Some("ASC"));
    assert!(p.search.is_none() && p.department.is_none() && p.status.is_none());
    assert!(p.min_salary.is_none() && p.max_salary.is_none());
}

#[test]
fn create_returns_data_unchanged_on_success() {
    let e = sample_employee();
    let body = format!(
        "{{\"success\":true,\"data\":{},\"message\":null}}",
        encode_employee(&e)
    );
    let got = decode_entity_envelope(&body).expect("success envelope");
    assert_same_employee(&e, &got);
}

#[test]
fn create_fails_with_exact_server_message() {
    let body = "{\"success\":false,\"data\":null,\"message\":\"Email already exists\"}";
    let err = decode_entity_envelope(body).unwrap_err();
    assert_eq!(err, "Email already exists");
}

#[test]
fn missing_message_falls_back_to_unknown_error() {
    let body = "{\"success\":false,\"data\":null,\"message\":null}";
    assert_eq!(decode_entity_envelope(body).unwrap_err(), "Unknown error");
    assert_eq!(decode_list_envelope(body).unwrap_err(), "Unknown error");
    let body2 = "{\"success\":false,\"data\":null}";
    assert_eq!(decode_entity_envelope(body2).unwrap_err(), "Unknown error");
}

#[test]
fn success_without_data_is_empty_payload_error_for_entity() {
    let body = "{\"success\":true,\"data\":null,\"message\":null}";
    assert_eq!(
        decode_entity_envelope(body).unwrap_err(),
        "Unexpected empty success payload"
    );
}

#[test]
fn success_without_data_is_empty_page_for_list() {
    let body = "{\"success\":true,\"data\":null,\"message\":null}";
    let page = decode_list_envelope(body).expect("empty page");
    assert_eq!(page.employees.len(), 0);
    assert_eq!(page.pagination.total_records, 0);
    assert!(!page.pagination.has_next_page);
}

#[test]
fn garbage_body_is_a_parse_error() {
    let err = decode_entity_envelope("it is not json").unwrap_err();
    assert_eq!(err, "Failed to parse JSON: invalid response body");
    let err2 = decode_entity_envelope("{\"success\":\"yes\"}").unwrap_err();
    assert_eq!(err2, "Failed to parse JSON: invalid response body");
}

#[test]
fn envelope_tolerates_whitespace_and_field_order() {
    let body = "\n{ \"message\" : null ,\n  \"data\" : { \"salary\" : 1 , \"id\" : 9, \"name\":\"N\", \"email\":\"e\", \"department\":\"d\", \"position\":\"p\", \"hire_date\":\"h\" } ,\t\"success\" : true }\r\n";
    let got = decode_entity_envelope(body).expect("whitespace tolerated");
    assert_eq!(got.id, 9);
    assert_eq!(got.salary, 1);
    assert_eq!(got.ssn, None);
    assert_eq!(got.phone, None);
    assert_eq!(got.address, None);
    assert_eq!(got.employee_id, None);
    assert_eq!(got.status, None);
    assert_eq!(got.manager, None);
}

#[test]
fn short_and_hex_escapes_decode() {
    let body = "{\"success\":true,\"data\":{\"id\":1,\"name\":\"A\\u0042C\\n\\t\\\"q\\\"\",\"email\":\"e\",\"department\":\"d\",\"position\":\"p\",\"salary\":2,\"hire_date\":\"h\"},\"message\":null}";
    let got = decode_entity_envelope(body).expect("escapes accepted");
    assert_eq!(got.name, "ABC\n\t\"q\"");
}

#[test]
fn oversized_number_is_a_parse_error() {
    let body = "{\"success\":true,\"data\":{\"id\":1,\"name\":\"n\",\"email\":\"e\",\"department\":\"d\",\"position\":\"p\",\"salary\":99999999999999999999999,\"hire_date\":\"h\"},\"message\":null}";
    assert!(decode_entity_envelope(body).is_err());
}

#[test]
fn delete_on_204_with_empty_body_is_true() {
    assert_eq!(delete_outcome(204, ""), Ok(true));
}

#[test]
fn delete_on_500_reports_status_and_never_parses() {
    let err = delete_outcome(500, "{\"success\":true}").unwrap_err();
    assert!(err.contains("500"));
    assert_eq!(err, "Server returned error: 500");
    let err2 = delete_outcome(404, "").unwrap_err();
    assert_eq!(err2, "Server returned error: 404");
}

#[test]
fn delete_with_failure_envelope_fails_with_its_message() {
    assert_eq!(
        delete_outcome(200, "{\"success\":false,\"data\":null,\"message\":\"busy\"}"),
        Err("busy".to_string())
    );
    assert_eq!(
        delete_outcome(200, "{\"success\":false,\"data\":null,\"message\":null}"),
        Err("Unknown error".to_string())
    );
    assert_eq!(
        delete_outcome(200, "{\"success\":true,\"data\":null,\"message\":null}"),
        Ok(true)
    );
}

#[test]
fn delete_with_unparseable_body_counts_as_success() {
    assert_eq!(delete_outcome(200, "gone"), Ok(true));
    assert_eq!(delete_outcome(200, "[1,2]"), Ok(true));
}

#[test]
fn config_read_on_missing_file_is_no_config_not_error() {
    let r = read_config(None).expect("missing file is fine");
    assert!(r.is_none());
}

#[test]
fn config_write_then_read_round_trips_url() {
    let text = encode_config("http://10.0.0.5:3000");
    let cfg = decode_config(&text).expect("own config encoding must decode");
    assert_eq!(cfg.server_url.as_deref(), Some("http://10.0.0.5:3000"));
    let through_read = read_config(Some(&text)).expect("readable").expect("present");
    assert_eq!(through_read.server_url.as_deref(), Some("http://10.0.0.5:3000"));
}

#[test]
fn config_garbage_is_a_parse_error() {
    let err = decode_config("}{").unwrap_err();
    assert_eq!(err, "Failed to parse config file: invalid JSON");
}

#[test]
fn list_all_returns_every_item_of_one_large_page() {
    let mut items = String::new();
    for i in 0..15u32 {
        if i > 0 {
            items.push(',');
        }
        let mut e = sample_employee();
        e.id = i;
        e.name = format!("emp{}", i);
        items.push_str(&encode_employee(&e));
    }
    let body = format!(
        "{{\"success\":true,\"data\":{{\"employees\":[{}],\"pagination\":{{\"currentPage\":1,\"totalPages\":1,\"totalRecords\":15,\"pageSize\":10000,\"hasNextPage\":false,\"hasPreviousPage\":false}},\"filters\":{{\"search\":\"\",\"department\":\"\",\"status\":\"\",\"sortBy\":\"name\",\"sortOrder\":\"ASC\",\"minSalary\":\"\",\"maxSalary\":\"\"}}}},\"message\":null}}",
        items
    );
    let got = decode_list_items(&body).expect("full page decodes");
    assert_eq!(got.len(), 15);
    for (i, e) in got.iter().enumerate() {
        assert_eq!(e.id, i as u32);
        assert_eq!(e.name, format!("emp{}", i));
    }
    let page = decode_list_envelope(&body).expect("page decodes");
    assert_eq!(page.pagination.total_records, 15);
    assert_eq!(page.pagination.page_size, 10000);
    assert_eq!(page.filters.sort_by, "name");
}

#[test]
fn hex_escapes_decode_and_surrogates_are_rejected() {
    let ok = "{\"success\":true,\"data\":{\"id\":1,\"name\":\"caf\\u00e9 \\u30c4\",\"email\":\"e\",\"department\":\"d\",\"position\":\"p\",\"salary\":2,\"hire_date\":\"h\"},\"message\":null}";
    let got = decode_entity_envelope(ok).expect("hex escapes accepted");
    assert_eq!(got.name, "caf\u{e9} \u{30c4}");
    let surrogate = "{\"success\":true,\"data\":{\"id\":1,\"name\":\"\\ud800\",\"email\":\"e\",\"department\":\"d\",\"position\":\"p\",\"salary\":2,\"hire_date\":\"h\"},\"message\":null}";
    assert!(decode_entity_envelope(surrogate).is_err());
}

#[test]
fn delete_status_range_boundaries() {
    assert_eq!(delete_outcome(200, ""), Ok(true));
    assert_eq!(delete_outcome(299, ""), Ok(true));
    assert_eq!(delete_outcome(300, "").unwrap_err(), "Server returned error: 300");
    assert_eq!(delete_outcome(199, "").unwrap_err(), "Server returned error: 199");
}

#[test]
fn list_url_percent_encodes_sort_fields() {
    let mut p = no_params();
    p.sort_by = Some("a b".to_string());
    p.sort_order = Some("ASC".to_string());
    let url = build_list_url("http://h", &p);
    assert_eq!(url, "http://h/api/employees?sortBy=a%20b&sortOrder=ASC");
}

#[test]
fn config_is_pretty_printed() {
    let text = encode_config("http://x");
    assert_eq!(text, "{\n  \"server_url\": \"http://x\"\n}");
    let v: serde_json::Value = serde_json::from_str(&text).expect("valid JSON");
    assert_eq!(serde_json::to_string_pretty(&v).expect("printable"), text);
}

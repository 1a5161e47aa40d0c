//! Conversions between the wire types and JSON documents, the envelope
//! policy that turns a response body into one result, and the config codec.
//!
//! The envelope is `{ success: bool, data: optional T, message: optional
//! string }`. On `success` the data is returned; an entity call with no data
//! fails with a fixed text rather than crashing; a listing call with no data
//! yields an empty page. On failure the message is returned, or a fixed
//! fallback when the server gave none.

use vstd::prelude::*;
use crate::json::{Json, JsonV, obj_v, arr_v, spec_print_value, spec_parse_json, print_json, parse_json};
use crate::wire::{Employee, EmployeeV, opt_v, Pagination, Filters, FiltersV, PaginatedResponse, PaginatedResponseV, ExternalConfig, emps_v};
use crate::chars::{str_eq, chars_to_string, push_chars};
use crate::numerals::{spec_dec_digits, u64_to_chars};

verus! {

broadcast use vstd::seq::group_seq_axioms, vstd::std_specs::vec::group_vec_axioms;

/// The first value stored under a key, scanning members in order.
pub open spec fn spec_lookup(o: Seq<(Seq<char>, JsonV)>, k: Seq<char>) -> Option<JsonV>
    decreases o.len(),
{
    if o.len() == 0 {
        None
    } else if o[0].0 == k {
        Some(o[0].1)
    } else {
        spec_lookup(o.drop_first(), k)
    }
}

/// The string stored under a key, if it is there and is a string.
pub open spec fn spec_get_str(o: Seq<(Seq<char>, JsonV)>, k: Seq<char>) -> Option<Seq<char>> {
    match spec_lookup(o, k) {
        Some(JsonV::Str(s)) => Some(s),
        _ => None,
    }
}

/// The number stored under a key, if it is there and fits in `u32`.
pub open spec fn spec_get_u32(o: Seq<(Seq<char>, JsonV)>, k: Seq<char>) -> Option<u32> {
    match spec_lookup(o, k) {
        Some(JsonV::Num(n)) => if n <= 0xffff_ffff {
            Some(n as u32)
        } else {
            None
        },
        _ => None,
    }
}

/// The boolean stored under a key, if it is there and is a boolean.
pub open spec fn spec_get_bool(o: Seq<(Seq<char>, JsonV)>, k: Seq<char>) -> Option<bool> {
    match spec_lookup(o, k) {
        Some(JsonV::Bool(b)) => Some(b),
        _ => None,
    }
}

/// An optional string field: absent or null is a present `None`; a string is
/// a present `Some`; any other shape is invalid (the outer `None`).
pub open spec fn spec_get_opt_str(o: Seq<(Seq<char>, JsonV)>, k: Seq<char>) -> Option<
    Option<Seq<char>>,
> {
    match spec_lookup(o, k) {
        None => Some(None),
        Some(JsonV::Null) => Some(None),
        Some(JsonV::Str(s)) => Some(Some(s)),
        _ => None,
    }
}

/// The member a present optional string contributes; absent contributes none.
pub open spec fn opt_member(k: Seq<char>, v: Option<Seq<char>>) -> Seq<(Seq<char>, JsonV)> {
    match v {
        Some(s) => seq![(k, JsonV::Str(s))],
        None => Seq::empty(),
    }
}

/// The members of an employee's JSON object: the seven required fields in a
/// fixed order, followed by whichever optional fields are set.
pub open spec fn spec_emp_members(e: EmployeeV) -> Seq<(Seq<char>, JsonV)> {
    seq![
        ("id"@, JsonV::Num(e.id as nat)),
        ("name"@, JsonV::Str(e.name)),
        ("email"@, JsonV::Str(e.email)),
        ("department"@, JsonV::Str(e.department)),
        ("position"@, JsonV::Str(e.position)),
        ("salary"@, JsonV::Num(e.salary as nat)),
        ("hire_date"@, JsonV::Str(e.hire_date)),
    ] + (opt_member("ssn"@, e.ssn) + (opt_member("phone"@, e.phone) + (opt_member(
        "address"@,
        e.address,
    ) + (opt_member("employee_id"@, e.employee_id) + (opt_member("status"@, e.status) + opt_member(
        "manager"@,
        e.manager,
    ))))))
}

/// The JSON document of an employee.
pub open spec fn spec_emp_to_json(e: EmployeeV) -> JsonV {
    JsonV::Obj(spec_emp_members(e))
}

/// The employee a JSON document denotes, if it has the right shape.
pub open spec fn spec_json_to_emp(j: JsonV) -> Option<EmployeeV> {
    match j {
        JsonV::Obj(o) => {
            let id = spec_get_u32(o, "id"@);
            let name = spec_get_str(o, "name"@);
            let email = spec_get_str(o, "email"@);
            let department = spec_get_str(o, "department"@);
            let position = spec_get_str(o, "position"@);
            let salary = spec_get_u32(o, "salary"@);
            let hire_date = spec_get_str(o, "hire_date"@);
            let ssn = spec_get_opt_str(o, "ssn"@);
            let phone = spec_get_opt_str(o, "phone"@);
            let address = spec_get_opt_str(o, "address"@);
            let employee_id = spec_get_opt_str(o, "employee_id"@);
            let status = spec_get_opt_str(o, "status"@);
            let manager = spec_get_opt_str(o, "manager"@);
            if id is Some && name is Some && email is Some && department is Some && position
                is Some && salary is Some && hire_date is Some && ssn is Some && phone is Some
                && address is Some && employee_id is Some && status is Some && manager is Some {
                Some(
                    EmployeeV {
                        id: id->0,
                        name: name->0,
                        email: email->0,
                        department: department->0,
                        position: position->0,
                        salary: salary->0,
                        hire_date: hire_date->0,
                        ssn: ssn->0,
                        phone: phone->0,
                        address: address->0,
                        employee_id: employee_id->0,
                        status: status->0,
                        manager: manager->0,
                    },
                )
            } else {
                None
            }
        },
        _ => None,
    }
}

/// Finds a key among the members from index `t` on.
fn lookup_at<'a>(o: &'a Vec<(String, Json)>, k: &str, t: usize) -> (r: Option<&'a Json>)
    requires
        t <= o@.len(),
    ensures
        match r {
            Some(j) => spec_lookup(obj_v(o@).subrange(t as int, o@.len() as int), k@) == Some(
                j.v(),
            ),
            None => spec_lookup(obj_v(o@).subrange(t as int, o@.len() as int), k@) is None,
        },
    decreases o@.len() - t,
{
    if t >= o.len() {
        return None;
    }
    proof {
        let s = obj_v(o@).subrange(t as int, o@.len() as int);
        assert(s[0] == obj_v(o@)[t as int]);
        assert(s.drop_first() =~= obj_v(o@).subrange(t + 1int, o@.len() as int));
    }
    if str_eq(o[t].0.as_str(), k) {
        Some(&o[t].1)
    } else {
        lookup_at(o, k, t + 1)
    }
}

/// Finds the first value stored under a key, matching `spec_lookup`.
pub fn lookup<'a>(o: &'a Vec<(String, Json)>, k: &str) -> (r: Option<&'a Json>)
    ensures
        match r {
            Some(j) => spec_lookup(obj_v(o@), k@) == Some(j.v()),
            None => spec_lookup(obj_v(o@), k@) is None,
        },
{
    proof {
        assert(obj_v(o@).subrange(0int, o@.len() as int) =~= obj_v(o@));
    }
    lookup_at(o, k, 0)
}

/// Reads a string field, matching `spec_get_str`.
fn get_str(o: &Vec<(String, Json)>, k: &str) -> (r: Option<String>)
    ensures
        match r {
            Some(s) => spec_get_str(obj_v(o@), k@) == Some(s@),
            None => spec_get_str(obj_v(o@), k@) is None,
        },
{
    match lookup(o, k) {
        Some(j) => match j {
            Json::Str(s) => Some(s.clone()),
            _ => None,
        },
        None => None,
    }
}

/// Reads a number field that fits in `u32`, matching `spec_get_u32`.
fn get_u32(o: &Vec<(String, Json)>, k: &str) -> (r: Option<u32>)
    ensures
        r == spec_get_u32(obj_v(o@), k@),
{
    match lookup(o, k) {
        Some(j) => match j {
            Json::Num(n) => if *n <= 0xffff_ffffu64 {
                Some(*n as u32)
            } else {
                None
            },
            _ => None,
        },
        None => None,
    }
}

/// Reads a boolean field, matching `spec_get_bool`.
fn get_bool(o: &Vec<(String, Json)>, k: &str) -> (r: Option<bool>)
    ensures
        r == spec_get_bool(obj_v(o@), k@),
{
    match lookup(o, k) {
        Some(j) => match j {
            Json::Bool(b) => Some(*b),
            _ => None,
        },
        None => None,
    }
}

/// Reads an optional string field, matching `spec_get_opt_str`.
fn get_opt_str(o: &Vec<(String, Json)>, k: &str) -> (r: Option<Option<String>>)
    ensures
        match r {
            Some(v) => spec_get_opt_str(obj_v(o@), k@) == Some(opt_v(v)),
            None => spec_get_opt_str(obj_v(o@), k@) is None,
        },
{
    match lookup(o, k) {
        None => Some(None),
        Some(j) => match j {
            Json::Null => Some(None),
            Json::Str(s) => Some(Some(s.clone())),
            _ => None,
        },
    }
}

/// Appends one member, extending the object's model by that pair.
fn push_member(m: &mut Vec<(String, Json)>, k: &str, val: Json)
    ensures
        obj_v(final(m)@) == obj_v(old(m)@) + seq![(k@, val.v())],
{
    let ghost v0 = m@;
    m.push((k.to_owned(), val));
    proof {
        assert(obj_v(m@) =~= obj_v(v0) + seq![(k@, val.v())]);
    }
}

/// Appends the member an optional string contributes, if any.
fn push_opt_member(m: &mut Vec<(String, Json)>, k: &str, v: &Option<String>)
    ensures
        obj_v(final(m)@) == obj_v(old(m)@) + opt_member(k@, opt_v(*v)),
{
    let ghost v0 = m@;
    match v {
        Some(s) => {
            m.push((k.to_owned(), Json::Str(s.clone())));
            proof {
                assert(obj_v(m@) =~= obj_v(v0) + opt_member(k@, opt_v(*v)));
            }
        },
        None => {
            proof {
                assert(obj_v(m@) =~= obj_v(v0) + opt_member(k@, opt_v(*v)));
            }
        },
    }
}

/// Builds the JSON document of an employee, matching `spec_emp_to_json`.
#[verifier::rlimit(60)]
pub fn emp_to_json(e: &Employee) -> (j: Json)
    ensures
        j.v() == spec_emp_to_json(e@),
{
    let mut m: Vec<(String, Json)> = Vec::new();
    proof {
        assert(obj_v(m@) =~= Seq::<(Seq<char>, JsonV)>::empty());
    }
    push_member(&mut m, "id", Json::Num(e.id as u64));
    push_member(&mut m, "name", Json::Str(e.name.clone()));
    push_member(&mut m, "email", Json::Str(e.email.clone()));
    push_member(&mut m, "department", Json::Str(e.department.clone()));
    push_member(&mut m, "position", Json::Str(e.position.clone()));
    push_member(&mut m, "salary", Json::Num(e.salary as u64));
    push_member(&mut m, "hire_date", Json::Str(e.hire_date.clone()));
    push_opt_member(&mut m, "ssn", &e.ssn);
    push_opt_member(&mut m, "phone", &e.phone);
    push_opt_member(&mut m, "address", &e.address);
    push_opt_member(&mut m, "employee_id", &e.employee_id);
    push_opt_member(&mut m, "status", &e.status);
    push_opt_member(&mut m, "manager", &e.manager);
    proof {
        assert(obj_v(m@) =~= spec_emp_members(e@));
    }
    Json::Obj(m)
}

/// Reads an employee out of a JSON document, matching `spec_json_to_emp`.
pub fn json_to_emp(j: &Json) -> (r: Option<Employee>)
    ensures
        match r {
            Some(e) => spec_json_to_emp(j.v()) == Some(e@),
            None => spec_json_to_emp(j.v()) is None,
        },
{
    match j {
        Json::Obj(o) => {
            let id = get_u32(o, "id");
            let name = get_str(o, "name");
            let email = get_str(o, "email");
            let department = get_str(o, "department");
            let position = get_str(o, "position");
            let salary = get_u32(o, "salary");
            let hire_date = get_str(o, "hire_date");
            let ssn = get_opt_str(o, "ssn");
            let phone = get_opt_str(o, "phone");
            let address = get_opt_str(o, "address");
            let employee_id = get_opt_str(o, "employee_id");
            let status = get_opt_str(o, "status");
            let manager = get_opt_str(o, "manager");
            match (id, name, email, department, position, salary, hire_date) {
                (
                    Some(id),
                    Some(name),
                    Some(email),
                    Some(department),
                    Some(position),
                    Some(salary),
                    Some(hire_date),
                ) => match (ssn, phone, address, employee_id, status, manager) {
                    (
                        Some(ssn),
                        Some(phone),
                        Some(address),
                        Some(employee_id),
                        Some(status),
                        Some(manager),
                    ) => Some(
                        Employee {
                            id,
                            name,
                            email,
                            department,
                            position,
                            salary,
                            hire_date,
                            ssn,
                            phone,
                            address,
                            employee_id,
                            status,
                            manager,
                        },
                    ),
                    _ => None,
                },
                _ => None,
            }
        },
        _ => None,
    }
}

/// The page bookkeeping a JSON document denotes, if it has the right shape.
pub open spec fn spec_json_to_pagination(j: JsonV) -> Option<Pagination> {
    match j {
        JsonV::Obj(o) => {
            let current_page = spec_get_u32(o, "currentPage"@);
            let total_pages = spec_get_u32(o, "totalPages"@);
            let total_records = spec_get_u32(o, "totalRecords"@);
            let page_size = spec_get_u32(o, "pageSize"@);
            let has_next_page = spec_get_bool(o, "hasNextPage"@);
            let has_previous_page = spec_get_bool(o, "hasPreviousPage"@);
            if current_page is Some && total_pages is Some && total_records is Some && page_size
                is Some && has_next_page is Some && has_previous_page is Some {
                Some(
                    Pagination {
                        current_page: current_page->0,
                        total_pages: total_pages->0,
                        total_records: total_records->0,
                        page_size: page_size->0,
                        has_next_page: has_next_page->0,
                        has_previous_page: has_previous_page->0,
                    },
                )
            } else {
                None
            }
        },
        _ => None,
    }
}

/// The filter echo a JSON document denotes, if it has the right shape.
pub open spec fn spec_json_to_filters(j: JsonV) -> Option<FiltersV> {
    match j {
        JsonV::Obj(o) => {
            let search = spec_get_str(o, "search"@);
            let department = spec_get_str(o, "department"@);
            let status = spec_get_str(o, "status"@);
            let sort_by = spec_get_str(o, "sortBy"@);
            let sort_order = spec_get_str(o, "sortOrder"@);
            let min_salary = spec_get_str(o, "minSalary"@);
            let max_salary = spec_get_str(o, "maxSalary"@);
            if search is Some && department is Some && status is Some && sort_by is Some
                && sort_order is Some && min_salary is Some && max_salary is Some {
                Some(
                    FiltersV {
                        search: search->0,
                        department: department->0,
                        status: status->0,
                        sort_by: sort_by->0,
                        sort_order: sort_order->0,
                        min_salary: min_salary->0,
                        max_salary: max_salary->0,
                    },
                )
            } else {
                None
            }
        },
        _ => None,
    }
}

/// The employees a JSON array denotes, if every item is an employee.
pub open spec fn spec_emps_of(a: Seq<JsonV>) -> Option<Seq<EmployeeV>>
    decreases a.len(),
{
    if a.len() == 0 {
        Some(Seq::empty())
    } else {
        match spec_json_to_emp(a[0]) {
            None => None,
            Some(e) => match spec_emps_of(a.drop_first()) {
                None => None,
                Some(t) => Some(seq![e] + t),
            },
        }
    }
}

/// The page of employees a JSON document denotes, if it has the right shape.
pub open spec fn spec_json_to_paginated(j: JsonV) -> Option<PaginatedResponseV> {
    match j {
        JsonV::Obj(o) => {
            let emps = match spec_lookup(o, "employees"@) {
                Some(JsonV::Arr(a)) => spec_emps_of(a),
                _ => None,
            };
            let pagination = match spec_lookup(o, "pagination"@) {
                Some(p) => spec_json_to_pagination(p),
                None => None,
            };
            let filters = match spec_lookup(o, "filters"@) {
                Some(f) => spec_json_to_filters(f),
                None => None,
            };
            if emps is Some && pagination is Some && filters is Some {
                Some(
                    PaginatedResponseV {
                        employees: emps->0,
                        pagination: pagination->0,
                        filters: filters->0,
                    },
                )
            } else {
                None
            }
        },
        _ => None,
    }
}

/// Reads the page bookkeeping, matching `spec_json_to_pagination`.
pub fn json_to_pagination(j: &Json) -> (r: Option<Pagination>)
    ensures
        r == spec_json_to_pagination(j.v()),
{
    match j {
        Json::Obj(o) => {
            let current_page = get_u32(o, "currentPage");
            let total_pages = get_u32(o, "totalPages");
            let total_records = get_u32(o, "totalRecords");
            let page_size = get_u32(o, "pageSize");
            let has_next_page = get_bool(o, "hasNextPage");
            let has_previous_page = get_bool(o, "hasPreviousPage");
            match (current_page, total_pages, total_records, page_size, has_next_page, has_previous_page) {
                (Some(a), Some(b), Some(c), Some(d), Some(e), Some(f)) => Some(
                    Pagination {
                        current_page: a,
                        total_pages: b,
                        total_records: c,
                        page_size: d,
                        has_next_page: e,
                        has_previous_page: f,
                    },
                ),
                _ => None,
            }
        },
        _ => None,
    }
}

/// Reads the filter echo, matching `spec_json_to_filters`.
pub fn json_to_filters(j: &Json) -> (r: Option<Filters>)
    ensures
        match r {
            Some(f) => spec_json_to_filters(j.v()) == Some(f@),
            None => spec_json_to_filters(j.v()) is None,
        },
{
    match j {
        Json::Obj(o) => {
            let search = get_str(o, "search");
            let department = get_str(o, "department");
            let status = get_str(o, "status");
            let sort_by = get_str(o, "sortBy");
            let sort_order = get_str(o, "sortOrder");
            let min_salary = get_str(o, "minSalary");
            let max_salary = get_str(o, "maxSalary");
            match (search, department, status, sort_by, sort_order, min_salary, max_salary) {
                (Some(a), Some(b), Some(c), Some(d), Some(e), Some(f), Some(g)) => Some(
                    Filters {
                        search: a,
                        department: b,
                        status: c,
                        sort_by: d,
                        sort_order: e,
                        min_salary: f,
                        max_salary: g,
                    },
                ),
                _ => None,
            }
        },
        _ => None,
    }
}

/// Reads the employees of an array from index `t` on.
fn emps_from(a: &Vec<Json>, t: usize) -> (r: Option<Vec<Employee>>)
    requires
        t <= a@.len(),
    ensures
        ({
            let s = arr_v(a@).subrange(t as int, a@.len() as int);
            match r {
                Some(v) => spec_emps_of(s) == Some(emps_v(v@)),
                None => spec_emps_of(s) is None,
            }
        }),
    decreases a@.len() - t,
{
    let ghost s = arr_v(a@).subrange(t as int, a@.len() as int);
    if t >= a.len() {
        let v: Vec<Employee> = Vec::new();
        proof {
            assert(emps_v(v@) =~= Seq::<EmployeeV>::empty());
        }
        return Some(v);
    }
    proof {
        assert(s[0] == arr_v(a@)[t as int]);
        assert(s.drop_first() =~= arr_v(a@).subrange(t + 1int, a@.len() as int));
    }
    match json_to_emp(&a[t]) {
        None => None,
        Some(e) => match emps_from(a, t + 1) {
            None => None,
            Some(v) => {
                let ghost v0 = v@;
                let mut v2 = v;
                v2.insert(0, e);
                proof {
                    assert(emps_v(v2@) =~= seq![e@] + emps_v(v0));
                }
                Some(v2)
            },
        },
    }
}

/// Reads a page of employees, matching `spec_json_to_paginated`.
pub fn json_to_paginated(j: &Json) -> (r: Option<PaginatedResponse>)
    ensures
        match r {
            Some(p) => spec_json_to_paginated(j.v()) == Some(p@),
            None => spec_json_to_paginated(j.v()) is None,
        },
{
    match j {
        Json::Obj(o) => {
            let emps = match lookup(o, "employees") {
                Some(d) => match d {
                    Json::Arr(a) => {
                        proof {
                            assert(arr_v(a@).subrange(0int, a@.len() as int) =~= arr_v(a@));
                        }
                        emps_from(a, 0)
                    },
                    _ => None,
                },
                None => None,
            };
            let pagination = match lookup(o, "pagination") {
                Some(p) => json_to_pagination(p),
                None => None,
            };
            let filters = match lookup(o, "filters") {
                Some(f) => json_to_filters(f),
                None => None,
            };
            match (emps, pagination, filters) {
                (Some(a), Some(b), Some(c)) => Some(
                    PaginatedResponse { employees: a, pagination: b, filters: c },
                ),
                _ => None,
            }
        },
        _ => None,
    }
}

/// The text of a body that could not be read as the expected envelope.
pub open spec fn spec_parse_err() -> Seq<char> {
    "Failed to parse JSON: invalid response body"@
}

/// The text of a success envelope that carried no data.
pub open spec fn spec_empty_payload_err() -> Seq<char> {
    "Unexpected empty success payload"@
}

/// The fallback text of a failure envelope that carried no message.
pub open spec fn spec_unknown_err() -> Seq<char> {
    "Unknown error"@
}

/// The failure message of an envelope: its own, or the fallback.
pub open spec fn spec_msg_or_unknown(m: Option<Seq<char>>) -> Seq<char> {
    match m {
        Some(s) => s,
        None => spec_unknown_err(),
    }
}

fn parse_err_string() -> (s: String)
    ensures
        s@ == spec_parse_err(),
{
    "Failed to parse JSON: invalid response body".to_owned()
}

fn msg_or_unknown(m: Option<String>) -> (s: String)
    ensures
        s@ == spec_msg_or_unknown(opt_v(m)),
{
    match m {
        Some(s) => s,
        None => "Unknown error".to_owned(),
    }
}

/// The envelope a JSON document denotes: the success flag, the data if
/// present and not null, and the message if present and not null. A missing
/// or non-boolean success flag, or a message of the wrong shape, is invalid.
pub open spec fn spec_envelope_of(j: JsonV) -> Option<(bool, Option<JsonV>, Option<Seq<char>>)> {
    match j {
        JsonV::Obj(o) => {
            let succ = spec_get_bool(o, "success"@);
            let msg = spec_get_opt_str(o, "message"@);
            let data = match spec_lookup(o, "data"@) {
                None => None,
                Some(JsonV::Null) => None,
                Some(d) => Some(d),
            };
            if succ is Some && msg is Some {
                Some((succ->0, data, msg->0))
            } else {
                None
            }
        },
        _ => None,
    }
}

/// What an entity call returns for a response body: the employee out of a
/// success envelope; the envelope's message (or the fallback) out of a
/// failure envelope; a parse error for anything that is not an envelope
/// around an employee; and the fixed empty-payload text for a success
/// envelope with no data.
pub open spec fn spec_decode_entity(t: Seq<char>) -> Result<EmployeeV, Seq<char>> {
    match spec_parse_json(t) {
        None => Err(spec_parse_err()),
        Some(j) => match spec_envelope_of(j) {
            None => Err(spec_parse_err()),
            Some((succ, data, msg)) => match data {
                Some(d) => match spec_json_to_emp(d) {
                    None => Err(spec_parse_err()),
                    Some(e) => if succ {
                        Ok(e)
                    } else {
                        Err(spec_msg_or_unknown(msg))
                    },
                },
                None => if succ {
                    Err(spec_empty_payload_err())
                } else {
                    Err(spec_msg_or_unknown(msg))
                },
            },
        },
    }
}

/// Decodes a create or update response body, matching `spec_decode_entity`.
pub fn decode_entity_envelope(body: &str) -> (r: Result<Employee, String>)
    ensures
        match r {
            Ok(e) => spec_decode_entity(body@) == Ok::<EmployeeV, Seq<char>>(e@),
            Err(m) => spec_decode_entity(body@) == Err::<EmployeeV, Seq<char>>(m@),
        },
{
    match parse_json(body) {
        None => Err(parse_err_string()),
        Some(j) => match &j {
            Json::Obj(o) => {
                let succ = get_bool(o, "success");
                let msg = get_opt_str(o, "message");
                match (succ, msg) {
                    (Some(succ), Some(msg)) => {
                        let data = match lookup(o, "data") {
                            None => None,
                            Some(d) => match d {
                                Json::Null => None,
                                _ => Some(d),
                            },
                        };
                        match data {
                            Some(d) => match json_to_emp(d) {
                                None => Err(parse_err_string()),
                                Some(e) => if succ {
                                    Ok(e)
                                } else {
                                    Err(msg_or_unknown(msg))
                                },
                            },
                            None => if succ {
                                Err("Unexpected empty success payload".to_owned())
                            } else {
                                Err(msg_or_unknown(msg))
                            },
                        }
                    },
                    _ => Err(parse_err_string()),
                }
            },
            _ => Err(parse_err_string()),
        },
    }
}

/// The empty page a success envelope with no data yields on a listing call.
pub open spec fn spec_empty_page() -> PaginatedResponseV {
    PaginatedResponseV {
        employees: Seq::empty(),
        pagination: Pagination {
            current_page: 0,
            total_pages: 0,
            total_records: 0,
            page_size: 0,
            has_next_page: false,
            has_previous_page: false,
        },
        filters: FiltersV {
            search: Seq::empty(),
            department: Seq::empty(),
            status: Seq::empty(),
            sort_by: Seq::empty(),
            sort_order: Seq::empty(),
            min_salary: Seq::empty(),
            max_salary: Seq::empty(),
        },
    }
}

fn empty_page() -> (p: PaginatedResponse)
    ensures
        p@ == spec_empty_page(),
{
    let p = PaginatedResponse {
        employees: Vec::new(),
        pagination: Pagination {
            current_page: 0,
            total_pages: 0,
            total_records: 0,
            page_size: 0,
            has_next_page: false,
            has_previous_page: false,
        },
        filters: Filters {
            search: String::new(),
            department: String::new(),
            status: String::new(),
            sort_by: String::new(),
            sort_order: String::new(),
            min_salary: String::new(),
            max_salary: String::new(),
        },
    };
    proof {
        assert(emps_v(p.employees@) =~= Seq::<EmployeeV>::empty());
    }
    p
}

/// What a listing call returns for a response body: the page out of a
/// success envelope, the empty page when a success envelope has no data, the
/// envelope's message (or the fallback) on failure, a parse error otherwise.
pub open spec fn spec_decode_list(t: Seq<char>) -> Result<PaginatedResponseV, Seq<char>> {
    match spec_parse_json(t) {
        None => Err(spec_parse_err()),
        Some(j) => match spec_envelope_of(j) {
            None => Err(spec_parse_err()),
            Some((succ, data, msg)) => match data {
                Some(d) => match spec_json_to_paginated(d) {
                    None => Err(spec_parse_err()),
                    Some(p) => if succ {
                        Ok(p)
                    } else {
                        Err(spec_msg_or_unknown(msg))
                    },
                },
                None => if succ {
                    Ok(spec_empty_page())
                } else {
                    Err(spec_msg_or_unknown(msg))
                },
            },
        },
    }
}

/// Decodes a listing response body, matching `spec_decode_list`.
pub fn decode_list_envelope(body: &str) -> (r: Result<PaginatedResponse, String>)
    ensures
        match r {
            Ok(p) => spec_decode_list(body@) == Ok::<PaginatedResponseV, Seq<char>>(p@),
            Err(m) => spec_decode_list(body@) == Err::<PaginatedResponseV, Seq<char>>(m@),
        },
{
    match parse_json(body) {
        None => Err(parse_err_string()),
        Some(j) => match &j {
            Json::Obj(o) => {
                let succ = get_bool(o, "success");
                let msg = get_opt_str(o, "message");
                match (succ, msg) {
                    (Some(succ), Some(msg)) => {
                        let data = match lookup(o, "data") {
                            None => None,
                            Some(d) => match d {
                                Json::Null => None,
                                _ => Some(d),
                            },
                        };
                        match data {
                            Some(d) => match json_to_paginated(d) {
                                None => Err(parse_err_string()),
                                Some(p) => if succ {
                                    Ok(p)
                                } else {
                                    Err(msg_or_unknown(msg))
                                },
                            },
                            None => if succ {
                                Ok(empty_page())
                            } else {
                                Err(msg_or_unknown(msg))
                            },
                        }
                    },
                    _ => Err(parse_err_string()),
                }
            },
            _ => Err(parse_err_string()),
        },
    }
}

/// Decodes a listing response body and keeps only the employees, as the
/// whole-directory convenience call does.
pub fn decode_list_items(body: &str) -> (r: Result<Vec<Employee>, String>)
    ensures
        match r {
            Ok(v) => spec_decode_list(body@) matches Ok(p) && emps_v(v@) == p.employees,
            Err(m) => spec_decode_list(body@) == Err::<PaginatedResponseV, Seq<char>>(m@),
        },
{
    match decode_list_envelope(body) {
        Ok(p) => Ok(p.employees),
        Err(m) => Err(m),
    }
}

/// What a delete call returns. A status outside the success range fails at
/// once with a text that embeds the status code, and the body is never read.
/// Otherwise a body that parses as a success envelope confirms the deletion,
/// one that parses as a failure envelope fails with its message (or the
/// fallback), and any other body counts as success: servers may answer a
/// successful delete with an empty or non-JSON body.
pub open spec fn spec_decode_delete(status: u16, t: Seq<char>) -> Result<bool, Seq<char>> {
    if !(200 <= status < 300) {
        Err("Server returned error: "@ + spec_dec_digits(status as nat))
    } else {
        match spec_parse_json(t) {
            Some(j) => match spec_envelope_of(j) {
                Some((succ, _, msg)) => if succ {
                    Ok(true)
                } else {
                    Err(spec_msg_or_unknown(msg))
                },
                None => Ok(true),
            },
            None => Ok(true),
        }
    }
}

/// Decodes a delete outcome, matching `spec_decode_delete`.
pub fn delete_outcome(status: u16, body: &str) -> (r: Result<bool, String>)
    ensures
        match r {
            Ok(b) => spec_decode_delete(status, body@) == Ok::<bool, Seq<char>>(b),
            Err(m) => spec_decode_delete(status, body@) == Err::<bool, Seq<char>>(m@),
        },
{
    if !(200 <= status && status < 300) {
        let mut out: Vec<char> = Vec::new();
        crate::chars::push_chars(&mut out, "Server returned error: ");
        let d = u64_to_chars(status as u64);
        crate::json::push_all(&mut out, &d);
        return Err(chars_to_string(&out));
    }
    match parse_json(body) {
        Some(j) => match &j {
            Json::Obj(o) => {
                let succ = get_bool(o, "success");
                let msg = get_opt_str(o, "message");
                match (succ, msg) {
                    (Some(succ), Some(msg)) => if succ {
                        Ok(true)
                    } else {
                        Err(msg_or_unknown(msg))
                    },
                    _ => Ok(true),
                }
            },
            _ => Ok(true),
        },
        None => Ok(true),
    }
}

/// The printed form of an employee sent to the server.
pub open spec fn spec_encode_employee(e: EmployeeV) -> Seq<char> {
    spec_print_value(spec_emp_to_json(e))
}

/// The employee a request or response text denotes, if it is exactly one
/// employee document.
pub open spec fn spec_decode_employee(t: Seq<char>) -> Option<EmployeeV> {
    match spec_parse_json(t) {
        Some(j) => spec_json_to_emp(j),
        None => None,
    }
}

/// Prints an employee as its JSON document.
pub fn encode_employee(e: &Employee) -> (s: String)
    ensures
        s@ == spec_encode_employee(e@),
{
    let j = emp_to_json(e);
    print_json(&j)
}

/// Reads an employee back from its JSON document.
pub fn decode_employee(s: &str) -> (r: Option<Employee>)
    ensures
        match r {
            Some(e) => spec_decode_employee(s@) == Some(e@),
            None => spec_decode_employee(s@) is None,
        },
{
    match parse_json(s) {
        Some(j) => json_to_emp(&j),
        None => None,
    }
}

/// The text of a config file that could not be read as a config document.
pub open spec fn spec_config_err() -> Seq<char> {
    "Failed to parse config file: invalid JSON"@
}

/// The printed form of the config document holding a server URL: one member
/// on its own indented line, as a pretty printer writes it.
pub open spec fn spec_encode_config(u: Seq<char>) -> Seq<char> {
    seq!['{', '\n', ' ', ' ', '"'] + "server_url"@ + seq!['"', ':', ' '] + spec_print_value(
        JsonV::Str(u),
    ) + seq!['\n', '}']
}

/// The config a file's text denotes: an object whose `server_url` is a
/// string, null, or absent. Anything else fails with the fixed parse text.
pub open spec fn spec_decode_config(t: Seq<char>) -> Result<Option<Seq<char>>, Seq<char>> {
    match spec_parse_json(t) {
        None => Err(spec_config_err()),
        Some(j) => match j {
            JsonV::Obj(o) => match spec_get_opt_str(o, "server_url"@) {
                Some(u) => Ok(u),
                None => Err(spec_config_err()),
            },
            _ => Err(spec_config_err()),
        },
    }
}

/// Prints the config document for a server URL, pretty form.
pub fn encode_config(server_url: &str) -> (s: String)
    ensures
        s@ == spec_encode_config(server_url@),
{
    let mut out: Vec<char> = Vec::new();
    out.push('{');
    out.push('\n');
    out.push(' ');
    out.push(' ');
    out.push('"');
    push_chars(&mut out, "server_url");
    out.push('"');
    out.push(':');
    out.push(' ');
    out.push('"');
    crate::json::push_escaped(&mut out, server_url);
    out.push('"');
    out.push('\n');
    out.push('}');
    proof {
        assert(out@ =~= spec_encode_config(server_url@));
    }
    chars_to_string(&out)
}

/// Reads a config file's text, matching `spec_decode_config`.
pub fn decode_config(content: &str) -> (r: Result<ExternalConfig, String>)
    ensures
        match r {
            Ok(c) => spec_decode_config(content@) == Ok::<Option<Seq<char>>, Seq<char>>(c@),
            Err(m) => spec_decode_config(content@) == Err::<Option<Seq<char>>, Seq<char>>(m@),
        },
{
    match parse_json(content) {
        None => Err("Failed to parse config file: invalid JSON".to_owned()),
        Some(j) => match &j {
            Json::Obj(o) => match get_opt_str(o, "server_url") {
                Some(u) => Ok(ExternalConfig { server_url: u }),
                None => Err("Failed to parse config file: invalid JSON".to_owned()),
            },
            _ => Err("Failed to parse config file: invalid JSON".to_owned()),
        },
    }
}

/// The config read outcome: a missing file is no config and no error; a file
/// that is there is decoded.
pub fn read_config(content: Option<&str>) -> (r: Result<Option<ExternalConfig>, String>)
    ensures
        match content {
            None => r matches Ok(c) && c is None,
            Some(t) => match spec_decode_config(t@) {
                Ok(u) => r matches Ok(c) && c matches Some(cfg) && cfg@ == u,
                Err(m) => r matches Err(e) && e@ == m,
            },
        },
{
    match content {
        None => Ok(None),
        Some(t) => match decode_config(t) {
            Ok(c) => Ok(Some(c)),
            Err(m) => Err(m),
        },
    }
}

} // verus!

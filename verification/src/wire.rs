//! The wire types exchanged with the employee server, and their models.

use vstd::prelude::*;

verus! {

/// One employee record. Fields the server may omit are options; an absent
/// field means not set, never an error.
#[derive(Debug)]
pub struct Employee {
    pub id: u32,
    pub name: String,
    pub email: String,
    pub department: String,
    pub position: String,
    pub salary: u32,
    pub hire_date: String,
    pub ssn: Option<String>,
    pub phone: Option<String>,
    pub address: Option<String>,
    pub employee_id: Option<String>,
    pub status: Option<String>,
    pub manager: Option<String>,
}

/// The model of an employee record.
pub struct EmployeeV {
    pub id: u32,
    pub name: Seq<char>,
    pub email: Seq<char>,
    pub department: Seq<char>,
    pub position: Seq<char>,
    pub salary: u32,
    pub hire_date: Seq<char>,
    pub ssn: Option<Seq<char>>,
    pub phone: Option<Seq<char>>,
    pub address: Option<Seq<char>>,
    pub employee_id: Option<Seq<char>>,
    pub status: Option<Seq<char>>,
    pub manager: Option<Seq<char>>,
}

/// The model of an optional string.
pub open spec fn opt_v(o: Option<String>) -> Option<Seq<char>> {
    match o {
        Some(s) => Some(s@),
        None => None,
    }
}

impl View for Employee {
    type V = EmployeeV;

    open spec fn view(&self) -> EmployeeV {
        EmployeeV {
            id: self.id,
            name: self.name@,
            email: self.email@,
            department: self.department@,
            position: self.position@,
            salary: self.salary,
            hire_date: self.hire_date@,
            ssn: opt_v(self.ssn),
            phone: opt_v(self.phone),
            address: opt_v(self.address),
            employee_id: opt_v(self.employee_id),
            status: opt_v(self.status),
            manager: opt_v(self.manager),
        }
    }
}

/// Page bookkeeping produced by the server and passed through verbatim.
#[derive(Clone, Copy, PartialEq, Eq, Structural, Debug)]
pub struct Pagination {
    pub current_page: u32,
    pub total_pages: u32,
    pub total_records: u32,
    pub page_size: u32,
    pub has_next_page: bool,
    pub has_previous_page: bool,
}

/// The filter values the server echoes back, all as text.
#[derive(Debug)]
pub struct Filters {
    pub search: String,
    pub department: String,
    pub status: String,
    pub sort_by: String,
    pub sort_order: String,
    pub min_salary: String,
    pub max_salary: String,
}

/// The model of a filter echo.
pub struct FiltersV {
    pub search: Seq<char>,
    pub department: Seq<char>,
    pub status: Seq<char>,
    pub sort_by: Seq<char>,
    pub sort_order: Seq<char>,
    pub min_salary: Seq<char>,
    pub max_salary: Seq<char>,
}

impl View for Filters {
    type V = FiltersV;

    open spec fn view(&self) -> FiltersV {
        FiltersV {
            search: self.search@,
            department: self.department@,
            status: self.status@,
            sort_by: self.sort_by@,
            sort_order: self.sort_order@,
            min_salary: self.min_salary@,
            max_salary: self.max_salary@,
        }
    }
}

/// One page of employees with its bookkeeping and filter echo.
#[derive(Debug)]
pub struct PaginatedResponse {
    pub employees: Vec<Employee>,
    pub pagination: Pagination,
    pub filters: Filters,
}

/// The model of a page of employees.
pub struct PaginatedResponseV {
    pub employees: Seq<EmployeeV>,
    pub pagination: Pagination,
    pub filters: FiltersV,
}

/// The models of a vector of employees.
pub open spec fn emps_v(v: Seq<Employee>) -> Seq<EmployeeV> {
    Seq::new(v.len(), |i: int| v[i]@)
}

impl View for PaginatedResponse {
    type V = PaginatedResponseV;

    open spec fn view(&self) -> PaginatedResponseV {
        PaginatedResponseV {
            employees: emps_v(self.employees@),
            pagination: self.pagination,
            filters: self.filters@,
        }
    }
}

/// The optional query parameters of a listing call. An absent parameter is
/// left out of the request, not defaulted.
#[derive(Debug)]
pub struct PaginationParams {
    pub page: Option<u32>,
    pub limit: Option<u32>,
    pub search: Option<String>,
    pub department: Option<String>,
    pub status: Option<String>,
    pub sort_by: Option<String>,
    pub sort_order: Option<String>,
    pub min_salary: Option<u32>,
    pub max_salary: Option<u32>,
}

/// The model of the query parameters.
pub struct PaginationParamsV {
    pub page: Option<u32>,
    pub limit: Option<u32>,
    pub search: Option<Seq<char>>,
    pub department: Option<Seq<char>>,
    pub status: Option<Seq<char>>,
    pub sort_by: Option<Seq<char>>,
    pub sort_order: Option<Seq<char>>,
    pub min_salary: Option<u32>,
    pub max_salary: Option<u32>,
}

impl View for PaginationParams {
    type V = PaginationParamsV;

    open spec fn view(&self) -> PaginationParamsV {
        PaginationParamsV {
            page: self.page,
            limit: self.limit,
            search: opt_v(self.search),
            department: opt_v(self.department),
            status: opt_v(self.status),
            sort_by: opt_v(self.sort_by),
            sort_order: opt_v(self.sort_order),
            min_salary: self.min_salary,
            max_salary: self.max_salary,
        }
    }
}

/// The locally persisted configuration: the server base URL, if any.
#[derive(Debug)]
pub struct ExternalConfig {
    pub server_url: Option<String>,
}

impl View for ExternalConfig {
    type V = Option<Seq<char>>;

    open spec fn view(&self) -> Option<Seq<char>> {
        opt_v(self.server_url)
    }
}

} // verus!

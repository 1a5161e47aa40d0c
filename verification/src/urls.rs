//! Request URLs for the employee endpoints.
//!
//! A listing URL appends only the query parameters that are present: numeric
//! parameters whenever set, text parameters only when nonempty and always
//! percent-encoded. No parameters means no query string at all.

use vstd::prelude::*;
use vstd::utf8::encode_utf8;
use crate::numerals::{digit_char, spec_dec_digits, u64_to_chars};
use crate::chars::{push_chars, chars_to_string};
use crate::json::push_all;
use crate::wire::{PaginationParams, PaginationParamsV};

verus! {

broadcast use vstd::seq::group_seq_axioms, vstd::std_specs::vec::group_vec_axioms;

/// True of the bytes a URL query keeps unencoded: ASCII letters and digits
/// and `-`, `.`, `_`, `~`.
pub open spec fn is_unreserved_byte(b: u8) -> bool {
    (0x30 <= b && b <= 0x39) || (0x41 <= b && b <= 0x5a) || (0x61 <= b && b <= 0x7a) || b == 0x2d
        || b == 0x2e || b == 0x5f || b == 0x7e
}

/// The upper-case hexadecimal digit for a value below sixteen.
pub open spec fn hex_upper(d: nat) -> char {
    if d < 10 {
        digit_char(d)
    } else {
        ((0x41 + (d - 10)) as u8) as char
    }
}

/// How one byte appears in a percent-encoded string.
pub open spec fn spec_pct_byte(b: u8) -> Seq<char> {
    if is_unreserved_byte(b) {
        seq![b as char]
    } else {
        seq!['%', hex_upper((b / 16) as nat), hex_upper((b % 16) as nat)]
    }
}

/// The percent-encoded form of a byte string.
pub open spec fn spec_pct(bs: Seq<u8>) -> Seq<char>
    decreases bs.len(),
{
    if bs.len() == 0 {
        Seq::empty()
    } else {
        spec_pct_byte(bs[0]) + spec_pct(bs.drop_first())
    }
}

/// The percent-encoded form of a text: its UTF-8 bytes, each kept or written
/// as `%` and two upper-case hexadecimal digits.
pub open spec fn spec_urlencode(s: Seq<char>) -> Seq<char> {
    spec_pct(encode_utf8(s))
}

/// Relies on `urlencoding::encode`: each UTF-8 byte of the input is kept
/// when it is an ASCII letter, a digit, or one of `-`, `.`, `_`, `~`, and is
/// otherwise written as `%` and two upper-case hexadecimal digits.
#[verifier::external_body]
fn url_encode(s: &str) -> (r: String)
    ensures
        r@ == spec_urlencode(s@),
{
    urlencoding::encode(s).into_owned()
}

/// The query segment a numeric parameter contributes: present means sent.
pub open spec fn num_seg(name: Seq<char>, v: Option<u32>) -> Seq<Seq<char>> {
    match v {
        Some(n) => seq![name + spec_dec_digits(n as nat)],
        None => Seq::empty(),
    }
}

/// The query segment an encoded text parameter contributes: sent
/// percent-encoded, and only when present and nonempty.
pub open spec fn enc_seg(name: Seq<char>, v: Option<Seq<char>>) -> Seq<Seq<char>> {
    match v {
        Some(s) => if s.len() == 0 {
            Seq::empty()
        } else {
            seq![name + spec_urlencode(s)]
        },
        None => Seq::empty(),
    }
}

/// The query segments of a listing call, in their fixed order.
pub open spec fn spec_segments(p: PaginationParamsV) -> Seq<Seq<char>> {
    num_seg("page="@, p.page) + num_seg("limit="@, p.limit) + enc_seg("search="@, p.search)
        + enc_seg("department="@, p.department) + enc_seg("status="@, p.status) + enc_seg(
        "sortBy="@,
        p.sort_by,
    ) + enc_seg("sortOrder="@, p.sort_order) + num_seg("minSalary="@, p.min_salary) + num_seg(
        "maxSalary="@,
        p.max_salary,
    )
}

/// The segments from index `i` on, joined with `&`.
pub open spec fn spec_join_amp(segs: Seq<Seq<char>>, i: int) -> Seq<char>
    decreases segs.len() - i,
{
    if i < 0 || i >= segs.len() {
        Seq::empty()
    } else if i == segs.len() - 1 {
        segs[i]
    } else {
        segs[i] + seq!['&'] + spec_join_amp(segs, i + 1)
    }
}

/// The query string of a listing call: nothing at all without segments, else
/// `?` and the segments joined with `&`.
pub open spec fn spec_query(p: PaginationParamsV) -> Seq<char> {
    let segs = spec_segments(p);
    if segs.len() == 0 {
        Seq::empty()
    } else {
        seq!['?'] + spec_join_amp(segs, 0)
    }
}

/// The full URL of a listing call.
pub open spec fn spec_list_url(base: Seq<char>, p: PaginationParamsV) -> Seq<char> {
    base + "/api/employees"@ + spec_query(p)
}

/// The models of a vector of segments.
pub open spec fn segs_v(s: Seq<String>) -> Seq<Seq<char>> {
    Seq::new(s.len(), |i: int| s[i]@)
}

fn push_num_seg(segs: &mut Vec<String>, name: &str, v: &Option<u32>)
    ensures
        segs_v(final(segs)@) == segs_v(old(segs)@) + num_seg(name@, *v),
{
    let ghost s0 = segs@;
    match v {
        Some(n) => {
            let mut out: Vec<char> = Vec::new();
            push_chars(&mut out, name);
            let d = u64_to_chars(*n as u64);
            push_all(&mut out, &d);
            segs.push(chars_to_string(&out));
            proof {
                assert(segs_v(segs@) =~= segs_v(s0) + num_seg(name@, *v));
            }
        },
        None => {
            proof {
                assert(segs_v(segs@) =~= segs_v(s0) + num_seg(name@, *v));
            }
        },
    }
}

fn push_enc_seg(segs: &mut Vec<String>, name: &str, v: &Option<String>)
    ensures
        segs_v(final(segs)@) == segs_v(old(segs)@) + enc_seg(name@, crate::wire::opt_v(*v)),
{
    let ghost s0 = segs@;
    match v {
        Some(s) => {
            if !s.as_str().is_empty() {
                let mut out: Vec<char> = Vec::new();
                push_chars(&mut out, name);
                let e = url_encode(s.as_str());
                push_chars(&mut out, e.as_str());
                segs.push(chars_to_string(&out));
            }
            proof {
                assert(segs_v(segs@) =~= segs_v(s0) + enc_seg(name@, crate::wire::opt_v(*v)));
            }
        },
        None => {
            proof {
                assert(segs_v(segs@) =~= segs_v(s0) + enc_seg(name@, crate::wire::opt_v(*v)));
            }
        },
    }
}

/// Appends the segments from index `i` on, joined with `&`.
fn join_from(segs: &Vec<String>, i: usize, out: &mut Vec<char>)
    requires
        i < segs@.len(),
    ensures
        final(out)@ == old(out)@ + spec_join_amp(segs_v(segs@), i as int),
    decreases segs@.len() - i,
{
    let n = segs.len();
    push_chars(out, segs[i].as_str());
    proof {
        assert(segs_v(segs@)[i as int] == segs@[i as int]@);
    }
    if i + 1 < n {
        out.push('&');
        join_from(segs, i + 1, out);
        proof {
            assert(out@ =~= old(out)@ + spec_join_amp(segs_v(segs@), i as int));
        }
    } else {
        proof {
            assert(out@ =~= old(out)@ + spec_join_amp(segs_v(segs@), i as int));
        }
    }
}

/// Builds the listing URL for a base server URL and query parameters,
/// matching `spec_list_url`.
pub fn build_list_url(server_url: &str, params: &PaginationParams) -> (url: String)
    ensures
        url@ == spec_list_url(server_url@, params@),
{
    let mut out: Vec<char> = Vec::new();
    push_chars(&mut out, server_url);
    push_chars(&mut out, "/api/employees");
    let mut segs: Vec<String> = Vec::new();
    proof {
        assert(segs_v(segs@) =~= Seq::<Seq<char>>::empty());
    }
    push_num_seg(&mut segs, "page=", &params.page);
    push_num_seg(&mut segs, "limit=", &params.limit);
    push_enc_seg(&mut segs, "search=", &params.search);
    push_enc_seg(&mut segs, "department=", &params.department);
    push_enc_seg(&mut segs, "status=", &params.status);
    push_enc_seg(&mut segs, "sortBy=", &params.sort_by);
    push_enc_seg(&mut segs, "sortOrder=", &params.sort_order);
    push_num_seg(&mut segs, "minSalary=", &params.min_salary);
    push_num_seg(&mut segs, "maxSalary=", &params.max_salary);
    proof {
        assert(segs_v(segs@) =~= spec_segments(params@));
    }
    if segs.len() > 0 {
        out.push('?');
        join_from(&segs, 0, &mut out);
    }
    proof {
        assert(out@ =~= spec_list_url(server_url@, params@));
    }
    chars_to_string(&out)
}

/// Builds the URL of one employee's resource: the base URL, the employees
/// path, and the identifier in decimal.
pub fn build_item_url(server_url: &str, id: u32) -> (url: String)
    ensures
        url@ == server_url@ + "/api/employees/"@ + spec_dec_digits(id as nat),
{
    let mut out: Vec<char> = Vec::new();
    push_chars(&mut out, server_url);
    push_chars(&mut out, "/api/employees/");
    let d = u64_to_chars(id as u64);
    push_all(&mut out, &d);
    proof {
        assert(out@ =~= server_url@ + "/api/employees/"@ + spec_dec_digits(id as nat));
    }
    chars_to_string(&out)
}

/// The parameters of the whole-directory convenience call: the first page
/// with a very large limit, sorted by name ascending.
pub fn list_all_params() -> (p: PaginationParams)
    ensures
        p@.page == Some(1u32),
        p@.limit == Some(10000u32),
        p@.search is None,
        p@.department is None,
        p@.status is None,
        p@.sort_by == Some("name"@),
        p@.sort_order == Some("ASC"@),
        p@.min_salary is None,
        p@.max_salary is None,
{
    PaginationParams {
        page: Some(1),
        limit: Some(10000),
        search: None,
        department: None,
        status: None,
        sort_by: Some("name".to_owned()),
        sort_order: Some("ASC".to_owned()),
        min_salary: None,
        max_salary: None,
    }
}

} // verus!

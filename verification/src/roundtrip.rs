//! Round-trip laws: a document printed by this crate is read back unchanged.
//!
//! The laws cover the documents this client actually sends: flat objects
//! whose values are null, booleans, numbers and strings — an employee record
//! and the config document. Reading composes with printing to the identity
//! on those documents, field for field, optional fields preserved as absent
//! or present.

use vstd::prelude::*;
use crate::numerals::{is_digit, spec_dec_digits, lemma_dec_digits_val};
use crate::json::{JsonV, is_ws, is_hex, hex_val, hex_char, spec_escape, spec_escape_char, spec_short_escape, spec_parse_string_rest, spec_parse_value, spec_parse_members, spec_parse_json, spec_print_value, spec_print_members, spec_skip_ws, lemma_digits_len_char};
use crate::codec::{spec_lookup, opt_member, spec_emp_members, spec_get_u32, spec_get_str, spec_get_opt_str, spec_json_to_emp, spec_decode_employee, spec_encode_employee, spec_decode_config, spec_encode_config};
use crate::wire::EmployeeV;

verus! {

broadcast use vstd::seq::group_seq_axioms;

/// True of the document values the client's flat objects hold: no nesting,
/// and numbers that fit in `u64`.
pub open spec fn scalar_ok(j: JsonV) -> bool {
    match j {
        JsonV::Null => true,
        JsonV::Bool(_) => true,
        JsonV::Num(n) => n <= 0xffff_ffff_ffff_ffff,
        JsonV::Str(_) => true,
        JsonV::Arr(_) => false,
        JsonV::Obj(_) => false,
    }
}

/// True of an object whose values are all such scalars.
pub open spec fn flat_obj_ok(o: Seq<(Seq<char>, JsonV)>) -> bool {
    forall|i: int| 0 <= i < o.len() ==> scalar_ok(#[trigger] o[i].1)
}

/// An escaped string body followed by its closing quote reads back as the
/// original string, with nothing beyond the quote consumed.
pub proof fn lemma_parse_escaped(s: Seq<char>, rest: Seq<char>)
    ensures
        spec_parse_string_rest(spec_escape(s) + seq!['"'] + rest) == Some((s, rest)),
    decreases s.len(),
{
    let input = spec_escape(s) + seq!['"'] + rest;
    if s.len() == 0 {
        assert(spec_escape(s) =~= Seq::<char>::empty());
        assert(input =~= seq!['"'] + rest);
        assert(input[0] == '"');
        assert(input.drop_first() =~= rest);
        assert(s =~= Seq::<char>::empty());
    } else {
        let c = s[0];
        let tail = s.drop_first();
        assert(spec_escape(s) == spec_escape_char(c) + spec_escape(tail));
        lemma_parse_escaped(tail, rest);
        let sub_input = spec_escape(tail) + seq!['"'] + rest;
        if c == '"' {
            assert(input =~= seq!['\\', '"'] + sub_input);
            assert(input[0] == '\\' && input[1] == '"');
            assert(spec_short_escape('"') == Some('"'));
            assert(input.subrange(2, input.len() as int) =~= sub_input);
            assert(seq!['"'] + tail =~= s);
        } else if c == '\\' {
            assert(input =~= seq!['\\', '\\'] + sub_input);
            assert(input[0] == '\\' && input[1] == '\\');
            assert(spec_short_escape('\\') == Some('\\'));
            assert(input.subrange(2, input.len() as int) =~= sub_input);
            assert(seq!['\\'] + tail =~= s);
        } else if (c as u32) < 0x20 {
            let u = c as u32;
            let h = hex_char((u / 16) as nat);
            let l = hex_char((u % 16) as nat);
            assert(input =~= seq!['\\', 'u', '0', '0', h, l] + sub_input);
            assert(input[0] == '\\' && input[1] == 'u');
            assert(input[2] == '0' && input[3] == '0' && input[4] == h && input[5] == l);
            assert(is_hex('0') && hex_val('0') == 0);
            lemma_hex_char_val((u / 16) as nat);
            lemma_hex_char_val((u % 16) as nat);
            let code = ((hex_val('0') * 16 + hex_val('0')) * 16 + hex_val(h)) * 16 + hex_val(l);
            assert(code == (u / 16) * 16 + u % 16);
            assert(code == u);
            assert(code < 0xd800);
            vstd::utf8::char_u32_cast(c, u);
            assert(((code as u32) as char) == c);
            assert(input.subrange(6, input.len() as int) =~= sub_input);
            assert(seq![c] + tail =~= s);
        } else {
            assert(input =~= seq![c] + sub_input);
            assert(input[0] == c);
            assert(c != '"' && c != '\\' && !((c as u32) < 0x20));
            assert(input.drop_first() =~= sub_input);
            assert(seq![c] + tail =~= s);
        }
    }
}

/// A hexadecimal digit character reads back as its value.
pub proof fn lemma_hex_char_val(d: nat)
    requires
        d < 16,
    ensures
        is_hex(hex_char(d)),
        hex_val(hex_char(d)) == d,
{
}

/// A printed numeral followed by anything that is not a digit reads back as
/// the number, with nothing beyond the numeral consumed.
pub proof fn lemma_parse_number(n: nat, rest: Seq<char>)
    requires
        n <= 0xffff_ffff_ffff_ffff,
        rest.len() == 0 || !is_digit(rest[0]),
    ensures
        spec_parse_value(spec_dec_digits(n) + rest) == Some((JsonV::Num(n), rest)),
{
    let d = spec_dec_digits(n);
    lemma_dec_digits_val(n);
    let input = d + rest;
    assert(input[0] == d[0]);
    assert(is_digit(d[0]));
    assert(forall|t: int| 0 <= t < d.len() ==> #[trigger] input[t] == d[t]);
    assert(forall|t: int| 0 <= t < d.len() ==> is_digit(#[trigger] input[t]));
    lemma_digits_len_char(input, d.len() as int);
    assert(input.subrange(0, d.len() as int) =~= d);
    assert(input.subrange(d.len() as int, input.len() as int) =~= rest);
}

/// A printed scalar followed by anything that is not a digit reads back as
/// itself, with nothing beyond it consumed.
pub proof fn lemma_parse_scalar(j: JsonV, rest: Seq<char>)
    requires
        scalar_ok(j),
        rest.len() == 0 || !is_digit(rest[0]),
    ensures
        spec_parse_value(spec_print_value(j) + rest) == Some((j, rest)),
{
    let p = spec_print_value(j);
    let input = p + rest;
    match j {
        JsonV::Null => {
            assert(input =~= seq!['n', 'u', 'l', 'l'] + rest);
            assert(input[0] == 'n' && input[1] == 'u' && input[2] == 'l' && input[3] == 'l');
            assert(input.subrange(4, input.len() as int) =~= rest);
        },
        JsonV::Bool(b) => {
            if b {
                assert(input =~= seq!['t', 'r', 'u', 'e'] + rest);
                assert(input[0] == 't' && input[1] == 'r' && input[2] == 'u' && input[3] == 'e');
                assert(input.subrange(4, input.len() as int) =~= rest);
            } else {
                assert(input =~= seq!['f', 'a', 'l', 's', 'e'] + rest);
                assert(input[0] == 'f' && input[1] == 'a' && input[2] == 'l' && input[3] == 's'
                    && input[4] == 'e');
                assert(input.subrange(5, input.len() as int) =~= rest);
            }
        },
        JsonV::Num(n) => {
            lemma_parse_number(n, rest);
        },
        JsonV::Str(s) => {
            assert(input =~= seq!['"'] + (spec_escape(s) + seq!['"'] + rest));
            assert(input[0] == '"');
            lemma_parse_escaped(s, rest);
            assert(input.drop_first() =~= spec_escape(s) + seq!['"'] + rest);
        },
        JsonV::Arr(_) => {},
        JsonV::Obj(_) => {},
    }
}

/// A printed scalar is nonempty and opens with something that is neither
/// whitespace nor a digit's continuation hazard.
pub proof fn lemma_print_scalar_first(j: JsonV)
    requires
        scalar_ok(j),
    ensures
        spec_print_value(j).len() >= 1,
        !is_ws(spec_print_value(j)[0]),
{
    match j {
        JsonV::Num(n) => {
            lemma_dec_digits_val(n);
            assert(is_digit(spec_print_value(j)[0]));
        },
        _ => {},
    }
}

/// The printed members of a flat object from index `i` on, followed by the
/// closing brace, read back as exactly those members.
pub proof fn lemma_parse_members(o: Seq<(Seq<char>, JsonV)>, i: int, rest: Seq<char>)
    requires
        0 <= i < o.len(),
        flat_obj_ok(o),
    ensures
        spec_parse_members(spec_print_members(o, i) + seq!['}'] + rest) == Some(
            (o.subrange(i, o.len() as int), rest),
        ),
    decreases o.len() - i,
{
    let k = o[i].0;
    let val = o[i].1;
    assert(scalar_ok(val));
    let pv = spec_print_value(val);
    lemma_print_scalar_first(val);
    let input = spec_print_members(o, i) + seq!['}'] + rest;
    let after2: Seq<char> = if i == o.len() - 1 {
        seq!['}'] + rest
    } else {
        seq![','] + (spec_print_members(o, i + 1) + seq!['}'] + rest)
    };
    let r = seq![':'] + (pv + after2);
    assert(input =~= seq!['"'] + (spec_escape(k) + seq!['"'] + r));
    assert(input[0] == '"');
    assert(input.drop_first() =~= spec_escape(k) + seq!['"'] + r);
    lemma_parse_escaped(k, r);
    assert(r.len() < input.len());
    assert(r[0] == ':' && !is_ws(':'));
    assert(spec_skip_ws(r) == r);
    assert(r.drop_first() =~= pv + after2);
    assert((pv + after2)[0] == pv[0]);
    assert(spec_skip_ws(pv + after2) == pv + after2);
    assert((pv + after2).len() < r.len());
    assert(after2[0] == '}' || after2[0] == ',');
    assert(!is_digit(after2[0]) && !is_ws(after2[0]));
    lemma_parse_scalar(val, after2);
    assert(spec_skip_ws(after2) == after2);
    if i == o.len() - 1 {
        assert(after2[0] == '}' && after2[0] != ',');
        assert(after2.drop_first() =~= rest);
        assert(o.subrange(i, o.len() as int) =~= seq![(k, val)]);
    } else {
        let nextm = spec_print_members(o, i + 1) + seq!['}'] + rest;
        assert(after2[0] == ',');
        assert(after2.drop_first() =~= nextm);
        assert(spec_print_members(o, i + 1)[0] == '"');
        assert(nextm[0] == '"' && !is_ws('"'));
        assert(spec_skip_ws(nextm) == nextm);
        assert(nextm.len() < input.len());
        lemma_parse_members(o, i + 1, rest);
        assert(seq![(k, val)] + o.subrange(i + 1, o.len() as int) =~= o.subrange(
            i,
            o.len() as int,
        ));
    }
}

/// A printed flat object reads back, as a whole document, as itself.
pub proof fn lemma_parse_flat_obj(o: Seq<(Seq<char>, JsonV)>)
    requires
        flat_obj_ok(o),
    ensures
        spec_parse_json(spec_print_value(JsonV::Obj(o))) == Some(JsonV::Obj(o)),
{
    let p = spec_print_value(JsonV::Obj(o));
    if o.len() == 0 {
        assert(p == seq!['{', '}']);
        assert(p[0] == '{' && !is_ws('{'));
        assert(spec_skip_ws(p) == p);
        assert(p.drop_first() =~= seq!['}']);
        assert(!is_ws('}'));
        assert(spec_skip_ws(seq!['}']) == seq!['}']);
        assert(seq!['}'].drop_first() =~= Seq::<char>::empty());
        assert(spec_skip_ws(Seq::<char>::empty()).len() == 0);
        assert(o =~= Seq::<(Seq<char>, JsonV)>::empty());
    } else {
        let body = spec_print_members(o, 0) + seq!['}'] + Seq::<char>::empty();
        assert(p == seq!['{'] + spec_print_members(o, 0) + seq!['}']);
        assert(p[0] == '{' && !is_ws('{'));
        assert(spec_skip_ws(p) == p);
        assert(p.drop_first() =~= body);
        assert(spec_print_members(o, 0)[0] == '"');
        assert(body[0] == '"' && !is_ws('"'));
        assert(spec_skip_ws(body) == body);
        assert(body.len() < p.len());
        assert(body[0] != '}');
        lemma_parse_members(o, 0, Seq::<char>::empty());
        assert(o.subrange(0, o.len() as int) =~= o);
        assert(spec_skip_ws(Seq::<char>::empty()).len() == 0);
    }
}

/// Looking a key up skips a block of members that all have other keys.
pub proof fn lemma_lookup_skip(
    a: Seq<(Seq<char>, JsonV)>,
    b: Seq<(Seq<char>, JsonV)>,
    k: Seq<char>,
)
    requires
        forall|i: int| 0 <= i < a.len() ==> (#[trigger] a[i]).0 != k,
    ensures
        spec_lookup(a + b, k) == spec_lookup(b, k),
    decreases a.len(),
{
    if a.len() == 0 {
        assert(a + b =~= b);
    } else {
        assert((a + b)[0] == a[0]);
        assert((a + b).drop_first() =~= a.drop_first() + b);
        assert forall|i: int| 0 <= i < a.drop_first().len() implies (#[trigger] a.drop_first()[i]).0
            != k by {
            assert(a.drop_first()[i] == a[i + 1]);
        }
        lemma_lookup_skip(a.drop_first(), b, k);
    }
}

/// Looking a key up finds the first member that carries it.
pub proof fn lemma_lookup_at(
    a: Seq<(Seq<char>, JsonV)>,
    b: Seq<(Seq<char>, JsonV)>,
    k: Seq<char>,
    t: int,
)
    requires
        0 <= t < a.len(),
        a[t].0 == k,
        forall|i: int| 0 <= i < t ==> (#[trigger] a[i]).0 != k,
    ensures
        spec_lookup(a + b, k) == Some(a[t].1),
    decreases t,
{
    assert((a + b)[0] == a[0]);
    if t == 0 {
    } else {
        assert((a + b).drop_first() =~= a.drop_first() + b);
        assert forall|i: int| 0 <= i < t - 1 implies (#[trigger] a.drop_first()[i]).0 != k by {
            assert(a.drop_first()[i] == a[i + 1]);
        }
        assert(a.drop_first()[t - 1] == a[t]);
        lemma_lookup_at(a.drop_first(), b, k, t - 1);
    }
}

/// An optional member block for another key is skipped.
pub proof fn lemma_lookup_skip_opt(
    kk: Seq<char>,
    v: Option<Seq<char>>,
    b: Seq<(Seq<char>, JsonV)>,
    k: Seq<char>,
)
    requires
        kk != k,
    ensures
        spec_lookup(opt_member(kk, v) + b, k) == spec_lookup(b, k),
{
    let a = opt_member(kk, v);
    assert forall|i: int| 0 <= i < a.len() implies (#[trigger] a[i]).0 != k by {
        assert(a[i].0 == kk);
    }
    lemma_lookup_skip(a, b, k);
}

/// A lone optional member block for another key holds no such key.
pub proof fn lemma_lookup_opt_only(kk: Seq<char>, v: Option<Seq<char>>, k: Seq<char>)
    requires
        kk != k,
    ensures
        spec_lookup(opt_member(kk, v), k) is None,
{
    match v {
        Some(s) => {
            assert(opt_member(kk, v)[0].0 == kk);
            assert(opt_member(kk, v).drop_first() =~= Seq::<(Seq<char>, JsonV)>::empty());
            assert(spec_lookup(Seq::<(Seq<char>, JsonV)>::empty(), k) is None);
        },
        None => {},
    }
}

/// An optional member block for its own key answers with the value's
/// presence.
pub proof fn lemma_lookup_opt_hit(kk: Seq<char>, s: Seq<char>, b: Seq<(Seq<char>, JsonV)>)
    ensures
        spec_lookup(opt_member(kk, Some(s)) + b, kk) == Some(JsonV::Str(s)),
{
    lemma_lookup_at(opt_member(kk, Some(s)), b, kk, 0);
}

/// Every member block appended with another keeps a flat object flat.
pub proof fn lemma_flat_append(a: Seq<(Seq<char>, JsonV)>, b: Seq<(Seq<char>, JsonV)>)
    requires
        flat_obj_ok(a),
        flat_obj_ok(b),
    ensures
        flat_obj_ok(a + b),
{
    assert forall|i: int| 0 <= i < (a + b).len() implies scalar_ok((#[trigger] (a + b)[i]).1) by {
        if i < a.len() {
            assert((a + b)[i] == a[i]);
        } else {
            assert((a + b)[i] == b[i - a.len()]);
        }
    }
}

/// An optional member block is flat.
pub proof fn lemma_flat_opt(kk: Seq<char>, v: Option<Seq<char>>)
    ensures
        flat_obj_ok(opt_member(kk, v)),
{
}

/// The thirteen member keys of an employee document are pairwise distinct.
pub proof fn lemma_emp_keys_distinct()
    ensures
        "id"@ != "name"@,
        "id"@ != "email"@,
        "id"@ != "department"@,
        "id"@ != "position"@,
        "id"@ != "salary"@,
        "id"@ != "hire_date"@,
        "id"@ != "ssn"@,
        "id"@ != "phone"@,
        "id"@ != "address"@,
        "id"@ != "employee_id"@,
        "id"@ != "status"@,
        "id"@ != "manager"@,
        "name"@ != "email"@,
        "name"@ != "department"@,
        "name"@ != "position"@,
        "name"@ != "salary"@,
        "name"@ != "hire_date"@,
        "name"@ != "ssn"@,
        "name"@ != "phone"@,
        "name"@ != "address"@,
        "name"@ != "employee_id"@,
        "name"@ != "status"@,
        "name"@ != "manager"@,
        "email"@ != "department"@,
        "email"@ != "position"@,
        "email"@ != "salary"@,
        "email"@ != "hire_date"@,
        "email"@ != "ssn"@,
        "email"@ != "phone"@,
        "email"@ != "address"@,
        "email"@ != "employee_id"@,
        "email"@ != "status"@,
        "email"@ != "manager"@,
        "department"@ != "position"@,
        "department"@ != "salary"@,
        "department"@ != "hire_date"@,
        "department"@ != "ssn"@,
        "department"@ != "phone"@,
        "department"@ != "address"@,
        "department"@ != "employee_id"@,
        "department"@ != "status"@,
        "department"@ != "manager"@,
        "position"@ != "salary"@,
        "position"@ != "hire_date"@,
        "position"@ != "ssn"@,
        "position"@ != "phone"@,
        "position"@ != "address"@,
        "position"@ != "employee_id"@,
        "position"@ != "status"@,
        "position"@ != "manager"@,
        "salary"@ != "hire_date"@,
        "salary"@ != "ssn"@,
        "salary"@ != "phone"@,
        "salary"@ != "address"@,
        "salary"@ != "employee_id"@,
        "salary"@ != "status"@,
        "salary"@ != "manager"@,
        "hire_date"@ != "ssn"@,
        "hire_date"@ != "phone"@,
        "hire_date"@ != "address"@,
        "hire_date"@ != "employee_id"@,
        "hire_date"@ != "status"@,
        "hire_date"@ != "manager"@,
        "ssn"@ != "phone"@,
        "ssn"@ != "address"@,
        "ssn"@ != "employee_id"@,
        "ssn"@ != "status"@,
        "ssn"@ != "manager"@,
        "phone"@ != "address"@,
        "phone"@ != "employee_id"@,
        "phone"@ != "status"@,
        "phone"@ != "manager"@,
        "address"@ != "employee_id"@,
        "address"@ != "status"@,
        "address"@ != "manager"@,
        "employee_id"@ != "status"@,
        "employee_id"@ != "manager"@,
        "status"@ != "manager"@,
{
    reveal_strlit("id");
    reveal_strlit("name");
    reveal_strlit("email");
    reveal_strlit("department");
    reveal_strlit("position");
    reveal_strlit("salary");
    reveal_strlit("hire_date");
    reveal_strlit("ssn");
    reveal_strlit("phone");
    reveal_strlit("address");
    reveal_strlit("employee_id");
    reveal_strlit("status");
    reveal_strlit("manager");
    assert("id"@.len() == 2);
    assert("name"@.len() == 4);
    assert("email"@.len() == 5);
    assert("department"@.len() == 10);
    assert("position"@.len() == 8);
    assert("salary"@.len() == 6);
    assert("hire_date"@.len() == 9);
    assert("ssn"@.len() == 3);
    assert("phone"@.len() == 5);
    assert("address"@.len() == 7);
    assert("employee_id"@.len() == 11);
    assert("status"@.len() == 6);
    assert("manager"@.len() == 7);
    assert("email"@[0] == 'e');
    assert("phone"@[0] == 'p');
    assert("salary"@[1] == 'a');
    assert("status"@[1] == 't');
    assert("address"@[0] == 'a');
    assert("manager"@[0] == 'm');
    assert("id"@ != "name"@);
    assert("id"@ != "email"@);
    assert("id"@ != "department"@);
    assert("id"@ != "position"@);
    assert("id"@ != "salary"@);
    assert("id"@ != "hire_date"@);
    assert("id"@ != "ssn"@);
    assert("id"@ != "phone"@);
    assert("id"@ != "address"@);
    assert("id"@ != "employee_id"@);
    assert("id"@ != "status"@);
    assert("id"@ != "manager"@);
    assert("name"@ != "email"@);
    assert("name"@ != "department"@);
    assert("name"@ != "position"@);
    assert("name"@ != "salary"@);
    assert("name"@ != "hire_date"@);
    assert("name"@ != "ssn"@);
    assert("name"@ != "phone"@);
    assert("name"@ != "address"@);
    assert("name"@ != "employee_id"@);
    assert("name"@ != "status"@);
    assert("name"@ != "manager"@);
    assert("email"@ != "department"@);
    assert("email"@ != "position"@);
    assert("email"@ != "salary"@);
    assert("email"@ != "hire_date"@);
    assert("email"@ != "ssn"@);
    assert("email"@ != "phone"@);
    assert("email"@ != "address"@);
    assert("email"@ != "employee_id"@);
    assert("email"@ != "status"@);
    assert("email"@ != "manager"@);
    assert("department"@ != "position"@);
    assert("department"@ != "salary"@);
    assert("department"@ != "hire_date"@);
    assert("department"@ != "ssn"@);
    assert("department"@ != "phone"@);
    assert("department"@ != "address"@);
    assert("department"@ != "employee_id"@);
    assert("department"@ != "status"@);
    assert("department"@ != "manager"@);
    assert("position"@ != "salary"@);
    assert("position"@ != "hire_date"@);
    assert("position"@ != "ssn"@);
    assert("position"@ != "phone"@);
    assert("position"@ != "address"@);
    assert("position"@ != "employee_id"@);
    assert("position"@ != "status"@);
    assert("position"@ != "manager"@);
    assert("salary"@ != "hire_date"@);
    assert("salary"@ != "ssn"@);
    assert("salary"@ != "phone"@);
    assert("salary"@ != "address"@);
    assert("salary"@ != "employee_id"@);
    assert("salary"@ != "status"@);
    assert("salary"@ != "manager"@);
    assert("hire_date"@ != "ssn"@);
    assert("hire_date"@ != "phone"@);
    assert("hire_date"@ != "address"@);
    assert("hire_date"@ != "employee_id"@);
    assert("hire_date"@ != "status"@);
    assert("hire_date"@ != "manager"@);
    assert("ssn"@ != "phone"@);
    assert("ssn"@ != "address"@);
    assert("ssn"@ != "employee_id"@);
    assert("ssn"@ != "status"@);
    assert("ssn"@ != "manager"@);
    assert("phone"@ != "address"@);
    assert("phone"@ != "employee_id"@);
    assert("phone"@ != "status"@);
    assert("phone"@ != "manager"@);
    assert("address"@ != "employee_id"@);
    assert("address"@ != "status"@);
    assert("address"@ != "manager"@);
    assert("employee_id"@ != "status"@);
    assert("employee_id"@ != "manager"@);
    assert("status"@ != "manager"@);
}

/// Decoding inverts encoding on every employee record, field for field, with
/// optional fields preserved as absent or present.
#[verifier::rlimit(100)]
pub proof fn lemma_employee_round_trip(e: EmployeeV)
    ensures
        spec_decode_employee(spec_encode_employee(e)) == Some(e),
{
    lemma_emp_keys_distinct();
    let o = spec_emp_members(e);
    let f7 = seq![
        ("id"@, JsonV::Num(e.id as nat)),
        ("name"@, JsonV::Str(e.name)),
        ("email"@, JsonV::Str(e.email)),
        ("department"@, JsonV::Str(e.department)),
        ("position"@, JsonV::Str(e.position)),
        ("salary"@, JsonV::Num(e.salary as nat)),
        ("hire_date"@, JsonV::Str(e.hire_date)),
    ];
    let m_ssn = opt_member("ssn"@, e.ssn);
    let m_phone = opt_member("phone"@, e.phone);
    let m_addr = opt_member("address"@, e.address);
    let m_eid = opt_member("employee_id"@, e.employee_id);
    let m_status = opt_member("status"@, e.status);
    let m_mgr = opt_member("manager"@, e.manager);
    let s6 = m_mgr;
    let s5 = m_status + s6;
    let s4 = m_eid + s5;
    let s3 = m_addr + s4;
    let s2 = m_phone + s3;
    let s1 = m_ssn + s2;
    assert(o == f7 + s1);

    // the object is flat, so the whole document reads back as itself
    assert(flat_obj_ok(f7)) by {
        assert(e.id as nat <= 0xffff_ffff_ffff_ffff);
        assert(e.salary as nat <= 0xffff_ffff_ffff_ffff);
    }
    lemma_flat_opt("ssn"@, e.ssn);
    lemma_flat_opt("phone"@, e.phone);
    lemma_flat_opt("address"@, e.address);
    lemma_flat_opt("employee_id"@, e.employee_id);
    lemma_flat_opt("status"@, e.status);
    lemma_flat_opt("manager"@, e.manager);
    lemma_flat_append(m_status, s6);
    lemma_flat_append(m_eid, s5);
    lemma_flat_append(m_addr, s4);
    lemma_flat_append(m_phone, s3);
    lemma_flat_append(m_ssn, s2);
    lemma_flat_append(f7, s1);
    lemma_parse_flat_obj(o);

    // the seven required fields are found at their places
    lemma_lookup_at(f7, s1, "id"@, 0);
    lemma_lookup_at(f7, s1, "name"@, 1);
    assert(f7[0].0 != "email"@ && f7[1].0 != "email"@);
    lemma_lookup_at(f7, s1, "email"@, 2);
    assert(f7[0].0 != "department"@ && f7[1].0 != "department"@ && f7[2].0 != "department"@);
    lemma_lookup_at(f7, s1, "department"@, 3);
    assert(f7[0].0 != "position"@ && f7[1].0 != "position"@ && f7[2].0 != "position"@ && f7[3].0
        != "position"@);
    lemma_lookup_at(f7, s1, "position"@, 4);
    assert(f7[0].0 != "salary"@ && f7[1].0 != "salary"@ && f7[2].0 != "salary"@ && f7[3].0
        != "salary"@ && f7[4].0 != "salary"@);
    lemma_lookup_at(f7, s1, "salary"@, 5);
    assert(f7[0].0 != "hire_date"@ && f7[1].0 != "hire_date"@ && f7[2].0 != "hire_date"@ && f7[3].0
        != "hire_date"@ && f7[4].0 != "hire_date"@ && f7[5].0 != "hire_date"@);
    lemma_lookup_at(f7, s1, "hire_date"@, 6);
    assert(spec_get_u32(o, "id"@) == Some(e.id));
    assert(spec_get_str(o, "name"@) == Some(e.name));
    assert(spec_get_str(o, "email"@) == Some(e.email));
    assert(spec_get_str(o, "department"@) == Some(e.department));
    assert(spec_get_str(o, "position"@) == Some(e.position));
    assert(spec_get_u32(o, "salary"@) == Some(e.salary));
    assert(spec_get_str(o, "hire_date"@) == Some(e.hire_date));

    // each optional field is found, or found absent, past the others
    assert forall|i: int| 0 <= i < f7.len() implies (#[trigger] f7[i]).0 != "ssn"@ by {}
    lemma_lookup_skip(f7, s1, "ssn"@);
    match e.ssn {
        Some(sv) => {
            lemma_lookup_opt_hit("ssn"@, sv, s2);
        },
        None => {
            assert(s1 =~= s2);
            lemma_lookup_skip_opt("phone"@, e.phone, s3, "ssn"@);
            lemma_lookup_skip_opt("address"@, e.address, s4, "ssn"@);
            lemma_lookup_skip_opt("employee_id"@, e.employee_id, s5, "ssn"@);
            lemma_lookup_skip_opt("status"@, e.status, s6, "ssn"@);
            lemma_lookup_opt_only("manager"@, e.manager, "ssn"@);
        },
    }
    assert(spec_get_opt_str(o, "ssn"@) == Some(e.ssn));

    assert forall|i: int| 0 <= i < f7.len() implies (#[trigger] f7[i]).0 != "phone"@ by {}
    lemma_lookup_skip(f7, s1, "phone"@);
    lemma_lookup_skip_opt("ssn"@, e.ssn, s2, "phone"@);
    match e.phone {
        Some(sv) => {
            lemma_lookup_opt_hit("phone"@, sv, s3);
        },
        None => {
            assert(s2 =~= s3);
            lemma_lookup_skip_opt("address"@, e.address, s4, "phone"@);
            lemma_lookup_skip_opt("employee_id"@, e.employee_id, s5, "phone"@);
            lemma_lookup_skip_opt("status"@, e.status, s6, "phone"@);
            lemma_lookup_opt_only("manager"@, e.manager, "phone"@);
        },
    }
    assert(spec_get_opt_str(o, "phone"@) == Some(e.phone));

    assert forall|i: int| 0 <= i < f7.len() implies (#[trigger] f7[i]).0 != "address"@ by {}
    lemma_lookup_skip(f7, s1, "address"@);
    lemma_lookup_skip_opt("ssn"@, e.ssn, s2, "address"@);
    lemma_lookup_skip_opt("phone"@, e.phone, s3, "address"@);
    match e.address {
        Some(sv) => {
            lemma_lookup_opt_hit("address"@, sv, s4);
        },
        None => {
            assert(s3 =~= s4);
            lemma_lookup_skip_opt("employee_id"@, e.employee_id, s5, "address"@);
            lemma_lookup_skip_opt("status"@, e.status, s6, "address"@);
            lemma_lookup_opt_only("manager"@, e.manager, "address"@);
        },
    }
    assert(spec_get_opt_str(o, "address"@) == Some(e.address));

    assert forall|i: int| 0 <= i < f7.len() implies (#[trigger] f7[i]).0 != "employee_id"@ by {}
    lemma_lookup_skip(f7, s1, "employee_id"@);
    lemma_lookup_skip_opt("ssn"@, e.ssn, s2, "employee_id"@);
    lemma_lookup_skip_opt("phone"@, e.phone, s3, "employee_id"@);
    lemma_lookup_skip_opt("address"@, e.address, s4, "employee_id"@);
    match e.employee_id {
        Some(sv) => {
            lemma_lookup_opt_hit("employee_id"@, sv, s5);
        },
        None => {
            assert(s4 =~= s5);
            lemma_lookup_skip_opt("status"@, e.status, s6, "employee_id"@);
            lemma_lookup_opt_only("manager"@, e.manager, "employee_id"@);
        },
    }
    assert(spec_get_opt_str(o, "employee_id"@) == Some(e.employee_id));

    assert forall|i: int| 0 <= i < f7.len() implies (#[trigger] f7[i]).0 != "status"@ by {}
    lemma_lookup_skip(f7, s1, "status"@);
    lemma_lookup_skip_opt("ssn"@, e.ssn, s2, "status"@);
    lemma_lookup_skip_opt("phone"@, e.phone, s3, "status"@);
    lemma_lookup_skip_opt("address"@, e.address, s4, "status"@);
    lemma_lookup_skip_opt("employee_id"@, e.employee_id, s5, "status"@);
    match e.status {
        Some(sv) => {
            lemma_lookup_opt_hit("status"@, sv, s6);
        },
        None => {
            assert(s5 =~= s6);
            lemma_lookup_opt_only("manager"@, e.manager, "status"@);
        },
    }
    assert(spec_get_opt_str(o, "status"@) == Some(e.status));

    assert forall|i: int| 0 <= i < f7.len() implies (#[trigger] f7[i]).0 != "manager"@ by {}
    lemma_lookup_skip(f7, s1, "manager"@);
    lemma_lookup_skip_opt("ssn"@, e.ssn, s2, "manager"@);
    lemma_lookup_skip_opt("phone"@, e.phone, s3, "manager"@);
    lemma_lookup_skip_opt("address"@, e.address, s4, "manager"@);
    lemma_lookup_skip_opt("employee_id"@, e.employee_id, s5, "manager"@);
    lemma_lookup_skip_opt("status"@, e.status, s6, "manager"@);
    match e.manager {
        Some(sv) => {
            assert(s6 =~= opt_member("manager"@, e.manager) + Seq::<(Seq<char>, JsonV)>::empty());
            lemma_lookup_opt_hit("manager"@, sv, Seq::<(Seq<char>, JsonV)>::empty());
        },
        None => {
            assert(s6 =~= Seq::<(Seq<char>, JsonV)>::empty());
        },
    }
    assert(spec_get_opt_str(o, "manager"@) == Some(e.manager));

    assert(spec_json_to_emp(JsonV::Obj(o)) == Some(e));
}

/// A data object that carries the seven required fields but omits every
/// optional key decodes to a record with those fields not set: absence is
/// not-set, never a decode error.
pub proof fn lemma_absent_optionals_not_set(o: Seq<(Seq<char>, JsonV)>)
    requires
        spec_get_u32(o, "id"@) is Some,
        spec_get_str(o, "name"@) is Some,
        spec_get_str(o, "email"@) is Some,
        spec_get_str(o, "department"@) is Some,
        spec_get_str(o, "position"@) is Some,
        spec_get_u32(o, "salary"@) is Some,
        spec_get_str(o, "hire_date"@) is Some,
        spec_lookup(o, "ssn"@) is None,
        spec_lookup(o, "phone"@) is None,
        spec_lookup(o, "address"@) is None,
        spec_lookup(o, "employee_id"@) is None,
        spec_lookup(o, "status"@) is None,
        spec_lookup(o, "manager"@) is None,
    ensures
        spec_json_to_emp(JsonV::Obj(o)) matches Some(e) && e.ssn is None && e.phone is None
            && e.address is None && e.employee_id is None && e.status is None && e.manager
            is None,
{
}

/// Escaping a string with no quote, no backslash and no control character
/// leaves it as it is.
pub proof fn lemma_escape_plain(s: Seq<char>)
    requires
        forall|i: int| 0 <= i < s.len() ==> (#[trigger] s[i]) != '"' && s[i] != '\\' && (s[i]
            as u32) >= 0x20,
    ensures
        spec_escape(s) == s,
    decreases s.len(),
{
    if s.len() == 0 {
        assert(spec_escape(s) =~= s);
    } else {
        assert(spec_escape_char(s[0]) == seq![s[0]]);
        assert forall|i: int| 0 <= i < s.drop_first().len() implies (#[trigger] s.drop_first()[i])
            != '"' && s.drop_first()[i] != '\\' && (s.drop_first()[i] as u32) >= 0x20 by {
            assert(s.drop_first()[i] == s[i + 1]);
        }
        lemma_escape_plain(s.drop_first());
        assert(spec_escape(s) =~= s);
    }
}

/// Decoding inverts encoding on the config document: the server URL written
/// is the server URL read back, through the pretty-printed form.
pub proof fn lemma_config_round_trip(u: Seq<char>)
    ensures
        spec_decode_config(spec_encode_config(u)) == Ok::<Option<Seq<char>>, Seq<char>>(Some(u)),
{
    reveal_strlit("server_url");
    let k = "server_url"@;
    assert(k.len() == 10);
    assert forall|i: int| 0 <= i < k.len() implies (#[trigger] k[i]) != '"' && k[i] != '\\' && (
    k[i] as u32) >= 0x20 by {}
    lemma_escape_plain(k);
    let t = spec_encode_config(u);
    let pv = spec_print_value(JsonV::Str(u));
    let lit2 = seq!['\n', '}'];
    let rest2 = seq![':', ' '] + (pv + lit2);
    let r1 = seq!['"'] + (spec_escape(k) + (seq!['"'] + rest2));

    // the parser sees the opening brace at once
    assert(t[0] == '{' && !is_ws('{'));
    assert(spec_skip_ws(t) == t);

    // after the brace, the indentation is skipped down to the key's quote
    let a0 = t.drop_first();
    let a1 = seq![' ', ' '] + r1;
    let a2 = seq![' '] + r1;
    assert(a0 =~= seq!['\n'] + a1);
    assert(a0[0] == '\n' && is_ws('\n'));
    assert(a0.drop_first() =~= a1);
    assert(a1[0] == ' ' && is_ws(' '));
    assert(a1.drop_first() =~= a2);
    assert(a2[0] == ' ' && is_ws(' '));
    assert(a2.drop_first() =~= r1);
    assert(r1[0] == '"' && !is_ws('"'));
    assert(spec_skip_ws(r1) == r1);
    assert(spec_skip_ws(a2) == r1);
    assert(spec_skip_ws(a1) == r1);
    assert(spec_skip_ws(a0) == r1);
    assert(r1.len() < t.len());
    assert(r1[0] != '}');

    // the key reads back, the colon and one space are passed
    assert(r1.drop_first() =~= spec_escape(k) + seq!['"'] + rest2);
    lemma_parse_escaped(k, rest2);
    assert(rest2.len() < r1.len());
    assert(rest2[0] == ':' && !is_ws(':'));
    assert(spec_skip_ws(rest2) == rest2);
    assert(rest2.drop_first() =~= seq![' '] + (pv + lit2));
    assert((pv + lit2)[0] == pv[0]);
    assert(pv[0] == '"' && !is_ws('"'));
    assert(spec_skip_ws(pv + lit2) == pv + lit2);
    assert((seq![' '] + (pv + lit2))[0] == ' ');
    assert((seq![' '] + (pv + lit2)).drop_first() =~= pv + lit2);
    assert(spec_skip_ws(seq![' '] + (pv + lit2)) == spec_skip_ws(pv + lit2));
    assert(spec_skip_ws(rest2.drop_first()) == pv + lit2);
    assert((pv + lit2).len() < rest2.len());

    // the value reads back; the trailing newline is skipped to the brace
    assert(lit2[0] == '\n' && !is_digit('\n'));
    lemma_parse_scalar(JsonV::Str(u), lit2);
    assert(lit2.drop_first() =~= seq!['}']);
    assert(!is_ws('}'));
    assert(spec_skip_ws(seq!['}']) == seq!['}']);
    assert(spec_skip_ws(lit2) == seq!['}']);
    assert(seq!['}'].len() <= lit2.len());
    assert(seq!['}'][0] == '}');
    assert(seq!['}'].drop_first() =~= Seq::<char>::empty());
    assert(spec_parse_members(r1) == Some(
        (seq![(k, JsonV::Str(u))], Seq::<char>::empty()),
    ));
    assert(spec_skip_ws(Seq::<char>::empty()).len() == 0);
    assert(spec_parse_json(t) == Some(JsonV::Obj(seq![(k, JsonV::Str(u))])));
    assert(spec_lookup(seq![(k, JsonV::Str(u))], k) == Some(JsonV::Str(u)));
}

} // verus!

//! A small JSON document model with a verified printer and parser.
//!
//! The printer emits canonical text: no added whitespace, object members in
//! the order given, strings escaped with `\"`, `\\` and `\u00XX` for control
//! characters. The parser accepts that form and common server output: optional
//! whitespace between tokens, the short escapes, raw text, and `\uXXXX`
//! escapes for every code point that is not a surrogate (surrogate pairs are
//! not paired up). Numbers are unsigned integers that fit in `u64` — the only
//! number shape the protocol's wire model carries, whose numeric fields are
//! all `u32` — and anything else is a parse failure, never a panic.

use vstd::prelude::*;
use crate::numerals::{is_digit, digit_char, digit_val, spec_dec_digits, spec_digits_val};
use crate::numerals::u64_to_chars;
use crate::chars::chars_to_string;

verus! {

broadcast use vstd::seq::group_seq_axioms, vstd::std_specs::vec::group_vec_axioms;

/// The mathematical model of a JSON document.
pub enum JsonV {
    Null,
    Bool(bool),
    Num(nat),
    Str(Seq<char>),
    Arr(Seq<JsonV>),
    Obj(Seq<(Seq<char>, JsonV)>),
}

/// An executable JSON document.
pub enum Json {
    Null,
    Bool(bool),
    Num(u64),
    Str(String),
    Arr(Vec<Json>),
    Obj(Vec<(String, Json)>),
}

impl Json {
    /// The model of this document.
    pub open spec fn v(self) -> JsonV
        decreases self,
    {
        match self {
            Json::Null => JsonV::Null,
            Json::Bool(b) => JsonV::Bool(b),
            Json::Num(n) => JsonV::Num(n as nat),
            Json::Str(s) => JsonV::Str(s@),
            Json::Arr(a) => JsonV::Arr(arr_v(a@)),
            Json::Obj(o) => JsonV::Obj(obj_v(o@)),
        }
    }
}

/// The models of the items of an array.
pub open spec fn arr_v(a: Seq<Json>) -> Seq<JsonV>
    decreases a,
{
    Seq::new(a.len(), |i: int| if 0 <= i < a.len() { a[i].v() } else { JsonV::Null })
}

/// The models of the members of an object.
pub open spec fn obj_v(o: Seq<(String, Json)>) -> Seq<(Seq<char>, JsonV)>
    decreases o,
{
    Seq::new(
        o.len(),
        |i: int| if 0 <= i < o.len() { (o[i].0@, o[i].1.v()) } else { (Seq::empty(), JsonV::Null) },
    )
}

/// True of the four JSON whitespace characters.
pub open spec fn is_ws(c: char) -> bool {
    c == ' ' || c == '\t' || c == '\n' || c == '\r'
}

/// The lower-case hexadecimal digit for a value below sixteen.
pub open spec fn hex_char(d: nat) -> char {
    if d < 10 {
        digit_char(d)
    } else {
        ((0x61 + (d - 10)) as u8) as char
    }
}

/// True of the characters accepted as hexadecimal digits.
pub open spec fn is_hex(c: char) -> bool {
    is_digit(c) || ('a' <= c && c <= 'f') || ('A' <= c && c <= 'F')
}

/// The numeric value of a hexadecimal digit character.
pub open spec fn hex_val(c: char) -> nat {
    if is_digit(c) {
        digit_val(c)
    } else if 'a' <= c && c <= 'f' {
        ((c as u32) - 0x61 + 10) as nat
    } else {
        ((c as u32) - 0x41 + 10) as nat
    }
}

/// How one character appears inside a printed JSON string.
pub open spec fn spec_escape_char(c: char) -> Seq<char> {
    if c == '"' {
        seq!['\\', '"']
    } else if c == '\\' {
        seq!['\\', '\\']
    } else if (c as u32) < 0x20 {
        seq!['\\', 'u', '0', '0', hex_char(((c as u32) / 16) as nat), hex_char(((c as u32) % 16) as nat)]
    } else {
        seq![c]
    }
}

/// The escaped body of a printed JSON string.
pub open spec fn spec_escape(s: Seq<char>) -> Seq<char>
    decreases s.len(),
{
    if s.len() == 0 {
        Seq::empty()
    } else {
        spec_escape_char(s[0]) + spec_escape(s.drop_first())
    }
}

/// Escaping distributes over concatenation.
pub proof fn lemma_escape_append(a: Seq<char>, b: Seq<char>)
    ensures
        spec_escape(a + b) == spec_escape(a) + spec_escape(b),
    decreases a.len(),
{
    if a.len() == 0 {
        assert(a + b =~= b);
        assert(spec_escape(a) =~= Seq::<char>::empty());
        assert(spec_escape(a) + spec_escape(b) =~= spec_escape(b));
    } else {
        assert((a + b).drop_first() =~= a.drop_first() + b);
        lemma_escape_append(a.drop_first(), b);
        assert(spec_escape(a + b) =~= spec_escape(a) + spec_escape(b));
    }
}

/// The canonical printed form of a JSON document.
pub open spec fn spec_print_value(j: JsonV) -> Seq<char>
    decreases j, 0int,
{
    match j {
        JsonV::Null => seq!['n', 'u', 'l', 'l'],
        JsonV::Bool(b) => if b {
            seq!['t', 'r', 'u', 'e']
        } else {
            seq!['f', 'a', 'l', 's', 'e']
        },
        JsonV::Num(n) => spec_dec_digits(n),
        JsonV::Str(s) => seq!['"'] + spec_escape(s) + seq!['"'],
        JsonV::Arr(a) => if a.len() == 0 {
            seq!['[', ']']
        } else {
            seq!['['] + spec_print_items(a, 0) + seq![']']
        },
        JsonV::Obj(o) => if o.len() == 0 {
            seq!['{', '}']
        } else {
            seq!['{'] + spec_print_members(o, 0) + seq!['}']
        },
    }
}

/// The printed items of a nonempty array, from index `i` on, comma separated.
pub open spec fn spec_print_items(a: Seq<JsonV>, i: int) -> Seq<char>
    decreases a, a.len() - i,
{
    if i < 0 || i >= a.len() {
        Seq::empty()
    } else if i == a.len() - 1 {
        spec_print_value(a[i])
    } else {
        spec_print_value(a[i]) + seq![','] + spec_print_items(a, i + 1)
    }
}

/// The printed members of a nonempty object, from index `i` on.
pub open spec fn spec_print_members(o: Seq<(Seq<char>, JsonV)>, i: int) -> Seq<char>
    decreases o, o.len() - i,
{
    if i < 0 || i >= o.len() {
        Seq::empty()
    } else {
        let m = seq!['"'] + spec_escape(o[i].0) + seq!['"', ':'] + spec_print_value(o[i].1);
        if i == o.len() - 1 {
            m
        } else {
            m + seq![','] + spec_print_members(o, i + 1)
        }
    }
}

/// The hexadecimal digit character, as executable code.
pub fn hex_char_exec(d: u32) -> (c: char)
    requires
        d < 16,
    ensures
        c == hex_char(d as nat),
{
    if d < 10 {
        ((0x30 + d) as u8) as char
    } else {
        ((0x61 + (d - 10)) as u8) as char
    }
}

/// Appends the escaped form of one character.
pub fn push_escaped_char(out: &mut Vec<char>, c: char)
    ensures
        final(out)@ == old(out)@ + spec_escape_char(c),
{
    if c == '"' {
        out.push('\\');
        out.push('"');
    } else if c == '\\' {
        out.push('\\');
        out.push('\\');
    } else if (c as u32) < 0x20 {
        out.push('\\');
        out.push('u');
        out.push('0');
        out.push('0');
        out.push(hex_char_exec((c as u32) / 16));
        out.push(hex_char_exec((c as u32) % 16));
    } else {
        out.push(c);
    }
    proof {
        assert(out@ =~= old(out)@ + spec_escape_char(c));
    }
}

/// Appends the escaped body of a string.
pub fn push_escaped(out: &mut Vec<char>, s: &str)
    ensures
        final(out)@ == old(out)@ + spec_escape(s@),
{
    let n = s.unicode_len();
    let mut i: usize = 0;
    proof {
        assert(s@.subrange(0, 0int) =~= Seq::<char>::empty());
        assert(out@ =~= old(out)@ + spec_escape(s@.subrange(0, 0int)));
    }
    while i < n
        invariant
            i <= n,
            n == s@.len(),
            out@ == old(out)@ + spec_escape(s@.subrange(0, i as int)),
        decreases n - i,
    {
        let c = s.get_char(i);
        push_escaped_char(out, c);
        proof {
            let pre = s@.subrange(0, i as int);
            assert(s@.subrange(0, i + 1int) =~= pre + seq![c]);
            lemma_escape_append(pre, seq![c]);
            assert(seq![c].len() == 1 && seq![c][0] == c);
            assert(seq![c].drop_first() =~= Seq::<char>::empty());
            assert(spec_escape(Seq::<char>::empty()) =~= Seq::<char>::empty());
            assert(spec_escape(seq![c]) =~= spec_escape_char(c) + spec_escape(seq![c].drop_first()));
            assert(spec_escape(seq![c]) =~= spec_escape_char(c));
            assert(out@ =~= old(out)@ + spec_escape(s@.subrange(0, i + 1int)));
        }
        i = i + 1;
    }
    proof {
        assert(s@.subrange(0, n as int) =~= s@);
    }
}

/// Appends the contents of a character vector.
pub fn push_all(out: &mut Vec<char>, v: &Vec<char>)
    ensures
        final(out)@ == old(out)@ + v@,
{
    let mut i: usize = 0;
    while i < v.len()
        invariant
            i <= v@.len(),
            out@ == old(out)@ + v@.subrange(0, i as int),
        decreases v@.len() - i,
    {
        out.push(v[i]);
        i = i + 1;
        proof {
            assert(out@ =~= old(out)@ + v@.subrange(0, i as int));
        }
    }
    proof {
        assert(out@ =~= old(out)@ + v@);
    }
}

/// Appends the canonical printed form of a document, matching
/// `spec_print_value`.
pub fn print_value(j: &Json, out: &mut Vec<char>)
    ensures
        final(out)@ == old(out)@ + spec_print_value(j.v()),
    decreases j, 0int,
{
    match j {
        Json::Null => {
            out.push('n');
            out.push('u');
            out.push('l');
            out.push('l');
            proof {
                assert(out@ =~= old(out)@ + spec_print_value(j.v()));
            }
        },
        Json::Bool(b) => {
            if *b {
                out.push('t');
                out.push('r');
                out.push('u');
                out.push('e');
            } else {
                out.push('f');
                out.push('a');
                out.push('l');
                out.push('s');
                out.push('e');
            }
            proof {
                assert(out@ =~= old(out)@ + spec_print_value(j.v()));
            }
        },
        Json::Num(n) => {
            let d = u64_to_chars(*n);
            push_all(out, &d);
        },
        Json::Str(s) => {
            out.push('"');
            push_escaped(out, s.as_str());
            out.push('"');
            proof {
                assert(out@ =~= old(out)@ + spec_print_value(j.v()));
            }
        },
        Json::Arr(a) => {
            out.push('[');
            if a.len() > 0 {
                print_items(a, 0, out);
            }
            out.push(']');
            proof {
                assert(out@ =~= old(out)@ + spec_print_value(j.v()));
            }
        },
        Json::Obj(o) => {
            out.push('{');
            if o.len() > 0 {
                print_members(o, 0, out);
            }
            out.push('}');
            proof {
                assert(out@ =~= old(out)@ + spec_print_value(j.v()));
            }
        },
    }
}

/// Appends the printed items of a nonempty array, from index `i` on.
pub fn print_items(a: &Vec<Json>, i: usize, out: &mut Vec<char>)
    requires
        i < a@.len(),
    ensures
        final(out)@ == old(out)@ + spec_print_items(arr_v(a@), i as int),
    decreases a, a@.len() - i,
{
    let n = a.len();
    print_value(&a[i], out);
    proof {
        assert(arr_v(a@)[i as int] == a@[i as int].v());
    }
    if i + 1 < n {
        out.push(',');
        print_items(a, i + 1, out);
        proof {
            assert(out@ =~= old(out)@ + spec_print_items(arr_v(a@), i as int));
        }
    } else {
        proof {
            assert(out@ =~= old(out)@ + spec_print_items(arr_v(a@), i as int));
        }
    }
}

/// Appends the printed members of a nonempty object, from index `i` on.
pub fn print_members(o: &Vec<(String, Json)>, i: usize, out: &mut Vec<char>)
    requires
        i < o@.len(),
    ensures
        final(out)@ == old(out)@ + spec_print_members(obj_v(o@), i as int),
    decreases o, o@.len() - i,
{
    let n = o.len();
    out.push('"');
    push_escaped(out, o[i].0.as_str());
    out.push('"');
    out.push(':');
    print_value(&o[i].1, out);
    proof {
        assert(obj_v(o@)[i as int] == (o@[i as int].0@, o@[i as int].1.v()));
    }
    if i + 1 < n {
        out.push(',');
        print_members(o, i + 1, out);
        proof {
            assert(out@ =~= old(out)@ + spec_print_members(obj_v(o@), i as int));
        }
    } else {
        proof {
            assert(out@ =~= old(out)@ + spec_print_members(obj_v(o@), i as int));
        }
    }
}

/// The suffix of a sequence from index `i` on.
pub open spec fn suffix(s: Seq<char>, i: int) -> Seq<char> {
    s.subrange(i, s.len() as int)
}

/// Drops leading JSON whitespace.
pub open spec fn spec_skip_ws(s: Seq<char>) -> Seq<char>
    decreases s.len(),
{
    if s.len() > 0 && is_ws(s[0]) {
        spec_skip_ws(s.drop_first())
    } else {
        s
    }
}

/// The character denoted by a short escape, if the escape is accepted.
pub open spec fn spec_short_escape(c: char) -> Option<char> {
    if c == '"' {
        Some('"')
    } else if c == '\\' {
        Some('\\')
    } else if c == '/' {
        Some('/')
    } else if c == 'n' {
        Some('\n')
    } else if c == 't' {
        Some('\t')
    } else if c == 'r' {
        Some('\r')
    } else if c == 'b' {
        Some('\u{0008}')
    } else if c == 'f' {
        Some('\u{000c}')
    } else {
        None
    }
}

/// Reads a string body after its opening quote: the decoded characters and
/// the text after the closing quote. Raw control characters, unknown escapes,
/// truncated input and `\u` escapes at or above `U+0100` are failures.
pub open spec fn spec_parse_string_rest(s: Seq<char>) -> Option<(Seq<char>, Seq<char>)>
    decreases s.len(),
{
    if s.len() == 0 {
        None
    } else if s[0] == '"' {
        Some((Seq::empty(), s.drop_first()))
    } else if s[0] == '\\' {
        if s.len() < 2 {
            None
        } else if s[1] == 'u' {
            if s.len() >= 6 && is_hex(s[2]) && is_hex(s[3]) && is_hex(s[4]) && is_hex(s[5]) {
                let code = ((hex_val(s[2]) * 16 + hex_val(s[3])) * 16 + hex_val(s[4])) * 16 + hex_val(s[5]);
                if code < 0xd800 || 0xe000 <= code {
                    match spec_parse_string_rest(s.subrange(6, s.len() as int)) {
                        Some((t, r)) => Some((seq![(code as u32) as char] + t, r)),
                        None => None,
                    }
                } else {
                    None
                }
            } else {
                None
            }
        } else {
            match spec_short_escape(s[1]) {
                Some(d) => match spec_parse_string_rest(s.subrange(2, s.len() as int)) {
                    Some((t, r)) => Some((seq![d] + t, r)),
                    None => None,
                },
                None => None,
            }
        }
    } else if (s[0] as u32) < 0x20 {
        None
    } else {
        match spec_parse_string_rest(s.drop_first()) {
            Some((t, r)) => Some((seq![s[0]] + t, r)),
            None => None,
        }
    }
}

/// The length of the leading run of digits.
pub open spec fn spec_digits_len(s: Seq<char>) -> int
    decreases s.len(),
{
    if s.len() > 0 && is_digit(s[0]) {
        1 + spec_digits_len(s.drop_first())
    } else {
        0
    }
}

/// Reads one JSON value from the front of `s` (no leading whitespace) and
/// yields it with the unread remainder. Failures are `None`: never a panic.
pub open spec fn spec_parse_value(s: Seq<char>) -> Option<(JsonV, Seq<char>)>
    decreases s.len(), 1int,
{
    if s.len() == 0 {
        None
    } else {
        let c = s[0];
        if c == 'n' {
            if s.len() >= 4 && s[1] == 'u' && s[2] == 'l' && s[3] == 'l' {
                Some((JsonV::Null, s.subrange(4, s.len() as int)))
            } else {
                None
            }
        } else if c == 't' {
            if s.len() >= 4 && s[1] == 'r' && s[2] == 'u' && s[3] == 'e' {
                Some((JsonV::Bool(true), s.subrange(4, s.len() as int)))
            } else {
                None
            }
        } else if c == 'f' {
            if s.len() >= 5 && s[1] == 'a' && s[2] == 'l' && s[3] == 's' && s[4] == 'e' {
                Some((JsonV::Bool(false), s.subrange(5, s.len() as int)))
            } else {
                None
            }
        } else if c == '"' {
            match spec_parse_string_rest(s.drop_first()) {
                Some((t, r)) => Some((JsonV::Str(t), r)),
                None => None,
            }
        } else if is_digit(c) {
            let k = spec_digits_len(s);
            let value = spec_digits_val(s.subrange(0, k));
            if value <= 0xffff_ffff_ffff_ffff {
                Some((JsonV::Num(value), s.subrange(k, s.len() as int)))
            } else {
                None
            }
        } else if c == '[' {
            let r1 = spec_skip_ws(s.drop_first());
            if r1.len() >= s.len() {
                None
            } else if r1.len() > 0 && r1[0] == ']' {
                Some((JsonV::Arr(Seq::empty()), r1.drop_first()))
            } else {
                match spec_parse_items(r1) {
                    Some((items, r2)) => Some((JsonV::Arr(items), r2)),
                    None => None,
                }
            }
        } else if c == '{' {
            let r1 = spec_skip_ws(s.drop_first());
            if r1.len() >= s.len() {
                None
            } else if r1.len() > 0 && r1[0] == '}' {
                Some((JsonV::Obj(Seq::empty()), r1.drop_first()))
            } else {
                match spec_parse_members(r1) {
                    Some((members, r2)) => Some((JsonV::Obj(members), r2)),
                    None => None,
                }
            }
        } else {
            None
        }
    }
}

/// Reads the items of a nonempty array, the opening bracket and leading
/// whitespace already consumed, through the closing bracket.
pub open spec fn spec_parse_items(s: Seq<char>) -> Option<(Seq<JsonV>, Seq<char>)>
    decreases s.len(), 2int,
{
    match spec_parse_value(s) {
        None => None,
        Some((val, r)) => if r.len() >= s.len() {
            None
        } else {
            let r2 = spec_skip_ws(r);
            if r2.len() > r.len() {
                None
            } else if r2.len() > 0 && r2[0] == ',' {
                let r3 = spec_skip_ws(r2.drop_first());
                if r3.len() >= s.len() {
                    None
                } else {
                    match spec_parse_items(r3) {
                        Some((items, r4)) => Some((seq![val] + items, r4)),
                        None => None,
                    }
                }
            } else if r2.len() > 0 && r2[0] == ']' {
                Some((seq![val], r2.drop_first()))
            } else {
                None
            }
        },
    }
}

/// Reads the members of a nonempty object, the opening brace and leading
/// whitespace already consumed, through the closing brace.
pub open spec fn spec_parse_members(s: Seq<char>) -> Option<(Seq<(Seq<char>, JsonV)>, Seq<char>)>
    decreases s.len(), 2int,
{
    if s.len() == 0 || s[0] != '"' {
        None
    } else {
        match spec_parse_string_rest(s.drop_first()) {
            None => None,
            Some((key, r)) => if r.len() >= s.len() {
                None
            } else {
                let r2 = spec_skip_ws(r);
                if r2.len() > r.len() {
                    None
                } else if r2.len() > 0 && r2[0] == ':' {
                    let r3 = spec_skip_ws(r2.drop_first());
                    if r3.len() >= r2.len() {
                        None
                    } else {
                        match spec_parse_value(r3) {
                            None => None,
                            Some((val, r4)) => {
                                let r5 = spec_skip_ws(r4);
                                if r5.len() > r4.len() {
                                    None
                                } else if r5.len() > 0 && r5[0] == ',' {
                                    let r6 = spec_skip_ws(r5.drop_first());
                                    if r6.len() >= s.len() {
                                        None
                                    } else {
                                        match spec_parse_members(r6) {
                                            Some((members, r7)) => Some((seq![(key, val)] + members, r7)),
                                            None => None,
                                        }
                                    }
                                } else if r5.len() > 0 && r5[0] == '}' {
                                    Some((seq![(key, val)], r5.drop_first()))
                                } else {
                                    None
                                }
                            },
                        }
                    }
                } else {
                    None
                }
            },
        }
    }
}

/// Reads a whole JSON document: one value, with whitespace allowed around it
/// and nothing else after it.
pub open spec fn spec_parse_json(t: Seq<char>) -> Option<JsonV> {
    match spec_parse_value(spec_skip_ws(t)) {
        None => None,
        Some((j, r)) => if spec_skip_ws(r).len() == 0 {
            Some(j)
        } else {
            None
        },
    }
}

/// A digit run at least `m` long gives a digit length of at least `m`.
pub proof fn lemma_digits_len_lower(s: Seq<char>, m: int)
    requires
        0 <= m <= s.len(),
        forall|t: int| 0 <= t < m ==> is_digit(#[trigger] s[t]),
    ensures
        spec_digits_len(s) >= m,
    decreases m,
{
    lemma_digits_len_ub(s);
    if m > 0 {
        assert(is_digit(s[0]));
        assert forall|t: int| 0 <= t < m - 1 implies is_digit(#[trigger] s.drop_first()[t]) by {
            assert(s.drop_first()[t] == s[t + 1]);
        }
        lemma_digits_len_lower(s.drop_first(), m - 1);
    }
}

/// A digit run that ends at `k` (end of input or a non-digit) has digit
/// length exactly `k`.
pub proof fn lemma_digits_len_char(s: Seq<char>, k: int)
    requires
        0 <= k <= s.len(),
        forall|t: int| 0 <= t < k ==> is_digit(#[trigger] s[t]),
        k == s.len() || !is_digit(s[k]),
    ensures
        spec_digits_len(s) == k,
    decreases k,
{
    if k == 0 {
        if s.len() > 0 {
            assert(!is_digit(s[0]));
        }
    } else {
        assert(is_digit(s[0]));
        assert forall|t: int| 0 <= t < k - 1 implies is_digit(#[trigger] s.drop_first()[t]) by {
            assert(s.drop_first()[t] == s[t + 1]);
        }
        lemma_digits_len_char(s.drop_first(), k - 1);
    }
}

/// Reading a longer digit prefix never shrinks the value.
pub proof fn lemma_digits_val_mono(s: Seq<char>, m1: int, m2: int)
    requires
        0 <= m1 <= m2 <= s.len(),
    ensures
        spec_digits_val(s.subrange(0, m1)) <= spec_digits_val(s.subrange(0, m2)),
    decreases m2 - m1,
{
    if m1 < m2 {
        lemma_digits_val_mono(s, m1, m2 - 1);
        assert(s.subrange(0, m2).drop_last() =~= s.subrange(0, m2 - 1));
        let p = spec_digits_val(s.subrange(0, m2 - 1));
        assert(spec_digits_val(s.subrange(0, m2)) == p * 10 + digit_val(s.subrange(0, m2).last()));
        assert(p * 10 >= p);
    }
}

/// Whitespace test, as executable code.
pub fn is_ws_exec(c: char) -> (r: bool)
    ensures
        r == is_ws(c),
{
    c == ' ' || c == '\t' || c == '\n' || c == '\r'
}

/// Digit test, as executable code.
pub fn is_digit_exec(c: char) -> (r: bool)
    ensures
        r == is_digit(c),
{
    let u = c as u32;
    0x30 <= u && u <= 0x39
}

/// Hexadecimal digit test, as executable code.
pub fn is_hex_exec(c: char) -> (r: bool)
    ensures
        r == is_hex(c),
{
    let u = c as u32;
    (0x30 <= u && u <= 0x39) || (0x61 <= u && u <= 0x66) || (0x41 <= u && u <= 0x46)
}

/// The value of a digit character, as executable code.
pub fn digit_val_exec(c: char) -> (r: u32)
    requires
        is_digit(c),
    ensures
        r == digit_val(c),
        r < 10,
{
    (c as u32) - 0x30
}

/// The value of a hexadecimal digit character, as executable code.
pub fn hex_val_exec(c: char) -> (r: u32)
    requires
        is_hex(c),
    ensures
        r == hex_val(c),
        r < 16,
{
    let u = c as u32;
    if 0x30 <= u && u <= 0x39 {
        u - 0x30
    } else if 0x61 <= u && u <= 0x66 {
        u - 0x61 + 10
    } else {
        u - 0x41 + 10
    }
}

/// The character denoted by a short escape, as executable code.
pub fn short_escape_exec(c: char) -> (r: Option<char>)
    ensures
        r == spec_short_escape(c),
{
    if c == '"' {
        Some('"')
    } else if c == '\\' {
        Some('\\')
    } else if c == '/' {
        Some('/')
    } else if c == 'n' {
        Some('\n')
    } else if c == 't' {
        Some('\t')
    } else if c == 'r' {
        Some('\r')
    } else if c == 'b' {
        Some('\u{0008}')
    } else if c == 'f' {
        Some('\u{000c}')
    } else {
        None
    }
}

/// Advances past JSON whitespace, matching `spec_skip_ws`.
pub fn skip_ws(v: &Vec<char>, i: usize) -> (r: usize)
    requires
        i <= v@.len(),
    ensures
        i <= r <= v@.len(),
        spec_skip_ws(suffix(v@, i as int)) == suffix(v@, r as int),
    decreases v@.len() - i,
{
    if i < v.len() {
        if is_ws_exec(v[i]) {
            proof {
                assert(suffix(v@, i as int).drop_first() =~= suffix(v@, i + 1int));
            }
            return skip_ws(v, i + 1);
        }
    }
    i
}

/// Reads a string body after its opening quote, matching
/// `spec_parse_string_rest`.
pub fn parse_string_rest(v: &Vec<char>, i: usize) -> (r: Option<(Vec<char>, usize)>)
    requires
        i <= v@.len(),
    ensures
        ({
            let s = suffix(v@, i as int);
            match r {
                Some((t, k)) => i < k <= v@.len() && spec_parse_string_rest(s) == Some(
                    (t@, suffix(v@, k as int)),
                ),
                None => spec_parse_string_rest(s) is None,
            }
        }),
    decreases v@.len() - i,
{
    let n = v.len();
    if i >= n {
        return None;
    }
    let c = v[i];
    if c == '"' {
        proof {
            assert(suffix(v@, i as int).drop_first() =~= suffix(v@, i + 1int));
        }
        let t: Vec<char> = Vec::new();
        proof {
            assert(t@ =~= Seq::<char>::empty());
        }
        return Some((t, i + 1));
    }
    if c == '\\' {
        if i + 1 >= n {
            return None;
        }
        let e = v[i + 1];
        if e == 'u' {
            if n - i < 6 {
                return None;
            }
            let h2 = v[i + 2];
            let h3 = v[i + 3];
            let h4 = v[i + 4];
            let h5 = v[i + 5];
            if !(is_hex_exec(h2) && is_hex_exec(h3) && is_hex_exec(h4) && is_hex_exec(h5)) {
                return None;
            }
            let code: u32 = ((hex_val_exec(h2) * 16 + hex_val_exec(h3)) * 16 + hex_val_exec(h4)) * 16
                + hex_val_exec(h5);
            if !(code < 0xd800 || 0xe000 <= code) {
                return None;
            }
            let dc: char = match crate::chars::char_from_u32(code) {
                Some(c) => c,
                None => ' ',
            };
            proof {
                vstd::utf8::char_u32_cast(dc, code);
            }
            proof {
                let s = suffix(v@, i as int);
                assert(s.subrange(6, s.len() as int) =~= suffix(v@, i + 6int));
            }
            match parse_string_rest(v, i + 6) {
                Some((t, k)) => {
                    let ghost t0 = t@;
                    let mut t2 = t;
                    t2.insert(0, dc);
                    proof {
                        assert(t2@ =~= seq![dc] + t0);
                    }
                    Some((t2, k))
                },
                None => None,
            }
        } else {
            match short_escape_exec(e) {
                Some(d) => {
                    proof {
                        let s = suffix(v@, i as int);
                        assert(s.subrange(2, s.len() as int) =~= suffix(v@, i + 2int));
                    }
                    match parse_string_rest(v, i + 2) {
                        Some((t, k)) => {
                            let ghost t0 = t@;
                            let mut t2 = t;
                            t2.insert(0, d);
                            proof {
                                assert(t2@ =~= seq![d] + t0);
                            }
                            Some((t2, k))
                        },
                        None => None,
                    }
                },
                None => None,
            }
        }
    } else if (c as u32) < 0x20 {
        None
    } else {
        proof {
            assert(suffix(v@, i as int).drop_first() =~= suffix(v@, i + 1int));
        }
        match parse_string_rest(v, i + 1) {
            Some((t, k)) => {
                let ghost t0 = t@;
                let mut t2 = t;
                t2.insert(0, c);
                proof {
                    assert(t2@ =~= seq![c] + t0);
                }
                Some((t2, k))
            },
            None => None,
        }
    }
}

/// Reads one JSON value, matching `spec_parse_value`.
#[verifier::rlimit(60)]
pub fn parse_value(v: &Vec<char>, i: usize) -> (r: Option<(Json, usize)>)
    requires
        i <= v@.len(),
    ensures
        ({
            let s = suffix(v@, i as int);
            match r {
                Some((j, k)) => i < k <= v@.len() && spec_parse_value(s) == Some(
                    (j.v(), suffix(v@, k as int)),
                ),
                None => spec_parse_value(s) is None,
            }
        }),
    decreases v@.len() - i, 1int,
{
    let n = v.len();
    if i >= n {
        return None;
    }
    let c = v[i];
    if c == 'n' {
        if n - i >= 4 && v[i + 1] == 'u' && v[i + 2] == 'l' && v[i + 3] == 'l' {
            proof {
                let s = suffix(v@, i as int);
                assert(s.subrange(4, s.len() as int) =~= suffix(v@, i + 4int));
            }
            Some((Json::Null, i + 4))
        } else {
            None
        }
    } else if c == 't' {
        if n - i >= 4 && v[i + 1] == 'r' && v[i + 2] == 'u' && v[i + 3] == 'e' {
            proof {
                let s = suffix(v@, i as int);
                assert(s.subrange(4, s.len() as int) =~= suffix(v@, i + 4int));
            }
            Some((Json::Bool(true), i + 4))
        } else {
            None
        }
    } else if c == 'f' {
        if n - i >= 5 && v[i + 1] == 'a' && v[i + 2] == 'l' && v[i + 3] == 's' && v[i + 4] == 'e' {
            proof {
                let s = suffix(v@, i as int);
                assert(s.subrange(5, s.len() as int) =~= suffix(v@, i + 5int));
            }
            Some((Json::Bool(false), i + 5))
        } else {
            None
        }
    } else if c == '"' {
        proof {
            assert(suffix(v@, i as int).drop_first() =~= suffix(v@, i + 1int));
        }
        match parse_string_rest(v, i + 1) {
            Some((t, k)) => Some((Json::Str(chars_to_string(&t)), k)),
            None => None,
        }
    } else if is_digit_exec(c) {
        parse_number(v, i)
    } else if c == '[' {
        proof {
            assert(suffix(v@, i as int).drop_first() =~= suffix(v@, i + 1int));
        }
        let k = skip_ws(v, i + 1);
        if k < n {
            if v[k] == ']' {
                proof {
                    assert(suffix(v@, k as int).drop_first() =~= suffix(v@, k + 1int));
                    assert(arr_v(Seq::<Json>::empty()) =~= Seq::<JsonV>::empty());
                }
                let items: Vec<Json> = Vec::new();
                return Some((Json::Arr(items), k + 1));
            }
        }
        match parse_items(v, k) {
            Some((items, k2)) => Some((Json::Arr(items), k2)),
            None => None,
        }
    } else if c == '{' {
        proof {
            assert(suffix(v@, i as int).drop_first() =~= suffix(v@, i + 1int));
        }
        let k = skip_ws(v, i + 1);
        if k < n {
            if v[k] == '}' {
                proof {
                    assert(suffix(v@, k as int).drop_first() =~= suffix(v@, k + 1int));
                    assert(obj_v(Seq::<(String, Json)>::empty()) =~= Seq::<(Seq<char>, JsonV)>::empty());
                }
                let members: Vec<(String, Json)> = Vec::new();
                return Some((Json::Obj(members), k + 1));
            }
        }
        match parse_members(v, k) {
            Some((members, k2)) => Some((Json::Obj(members), k2)),
            None => None,
        }
    } else {
        None
    }
}

/// Reads a leading digit run as a number, matching the digit branch of
/// `spec_parse_value`.
fn parse_number(v: &Vec<char>, i: usize) -> (r: Option<(Json, usize)>)
    requires
        i < v@.len(),
        is_digit(v@[i as int]),
    ensures
        ({
            let s = suffix(v@, i as int);
            match r {
                Some((j, k)) => i < k <= v@.len() && spec_parse_value(s) == Some(
                    (j.v(), suffix(v@, k as int)),
                ),
                None => spec_parse_value(s) is None,
            }
        }),
{
    let ghost s = suffix(v@, i as int);
    let n = v.len();
    let mut j: usize = i;
    let mut val: u64 = 0;
    proof {
        assert(v@.subrange(i as int, i as int) =~= Seq::<char>::empty());
    }
    while j < n && is_digit_exec(v[j])
        invariant
            i <= j <= n,
            n == v@.len(),
            i < n,
            is_digit(v@[i as int]),
            s == suffix(v@, i as int),
            forall|t: int| i <= t < j ==> is_digit(#[trigger] v@[t]),
            val == spec_digits_val(v@.subrange(i as int, j as int)),
        decreases n - j,
    {
        let d = digit_val_exec(v[j]) as u64;
        if val > 1844674407370955161u64 || (val == 1844674407370955161u64 && d > 5) {
            proof {
                assert(v@.subrange(i as int, j + 1int).drop_last() =~= v@.subrange(
                    i as int,
                    j as int,
                ));
                assert(v@.subrange(i as int, j + 1int).last() == v@[j as int]);
                let w = spec_digits_val(v@.subrange(i as int, j + 1int));
                assert(w == val * 10 + d);
                assert(w > 0xffff_ffff_ffff_ffff);
                assert(forall|t: int| 0 <= t < s.len() ==> #[trigger] s[t] == v@[i + t]);
                assert(forall|t: int| 0 <= t < j + 1 - i ==> is_digit(#[trigger] s[t]));
                lemma_digits_len_lower(s, j + 1 - i);
                let k = spec_digits_len(s);
                lemma_digits_len_ub(s);
                lemma_digits_val_mono(s, j + 1 - i, k);
                assert(s.subrange(0, j + 1 - i) =~= v@.subrange(i as int, j + 1int));
                assert(spec_digits_val(s.subrange(0, k)) >= w);
            }
            return None;
        }
        val = val * 10 + d;
        proof {
            assert(v@.subrange(i as int, j + 1int).drop_last() =~= v@.subrange(i as int, j as int));
            assert(v@.subrange(i as int, j + 1int).last() == v@[j as int]);
        }
        j = j + 1;
    }
    proof {
        assert(forall|t: int| 0 <= t < s.len() ==> #[trigger] s[t] == v@[i + t]);
        assert(forall|t: int| 0 <= t < j - i ==> is_digit(#[trigger] s[t]));
        lemma_digits_len_char(s, j - i);
        assert(s.subrange(0, j - i) =~= v@.subrange(i as int, j as int));
        assert(s.subrange(j - i, s.len() as int) =~= suffix(v@, j as int));
        assert(Json::Num(val).v() == JsonV::Num(val as nat));
    }
    Some((Json::Num(val), j))
}

/// The digit length never passes the end of the input.
pub proof fn lemma_digits_len_ub(s: Seq<char>)
    ensures
        0 <= spec_digits_len(s) <= s.len(),
    decreases s.len(),
{
    if s.len() > 0 && is_digit(s[0]) {
        lemma_digits_len_ub(s.drop_first());
    }
}

/// Reads the items of a nonempty array, matching `spec_parse_items`.
pub fn parse_items(v: &Vec<char>, i: usize) -> (r: Option<(Vec<Json>, usize)>)
    requires
        i <= v@.len(),
    ensures
        ({
            let s = suffix(v@, i as int);
            match r {
                Some((items, k)) => i < k <= v@.len() && spec_parse_items(s) == Some(
                    (arr_v(items@), suffix(v@, k as int)),
                ),
                None => spec_parse_items(s) is None,
            }
        }),
    decreases v@.len() - i, 2int,
{
    let n = v.len();
    match parse_value(v, i) {
        None => None,
        Some((val, k)) => {
            let m = skip_ws(v, k);
            if m < n && v[m] == ',' {
                proof {
                    assert(suffix(v@, m as int).drop_first() =~= suffix(v@, m + 1int));
                }
                let m2 = skip_ws(v, m + 1);
                match parse_items(v, m2) {
                    Some((items, k4)) => {
                        let ghost items0 = items@;
                        let mut items2 = items;
                        items2.insert(0, val);
                        proof {
                            assert(arr_v(items2@) =~= seq![val.v()] + arr_v(items0));
                        }
                        Some((items2, k4))
                    },
                    None => None,
                }
            } else if m < n && v[m] == ']' {
                proof {
                    assert(suffix(v@, m as int).drop_first() =~= suffix(v@, m + 1int));
                }
                let mut items: Vec<Json> = Vec::new();
                items.push(val);
                proof {
                    assert(arr_v(items@) =~= seq![val.v()]);
                }
                Some((items, m + 1))
            } else {
                None
            }
        },
    }
}

/// Reads the members of a nonempty object, matching `spec_parse_members`.
pub fn parse_members(v: &Vec<char>, i: usize) -> (r: Option<(Vec<(String, Json)>, usize)>)
    requires
        i <= v@.len(),
    ensures
        ({
            let s = suffix(v@, i as int);
            match r {
                Some((members, k)) => i < k <= v@.len() && spec_parse_members(s) == Some(
                    (obj_v(members@), suffix(v@, k as int)),
                ),
                None => spec_parse_members(s) is None,
            }
        }),
    decreases v@.len() - i, 2int,
{
    let n = v.len();
    if i >= n || v[i] != '"' {
        return None;
    }
    proof {
        assert(suffix(v@, i as int).drop_first() =~= suffix(v@, i + 1int));
    }
    match parse_string_rest(v, i + 1) {
        None => None,
        Some((kt, j)) => {
            let key = chars_to_string(&kt);
            let m = skip_ws(v, j);
            if m < n && v[m] == ':' {
                proof {
                    assert(suffix(v@, m as int).drop_first() =~= suffix(v@, m + 1int));
                }
                let p = skip_ws(v, m + 1);
                match parse_value(v, p) {
                    None => None,
                    Some((val, q)) => {
                        let m5 = skip_ws(v, q);
                        if m5 < n && v[m5] == ',' {
                            proof {
                                assert(suffix(v@, m5 as int).drop_first() =~= suffix(v@, m5 + 1int));
                            }
                            let m6 = skip_ws(v, m5 + 1);
                            match parse_members(v, m6) {
                                Some((members, k7)) => {
                                    let ghost members0 = members@;
                                    let mut members2 = members;
                                    members2.insert(0, (key, val));
                                    proof {
                                        assert(obj_v(members2@) =~= seq![(kt@, val.v())] + obj_v(
                                            members0,
                                        ));
                                    }
                                    Some((members2, k7))
                                },
                                None => None,
                            }
                        } else if m5 < n && v[m5] == '}' {
                            proof {
                                assert(suffix(v@, m5 as int).drop_first() =~= suffix(v@, m5 + 1int));
                            }
                            let mut members: Vec<(String, Json)> = Vec::new();
                            members.push((key, val));
                            proof {
                                assert(obj_v(members@) =~= seq![(kt@, val.v())]);
                            }
                            Some((members, m5 + 1))
                        } else {
                            None
                        }
                    },
                }
            } else {
                None
            }
        },
    }
}

/// Reads a whole JSON document from a string, matching `spec_parse_json`.
pub fn parse_json(s: &str) -> (r: Option<Json>)
    ensures
        match r {
            Some(j) => spec_parse_json(s@) == Some(j.v()),
            None => spec_parse_json(s@) is None,
        },
{
    let v = crate::chars::str_to_chars(s);
    proof {
        assert(suffix(v@, 0int) =~= v@);
    }
    let i = skip_ws(&v, 0);
    match parse_value(&v, i) {
        None => None,
        Some((j, k)) => {
            let e = skip_ws(&v, k);
            if e == v.len() {
                proof {
                    assert(suffix(v@, e as int).len() == 0);
                }
                Some(j)
            } else {
                None
            }
        },
    }
}

/// Prints a document as a string.
pub fn print_json(j: &Json) -> (s: String)
    ensures
        s@ == spec_print_value(j.v()),
{
    let mut out: Vec<char> = Vec::new();
    print_value(j, &mut out);
    chars_to_string(&out)
}

} // verus!

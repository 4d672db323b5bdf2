//! Decoding of form-encoded request bodies. A body must carry exactly the
//! two fields `id` and `text`, in either order; values use `+` for a
//! space and two-digit hexadecimal escapes for other reserved characters.

use crate::db::{ToDo, TodoView};
use crate::text::{all_dec_digits, dec_value, first_at, parse_usize, str_contains_char, str_eq,
    str_find_char};
use vstd::prelude::*;
use vstd::string::StrSliceExecFns;

verus! {

/// `c` is a hexadecimal digit.
pub open spec fn is_hex_digit(c: char) -> bool {
    (48 <= c as u32 <= 57) || (97 <= c as u32 <= 102) || (65 <= c as u32 <= 70)
}

/// The value of a hexadecimal digit.
pub open spec fn hex_val(c: char) -> nat {
    if 48 <= c as u32 <= 57 {
        (c as u32 - 48) as nat
    } else if 97 <= c as u32 <= 102 {
        (c as u32 - 87) as nat
    } else {
        (c as u32 - 55) as nat
    }
}

/// The decoded characters of one form-encoded token: `+` stands for a
/// space and `%` begins a two-digit hexadecimal escape of a character in
/// the ASCII range. A truncated, malformed or out-of-range escape is a
/// decode failure.
pub open spec fn form_decode(s: Seq<char>) -> Option<Seq<char>>
    decreases s.len(),
{
    if s.len() == 0 {
        Some(Seq::empty())
    } else if s[0] == '%' {
        if s.len() >= 3 && is_hex_digit(s[1]) && is_hex_digit(s[2]) && hex_val(s[1]) * 16
            + hex_val(s[2]) < 128 {
            match form_decode(s.skip(3)) {
                Some(rest) => Some(
                    seq![(((hex_val(s[1]) * 16 + hex_val(s[2])) as u8) as char)] + rest,
                ),
                None => None,
            }
        } else {
            None
        }
    } else {
        let c = if s[0] == '+' {
            ' '
        } else {
            s[0]
        };
        match form_decode(s.skip(1)) {
            Some(rest) => Some(seq![c] + rest),
            None => None,
        }
    }
}

/// The key and decoded value of one `key=value` pair, split at the first
/// `=`; a pair without `=`, or whose halves fail to decode, is rejected.
pub open spec fn spec_parse_pair(p: Seq<char>) -> Option<(Seq<char>, Seq<char>)> {
    if exists|i: int| first_at(p, '=', i) {
        let i = choose|i: int| first_at(p, '=', i);
        match (form_decode(p.subrange(0, i)), form_decode(p.subrange(i + 1, p.len() as int))) {
            (Some(k), Some(v)) => Some((k, v)),
            _ => None,
        }
    } else {
        None
    }
}

/// The record from a decoded id numeral and a decoded text.
pub open spec fn spec_make_record(id_digits: Seq<char>, text: Seq<char>) -> Option<TodoView> {
    if all_dec_digits(id_digits) && id_digits.len() > 0 && dec_value(id_digits) <= usize::MAX
        as nat {
        Some(TodoView { id: dec_value(id_digits) as usize, text })
    } else {
        None
    }
}

/// The record carried by a form body: exactly two pairs separated by one
/// `&`, keyed `id` and `text` in either order.
pub open spec fn spec_parse_form(b: Seq<char>) -> Option<TodoView> {
    if exists|i: int| first_at(b, '&', i) {
        let i = choose|i: int| first_at(b, '&', i);
        let p1 = b.subrange(0, i);
        let p2 = b.subrange(i + 1, b.len() as int);
        if p2.contains('&') {
            None
        } else {
            match (spec_parse_pair(p1), spec_parse_pair(p2)) {
                (Some((k1, v1)), Some((k2, v2))) => {
                    if k1 == "id"@ && k2 == "text"@ {
                        spec_make_record(v1, v2)
                    } else if k1 == "text"@ && k2 == "id"@ {
                        spec_make_record(v2, v1)
                    } else {
                        None
                    }
                },
                _ => None,
            }
        }
    } else {
        None
    }
}

/// Relies on String::push: it appends exactly the given character.
#[verifier::external_body]
fn push_char(s: &mut String, c: char)
    ensures
        final(s)@ == old(s)@.push(c),
{
    s.push(c);
}

fn hex_digit_value(c: char) -> (r: Option<u32>)
    ensures
        match r {
            Some(v) => is_hex_digit(c) && v as nat == hex_val(c) && v < 16,
            None => !is_hex_digit(c),
        },
{
    let code = c as u32;
    if 48 <= code && code <= 57 {
        Some(code - 48)
    } else if 97 <= code && code <= 102 {
        Some(code - 87)
    } else if 65 <= code && code <= 70 {
        Some(code - 55)
    } else {
        None
    }
}

/// The invariant of the decoding loop: what is already decoded, joined
/// with the decoding of what is left, is the decoding of the whole.
spec fn decode_state(full: Seq<char>, done: Seq<char>, i: int) -> bool {
    form_decode(full) == match form_decode(full.skip(i)) {
        Some(rest) => Some(done + rest),
        None => None::<Seq<char>>,
    }
}

/// Decodes one form-encoded token.
pub fn form_decode_str(s: &str) -> (r: Option<String>)
    ensures
        match r {
            Some(out) => form_decode(s@) == Some(out@),
            None => form_decode(s@) is None,
        },
{
    let n = s.unicode_len();
    let mut out = String::new();
    let mut i: usize = 0;
    proof {
        assert(s@.skip(0) =~= s@);
        assert(decode_state(s@, out@, 0));
    }
    while i < n
        invariant
            i <= n,
            n == s@.len(),
            decode_state(s@, out@, i as int),
        decreases n - i,
    {
        let ghost rest = s@.skip(i as int);
        proof {
            assert(rest[0] == s@[i as int]);
        }
        let c = s.get_char(i);
        if c == '%' {
            if n - i < 3 {
                return None;
            }
            let d1 = s.get_char(i + 1);
            let d2 = s.get_char(i + 2);
            proof {
                assert(rest[1] == s@[i + 1] && rest[2] == s@[i + 2]);
            }
            let v1 = match hex_digit_value(d1) {
                Some(v) => v,
                None => {
                    return None;
                },
            };
            let v2 = match hex_digit_value(d2) {
                Some(v) => v,
                None => {
                    return None;
                },
            };
            let v = v1 * 16 + v2;
            if v >= 128 {
                return None;
            }
            let ghost prev = out@;
            push_char(&mut out, (v as u8) as char);
            proof {
                assert(rest.skip(3) =~= s@.skip(i + 3));
                let ch = ((hex_val(rest[1]) * 16 + hex_val(rest[2])) as u8) as char;
                assert(out@ == prev.push(ch));
                if form_decode(s@.skip(i + 3)) is Some {
                    let r2 = form_decode(s@.skip(i + 3))->Some_0;
                    assert(form_decode(rest) == Some(seq![ch] + r2));
                    assert(prev + (seq![ch] + r2) =~= out@ + r2);
                }
            }
            i = i + 3;
        } else {
            let ch = if c == '+' {
                ' '
            } else {
                c
            };
            let ghost prev = out@;
            push_char(&mut out, ch);
            proof {
                assert(rest.skip(1) =~= s@.skip(i + 1));
                assert(rest.skip(1) =~= rest.drop_first());
                assert(out@ == prev.push(ch));
                if form_decode(s@.skip(i + 1)) is Some {
                    let r2 = form_decode(s@.skip(i + 1))->Some_0;
                    assert(form_decode(rest) == Some(seq![ch] + r2));
                    assert(prev + (seq![ch] + r2) =~= out@ + r2);
                }
            }
            i = i + 1;
        }
    }
    proof {
        assert(s@.skip(n as int) =~= Seq::<char>::empty());
        assert(form_decode(s@.skip(n as int)) == Some(Seq::<char>::empty()));
        assert(out@ + Seq::<char>::empty() =~= out@);
    }
    Some(out)
}

fn parse_pair(p: &str) -> (r: Option<(String, String)>)
    ensures
        match r {
            Some(kv) => spec_parse_pair(p@) == Some((kv.0@, kv.1@)),
            None => spec_parse_pair(p@) is None,
        },
{
    let n = p.unicode_len();
    match str_find_char(p, '=') {
        None => {
            proof {
                assert forall|i: int| !first_at(p@, '=', i) by {
                    if 0 <= i < p@.len() {
                        assert(p@[i] != '=');
                    }
                }
            }
            None
        },
        Some(i) => {
            proof {
                let w = choose|w: int| first_at(p@, '=', w);
                assert(first_at(p@, '=', i as int));
                if w < i {
                    assert(p@[w] != '=');
                    assert(false);
                } else if i < w {
                    assert(p@[i as int] != '=');
                    assert(false);
                }
            }
            let k_raw = p.substring_char(0, i);
            let v_raw = p.substring_char(i + 1, n);
            proof {
                assert(v_raw@ =~= p@.subrange(i + 1, p@.len() as int));
            }
            match form_decode_str(k_raw) {
                Some(k) => match form_decode_str(v_raw) {
                    Some(v) => Some((k, v)),
                    None => None,
                },
                None => None,
            }
        },
    }
}

fn make_record(id_digits: String, text: String) -> (r: Option<ToDo>)
    ensures
        match r {
            Some(t) => spec_make_record(id_digits@, text@) == Some(t@),
            None => spec_make_record(id_digits@, text@) is None,
        },
{
    match parse_usize(id_digits.as_str()) {
        Some(id) => Some(ToDo { id, text }),
        None => None,
    }
}

/// Decodes a form body into a record; a body whose shape is not exactly
/// the two fields `id` and `text` is rejected.
pub fn parse_todo_form(b: &str) -> (r: Option<ToDo>)
    ensures
        match r {
            Some(t) => spec_parse_form(b@) == Some(t@),
            None => spec_parse_form(b@) is None,
        },
{
    let n = b.unicode_len();
    match str_find_char(b, '&') {
        None => {
            proof {
                assert forall|i: int| !first_at(b@, '&', i) by {
                    if 0 <= i < b@.len() {
                        assert(b@[i] != '&');
                    }
                }
            }
            None
        },
        Some(i) => {
            proof {
                let w = choose|w: int| first_at(b@, '&', w);
                assert(first_at(b@, '&', i as int));
                if w < i {
                    assert(b@[w] != '&');
                    assert(false);
                } else if i < w {
                    assert(b@[i as int] != '&');
                    assert(false);
                }
            }
            let p1 = b.substring_char(0, i);
            let p2 = b.substring_char(i + 1, n);
            proof {
                assert(p2@ =~= b@.subrange(i + 1, b@.len() as int));
            }
            if str_contains_char(p2, '&') {
                return None;
            }
            match parse_pair(p1) {
                Some((k1, v1)) => match parse_pair(p2) {
                    Some((k2, v2)) => {
                        if str_eq(k1.as_str(), "id") && str_eq(k2.as_str(), "text") {
                            make_record(v1, v2)
                        } else if str_eq(k1.as_str(), "text") && str_eq(k2.as_str(), "id") {
                            make_record(v2, v1)
                        } else {
                            None
                        }
                    },
                    None => None,
                },
                None => None,
            }
        },
    }
}

} // verus!

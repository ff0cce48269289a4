//! A small JSON document model and a parser for it.
//!
//! The wire protocol and the backend speak JSON text frames, so the grammar
//! is part of this library's own logic.  Text is handled as UTF-8 bytes:
//! bytes above 0x7f are never structural in JSON, so they pass through
//! string contents untouched.  Numbers keep their source text, so no
//! floating-point value is ever formed while decoding; the few places that
//! need an integer convert the text themselves.
//!
//! The executable parser is specified exactly: it returns precisely what the
//! specification-level parser [`sp_json`] returns on the same bytes.
use vstd::prelude::*;

verus! {

broadcast use vstd::std_specs::vec::group_vec_axioms;

/// A parsed JSON value.  `Num` keeps the number's source text verbatim.
pub enum Json {
    Null,
    Bool(bool),
    Num(Vec<u8>),
    Str(Vec<u8>),
    Arr(Vec<Json>),
    Obj(Vec<(Vec<u8>, Json)>),
}

/// The mathematical shape of a JSON value.
pub enum JsonV {
    Null,
    Bool(bool),
    Num(Seq<u8>),
    Str(Seq<u8>),
    Arr(Seq<JsonV>),
    Obj(Seq<(Seq<u8>, JsonV)>),
}

impl DeepView for Json {
    type V = JsonV;

    open spec fn deep_view(&self) -> JsonV
        decreases self,
    {
        match self {
            Json::Null => JsonV::Null,
            Json::Bool(b) => JsonV::Bool(*b),
            Json::Num(t) => JsonV::Num(t@),
            Json::Str(t) => JsonV::Str(t@),
            Json::Arr(items) => JsonV::Arr(Seq::new(items@.len(), |i: int| elem_view(items@, i))),
            Json::Obj(members) => JsonV::Obj(
                Seq::new(members@.len(), |i: int| member_view(members@, i)),
            ),
        }
    }
}

/// View of one array element; a filler beyond the bounds.
pub open spec fn elem_view(s: Seq<Json>, i: int) -> JsonV
    decreases s,
{
    if 0 <= i < s.len() {
        s[i].deep_view()
    } else {
        JsonV::Null
    }
}

/// View of one object member; a filler beyond the bounds.
pub open spec fn member_view(s: Seq<(Vec<u8>, Json)>, i: int) -> (Seq<u8>, JsonV)
    decreases s,
{
    if 0 <= i < s.len() {
        (s[i].0.deep_view(), s[i].1.deep_view())
    } else {
        (Seq::empty(), JsonV::Null)
    }
}

/// The two ways of viewing a vector of parsed values agree.
pub proof fn lemma_arr_deep_view(items: Vec<Json>)
    ensures
        Json::Arr(items).deep_view() == JsonV::Arr(items.deep_view()),
{
    assert(Json::Arr(items).deep_view() matches JsonV::Arr(inner) && inner =~= items.deep_view());
}

/// The two ways of viewing a vector of object members agree.
pub proof fn lemma_obj_deep_view(members: Vec<(Vec<u8>, Json)>)
    ensures
        Json::Obj(members).deep_view() == JsonV::Obj(members.deep_view()),
{
    assert(Json::Obj(members).deep_view() matches JsonV::Obj(inner) && inner =~= members.deep_view());
}

/// First value bound to a key among an object's members, if any.
pub open spec fn olook(members: Seq<(Seq<u8>, JsonV)>, key: Seq<u8>) -> Option<JsonV>
    decreases members.len(),
{
    if members.len() == 0 {
        None
    } else if members[0].0 == key {
        Some(members[0].1)
    } else {
        olook(members.drop_first(), key)
    }
}

pub open spec fn is_ws(b: u8) -> bool {
    b == 32 || b == 9 || b == 10 || b == 13
}

/// Index of the first non-whitespace byte at or after `i`.
pub open spec fn sp_ws(s: Seq<u8>, i: int) -> int
    decreases s.len() - i,
{
    if 0 <= i < s.len() && is_ws(s[i]) {
        sp_ws(s, i + 1)
    } else {
        i
    }
}

/// Value of a hexadecimal digit, or -1.
pub open spec fn hex_val(b: u8) -> int {
    if '0' as u8 <= b <= '9' as u8 {
        b - '0' as u8
    } else if 'a' as u8 <= b <= 'f' as u8 {
        b - 'a' as u8 + 10
    } else if 'A' as u8 <= b <= 'F' as u8 {
        b - 'A' as u8 + 10
    } else {
        -1
    }
}

/// Value of the four hex digits at `i`, or -1 if any is malformed.
pub open spec fn sp_hex4(s: Seq<u8>, i: int) -> int {
    if 0 <= i && i + 4 <= s.len() && hex_val(s[i]) >= 0 && hex_val(s[i + 1]) >= 0 && hex_val(
        s[i + 2],
    ) >= 0 && hex_val(s[i + 3]) >= 0 {
        hex_val(s[i]) * 4096 + hex_val(s[i + 1]) * 256 + hex_val(s[i + 2]) * 16 + hex_val(s[i + 3])
    } else {
        -1
    }
}

/// The UTF-8 encoding of a Unicode scalar value.
pub open spec fn utf8_of(cp: int) -> Seq<u8> {
    if cp < 0x80 {
        seq![cp as u8]
    } else if cp < 0x800 {
        seq![(0xc0 + cp / 0x40) as u8, (0x80 + cp % 0x40) as u8]
    } else if cp < 0x10000 {
        seq![
            (0xe0 + cp / 0x1000) as u8,
            (0x80 + (cp / 0x40) % 0x40) as u8,
            (0x80 + cp % 0x40) as u8,
        ]
    } else {
        seq![
            (0xf0 + cp / 0x40000) as u8,
            (0x80 + (cp / 0x1000) % 0x40) as u8,
            (0x80 + (cp / 0x40) % 0x40) as u8,
            (0x80 + cp % 0x40) as u8,
        ]
    }
}

/// Parses a string body starting just after the opening quote: yields the
/// decoded content appended to `acc` and the index just past the closing
/// quote.  Raw UTF-8 bytes pass through unchanged; a `\u` escape becomes
/// the UTF-8 encoding of its scalar value, with a surrogate pair read as
/// one code point and a lone surrogate failing the string.
pub open spec fn sp_str_body(s: Seq<u8>, i: int, acc: Seq<u8>) -> Option<(Seq<u8>, int)>
    decreases s.len() - i,
{
    if !(0 <= i < s.len()) {
        None
    } else {
        let b = s[i];
        if b == '"' as u8 {
            Some((acc, i + 1))
        } else if b == '\\' as u8 {
            if i + 1 < s.len() {
                let e = s[i + 1];
                if e == '"' as u8 {
                    sp_str_body(s, i + 2, acc.push('"' as u8))
                } else if e == '\\' as u8 {
                    sp_str_body(s, i + 2, acc.push('\\' as u8))
                } else if e == '/' as u8 {
                    sp_str_body(s, i + 2, acc.push('/' as u8))
                } else if e == 'n' as u8 {
                    sp_str_body(s, i + 2, acc.push(10))
                } else if e == 't' as u8 {
                    sp_str_body(s, i + 2, acc.push(9))
                } else if e == 'r' as u8 {
                    sp_str_body(s, i + 2, acc.push(13))
                } else if e == 'b' as u8 {
                    sp_str_body(s, i + 2, acc.push(8))
                } else if e == 'f' as u8 {
                    sp_str_body(s, i + 2, acc.push(12))
                } else if e == 'u' as u8 {
                    let hv = sp_hex4(s, i + 2);
                    if hv < 0 {
                        None
                    } else if 0xd800 <= hv < 0xdc00 {
                        if i + 12 <= s.len() && s[i + 6] == '\\' as u8 && s[i + 7] == 'u' as u8 {
                            let lo = sp_hex4(s, i + 8);
                            if 0xdc00 <= lo < 0xe000 {
                                sp_str_body(
                                    s,
                                    i + 12,
                                    acc + utf8_of(0x10000 + (hv - 0xd800) * 0x400 + (lo - 0xdc00)),
                                )
                            } else {
                                None
                            }
                        } else {
                            None
                        }
                    } else if 0xdc00 <= hv < 0xe000 {
                        None
                    } else {
                        sp_str_body(s, i + 6, acc + utf8_of(hv))
                    }
                } else {
                    None
                }
            } else {
                None
            }
        } else {
            sp_str_body(s, i + 1, acc.push(b))
        }
    }
}

pub open spec fn is_digit(b: u8) -> bool {
    '0' as u8 <= b <= '9' as u8
}

/// Index just past the maximal run of decimal digits starting at `i`.
pub open spec fn sp_digits_end(s: Seq<u8>, i: int) -> int
    decreases s.len() - i,
{
    if 0 <= i < s.len() && is_digit(s[i]) {
        sp_digits_end(s, i + 1)
    } else {
        i
    }
}

/// End of the number token starting at `i`, per the JSON number grammar:
/// an optional minus, an integer part without leading zeros, an optional
/// fraction and an optional exponent.  `None` when no well-formed number
/// starts there.
pub open spec fn sp_number_end(s: Seq<u8>, i: int) -> Option<int> {
    let j = if 0 <= i < s.len() && s[i] == '-' as u8 {
        i + 1
    } else {
        i
    };
    if !(0 <= j < s.len() && is_digit(s[j])) {
        None
    } else {
        let j1 = if s[j] == '0' as u8 {
            j + 1
        } else {
            sp_digits_end(s, j + 1)
        };
        let frac = if j1 < s.len() && s[j1] == '.' as u8 {
            if j1 + 1 < s.len() && is_digit(s[j1 + 1]) {
                Some(sp_digits_end(s, j1 + 2))
            } else {
                None
            }
        } else {
            Some(j1)
        };
        match frac {
            None => None,
            Some(j2) => {
                if j2 < s.len() && (s[j2] == 'e' as u8 || s[j2] == 'E' as u8) {
                    let j3 = if j2 + 1 < s.len() && (s[j2 + 1] == '+' as u8 || s[j2 + 1]
                        == '-' as u8) {
                        j2 + 2
                    } else {
                        j2 + 1
                    };
                    if j3 < s.len() && is_digit(s[j3]) {
                        Some(sp_digits_end(s, j3 + 1))
                    } else {
                        None
                    }
                } else {
                    Some(j2)
                }
            },
        }
    }
}

/// Parses one JSON value starting at `i` (leading whitespace allowed):
/// yields the value and the index just past it.
pub open spec fn sp_value(s: Seq<u8>, i: int) -> Option<(JsonV, int)>
    decreases s.len() - i, 0int,
{
    let j = sp_ws(s, i);
    if !(i <= j < s.len()) {
        None
    } else {
        let b = s[j];
        if b == '"' as u8 {
            match sp_str_body(s, j + 1, Seq::empty()) {
                Some((content, n)) => Some((JsonV::Str(content), n)),
                None => None,
            }
        } else if b == '{' as u8 {
            match sp_obj_items(s, j + 1, Seq::empty()) {
                Some((members, n)) => Some((JsonV::Obj(members), n)),
                None => None,
            }
        } else if b == '[' as u8 {
            match sp_arr_items(s, j + 1, Seq::empty()) {
                Some((items, n)) => Some((JsonV::Arr(items), n)),
                None => None,
            }
        } else if b == 't' as u8 {
            if j + 4 <= s.len() && s[j + 1] == 'r' as u8 && s[j + 2] == 'u' as u8 && s[j + 3]
                == 'e' as u8 {
                Some((JsonV::Bool(true), j + 4))
            } else {
                None
            }
        } else if b == 'f' as u8 {
            if j + 5 <= s.len() && s[j + 1] == 'a' as u8 && s[j + 2] == 'l' as u8 && s[j + 3]
                == 's' as u8 && s[j + 4] == 'e' as u8 {
                Some((JsonV::Bool(false), j + 5))
            } else {
                None
            }
        } else if b == 'n' as u8 {
            if j + 4 <= s.len() && s[j + 1] == 'u' as u8 && s[j + 2] == 'l' as u8 && s[j + 3]
                == 'l' as u8 {
                Some((JsonV::Null, j + 4))
            } else {
                None
            }
        } else if b == '-' as u8 || is_digit(b) {
            match sp_number_end(s, j) {
                Some(n) => {
                    if j < n <= s.len() {
                        Some((JsonV::Num(s.subrange(j, n)), n))
                    } else {
                        None
                    }
                },
                None => None,
            }
        } else {
            None
        }
    }
}

/// Parses the members of an object after its `{` (or after a `,`),
/// appending them to `acc`; yields all members and the index past the `}`.
pub open spec fn sp_obj_items(s: Seq<u8>, i: int, acc: Seq<(Seq<u8>, JsonV)>) -> Option<
    (Seq<(Seq<u8>, JsonV)>, int),
>
    decreases s.len() - i, 1int,
{
    let j = sp_ws(s, i);
    if !(i <= j < s.len()) {
        None
    } else if s[j] == '}' as u8 && acc.len() == 0 {
        Some((acc, j + 1))
    } else if s[j] == '"' as u8 {
        match sp_str_body(s, j + 1, Seq::empty()) {
            Some((key, i1)) => {
                if olook(acc, key) is Some {
                    // a key bound twice fails the whole document
                    None
                } else {
                    let ic = sp_ws(s, i1);
                    if i1 <= ic < s.len() && s[ic] == ':' as u8 && i < ic + 1 {
                        match sp_value(s, ic + 1) {
                            Some((v, i2)) => {
                                let ie = sp_ws(s, i2);
                                if i2 <= ie < s.len() && i < ie {
                                    if s[ie] == '}' as u8 {
                                        Some((acc.push((key, v)), ie + 1))
                                    } else if s[ie] == ',' as u8 {
                                        sp_obj_items(s, ie + 1, acc.push((key, v)))
                                    } else {
                                        None
                                    }
                                } else {
                                    None
                                }
                            },
                            None => None,
                        }
                    } else {
                        None
                    }
                }
            },
            None => None,
        }
    } else {
        None
    }
}

/// Parses the items of an array after its `[` (or after a `,`), appending
/// them to `acc`; yields all items and the index past the `]`.
pub open spec fn sp_arr_items(s: Seq<u8>, i: int, acc: Seq<JsonV>) -> Option<(Seq<JsonV>, int)>
    decreases s.len() - i, 1int,
{
    let j = sp_ws(s, i);
    if !(i <= j < s.len()) {
        None
    } else if s[j] == ']' as u8 && acc.len() == 0 {
        Some((acc, j + 1))
    } else {
        match sp_value(s, j) {
            Some((v, i2)) => {
                let ie = sp_ws(s, i2);
                if i2 <= ie < s.len() && i < ie {
                    if s[ie] == ']' as u8 {
                        Some((acc.push(v), ie + 1))
                    } else if s[ie] == ',' as u8 {
                        sp_arr_items(s, ie + 1, acc.push(v))
                    } else {
                        None
                    }
                } else {
                    None
                }
            },
            None => None,
        }
    }
}

/// Parses a complete document: one value, with only whitespace around it.
pub open spec fn sp_json(s: Seq<u8>) -> Option<JsonV> {
    match sp_value(s, 0) {
        Some((v, n)) => {
            if sp_ws(s, n) == s.len() {
                Some(v)
            } else {
                None
            }
        },
        None => None,
    }
}

fn ws_end(s: &[u8], i: usize) -> (r: usize)
    requires
        i <= s@.len(),
    ensures
        r == sp_ws(s@, i as int),
        i <= r <= s@.len(),
{
    let mut k: usize = i;
    while k < s.len() && (s[k] == 32 || s[k] == 9 || s[k] == 10 || s[k] == 13)
        invariant
            i <= k <= s@.len(),
            sp_ws(s@, i as int) == sp_ws(s@, k as int),
        decreases s@.len() - k,
    {
        k = k + 1;
    }
    k
}

fn hex_nibble(b: u8) -> (r: i32)
    ensures
        r as int == hex_val(b),
{
    if '0' as u8 <= b && b <= '9' as u8 {
        (b - '0' as u8) as i32
    } else if 'a' as u8 <= b && b <= 'f' as u8 {
        (b - 'a' as u8) as i32 + 10
    } else if 'A' as u8 <= b && b <= 'F' as u8 {
        (b - 'A' as u8) as i32 + 10
    } else {
        -1
    }
}

#[verifier::rlimit(100)]
#[verifier::spinoff_prover]
fn str_body(s: &[u8], i: usize) -> (r: Option<(Vec<u8>, usize)>)
    ensures
        match r {
            Some((content, n)) => {
                &&& sp_str_body(s@, i as int, Seq::empty()) == Some((content@, n as int))
                &&& i < n <= s@.len()
            },
            None => sp_str_body(s@, i as int, Seq::empty()) is None,
        },
{
    let mut k: usize = i;
    let mut out: Vec<u8> = Vec::new();
    assert(out@ =~= Seq::<u8>::empty());
    loop
        invariant
            i <= k,
            sp_str_body(s@, i as int, Seq::empty()) == sp_str_body(s@, k as int, out@),
        decreases s@.len() - k,
    {
        if !(k < s.len()) {
            return None;
        }
        let b = s[k];
        if b == '"' as u8 {
            return Some((out, k + 1));
        } else if b == '\\' as u8 {
            if !(k + 1 < s.len()) {
                return None;
            }
            let e = s[k + 1];
            if e == '"' as u8 {
                out.push('"' as u8);
                k = k + 2;
            } else if e == '\\' as u8 {
                out.push('\\' as u8);
                k = k + 2;
            } else if e == '/' as u8 {
                out.push('/' as u8);
                k = k + 2;
            } else if e == 'n' as u8 {
                out.push(10);
                k = k + 2;
            } else if e == 't' as u8 {
                out.push(9);
                k = k + 2;
            } else if e == 'r' as u8 {
                out.push(13);
                k = k + 2;
            } else if e == 'b' as u8 {
                out.push(8);
                k = k + 2;
            } else if e == 'f' as u8 {
                out.push(12);
                k = k + 2;
            } else if e == 'u' as u8 {
                if s.len() - k < 6 {
                    assert(sp_hex4(s@, k as int + 2) == -1);
                    return None;
                }
                let h0 = hex_nibble(s[k + 2]);
                let h1 = hex_nibble(s[k + 3]);
                let h2 = hex_nibble(s[k + 4]);
                let h3 = hex_nibble(s[k + 5]);
                if h0 < 0 || h1 < 0 || h2 < 0 || h3 < 0 {
                    return None;
                }
                let hv: i32 = h0 * 4096 + h1 * 256 + h2 * 16 + h3;
                assert(hv as int == sp_hex4(s@, k as int + 2));
                if 0xd800 <= hv && hv < 0xdc00 {
                    if s.len() - k < 12 {
                        return None;
                    }
                    if !(s[k + 6] == '\\' as u8 && s[k + 7] == 'u' as u8) {
                        return None;
                    }
                    let l0 = hex_nibble(s[k + 8]);
                    let l1 = hex_nibble(s[k + 9]);
                    let l2 = hex_nibble(s[k + 10]);
                    let l3 = hex_nibble(s[k + 11]);
                    if l0 < 0 || l1 < 0 || l2 < 0 || l3 < 0 {
                        return None;
                    }
                    let lo: i32 = l0 * 4096 + l1 * 256 + l2 * 16 + l3;
                    assert(lo as int == sp_hex4(s@, k as int + 8));
                    if !(0xdc00 <= lo && lo < 0xe000) {
                        return None;
                    }
                    let cp: u32 = 0x10000 + ((hv - 0xd800) as u32) * 0x400 + ((lo
                        - 0xdc00) as u32);
                    let ghost pre = out@;
                    out.push((0xf0 + cp / 0x40000) as u8);
                    out.push((0x80 + (cp / 0x1000) % 0x40) as u8);
                    out.push((0x80 + (cp / 0x40) % 0x40) as u8);
                    out.push((0x80 + cp % 0x40) as u8);
                    assert(out@ =~= pre + utf8_of(cp as int));
                    k = k + 12;
                } else if 0xdc00 <= hv && hv < 0xe000 {
                    return None;
                } else if hv < 0x80 {
                    let ghost pre = out@;
                    out.push(hv as u8);
                    assert(out@ =~= pre + utf8_of(hv as int));
                    k = k + 6;
                } else if hv < 0x800 {
                    let ghost pre = out@;
                    out.push((0xc0 + (hv as u32) / 0x40) as u8);
                    out.push((0x80 + (hv as u32) % 0x40) as u8);
                    assert(out@ =~= pre + utf8_of(hv as int));
                    k = k + 6;
                } else {
                    let ghost pre = out@;
                    out.push((0xe0 + (hv as u32) / 0x1000) as u8);
                    out.push((0x80 + ((hv as u32) / 0x40) % 0x40) as u8);
                    out.push((0x80 + (hv as u32) % 0x40) as u8);
                    assert(out@ =~= pre + utf8_of(hv as int));
                    k = k + 6;
                }
            } else {
                return None;
            }
        } else {
            out.push(b);
            k = k + 1;
        }
    }
}

fn digits_end(s: &[u8], i: usize) -> (r: usize)
    requires
        i <= s@.len(),
    ensures
        r == sp_digits_end(s@, i as int),
        i <= r <= s@.len(),
{
    let mut k: usize = i;
    while k < s.len() && '0' as u8 <= s[k] && s[k] <= '9' as u8
        invariant
            i <= k <= s@.len(),
            sp_digits_end(s@, i as int) == sp_digits_end(s@, k as int),
        decreases s@.len() - k,
    {
        k = k + 1;
    }
    k
}

/// Scans one number token, mirroring [`sp_number_end`] exactly.
fn number_end(s: &[u8], i: usize) -> (r: Option<usize>)
    requires
        i <= s@.len(),
    ensures
        match r {
            Some(n) => sp_number_end(s@, i as int) == Some(n as int) && i < n <= s@.len(),
            None => sp_number_end(s@, i as int) is None,
        },
{
    let j: usize = if i < s.len() && s[i] == '-' as u8 {
        i + 1
    } else {
        i
    };
    if !(j < s.len() && '0' as u8 <= s[j] && s[j] <= '9' as u8) {
        return None;
    }
    let j1: usize = if s[j] == '0' as u8 {
        j + 1
    } else {
        digits_end(s, j + 1)
    };
    let j2: usize = if j1 < s.len() && s[j1] == '.' as u8 {
        if j1 + 1 < s.len() && '0' as u8 <= s[j1 + 1] && s[j1 + 1] <= '9' as u8 {
            digits_end(s, j1 + 2)
        } else {
            return None;
        }
    } else {
        j1
    };
    if j2 < s.len() && (s[j2] == 'e' as u8 || s[j2] == 'E' as u8) {
        let j3: usize = if j2 + 1 < s.len() && (s[j2 + 1] == '+' as u8 || s[j2 + 1]
            == '-' as u8) {
            j2 + 2
        } else {
            j2 + 1
        };
        if j3 < s.len() && '0' as u8 <= s[j3] && s[j3] <= '9' as u8 {
            Some(digits_end(s, j3 + 1))
        } else {
            None
        }
    } else {
        Some(j2)
    }
}

/// Copies `s[from..to]` into a fresh buffer.
fn copy_range(s: &[u8], from: usize, to: usize) -> (r: Vec<u8>)
    requires
        from <= to <= s@.len(),
    ensures
        r@ == s@.subrange(from as int, to as int),
{
    let mut out: Vec<u8> = Vec::new();
    let mut k: usize = from;
    while k < to
        invariant
            from <= k <= to <= s@.len(),
            out@ =~= s@.subrange(from as int, k as int),
        decreases to - k,
    {
        out.push(s[k]);
        assert(out@ =~= s@.subrange(from as int, k as int + 1));
        k = k + 1;
    }
    out
}

/// Parses one JSON value of the input, mirroring [`sp_value`] exactly.
fn parse_value(s: &[u8], i: usize) -> (r: Option<(Json, usize)>)
    requires
        i <= s@.len(),
    ensures
        match r {
            Some((v, n)) => {
                &&& sp_value(s@, i as int) == Some((v.deep_view(), n as int))
                &&& i < n <= s@.len()
            },
            None => sp_value(s@, i as int) is None,
        },
    decreases s@.len() - i, 0int,
{
    let j = ws_end(s, i);
    if !(j < s.len()) {
        return None;
    }
    let b = s[j];
    if b == '"' as u8 {
        match str_body(s, j + 1) {
            Some((content, n)) => Some((Json::Str(content), n)),
            None => None,
        }
    } else if b == '{' as u8 {
        match obj_items(s, j + 1) {
            Some((members, n)) => {
                proof {
                    lemma_obj_deep_view(members);
                }
                Some((Json::Obj(members), n))
            },
            None => None,
        }
    } else if b == '[' as u8 {
        match arr_items(s, j + 1) {
            Some((items, n)) => {
                proof {
                    lemma_arr_deep_view(items);
                }
                Some((Json::Arr(items), n))
            },
            None => None,
        }
    } else if b == 't' as u8 {
        if s.len() - j >= 4 && s[j + 1] == 'r' as u8 && s[j + 2] == 'u' as u8 && s[j + 3]
            == 'e' as u8 {
            Some((Json::Bool(true), j + 4))
        } else {
            None
        }
    } else if b == 'f' as u8 {
        if s.len() - j >= 5 && s[j + 1] == 'a' as u8 && s[j + 2] == 'l' as u8 && s[j + 3]
            == 's' as u8 && s[j + 4] == 'e' as u8 {
            Some((Json::Bool(false), j + 5))
        } else {
            None
        }
    } else if b == 'n' as u8 {
        if s.len() - j >= 4 && s[j + 1] == 'u' as u8 && s[j + 2] == 'l' as u8 && s[j + 3]
            == 'l' as u8 {
            Some((Json::Null, j + 4))
        } else {
            None
        }
    } else if b == '-' as u8 || ('0' as u8 <= b && b <= '9' as u8) {
        match number_end(s, j) {
            Some(n) => Some((Json::Num(copy_range(s, j, n)), n)),
            None => None,
        }
    } else {
        None
    }
}

/// Compares two byte strings.
fn bytes_eq(a: &[u8], b: &[u8]) -> (r: bool)
    ensures
        r == (a@ == b@),
{
    if a.len() != b.len() {
        return false;
    }
    let mut k: usize = 0;
    while k < a.len()
        invariant
            k <= a@.len(),
            a@.len() == b@.len(),
            forall|i: int| 0 <= i < k ==> a@[i] == b@[i],
        decreases a@.len() - k,
    {
        if a[k] != b[k] {
            return false;
        }
        k = k + 1;
    }
    assert(a@ =~= b@);
    true
}

/// Whether an object already binds a key, mirroring [`olook`].
fn has_key(ms: &Vec<(Vec<u8>, Json)>, key: &Vec<u8>) -> (r: bool)
    ensures
        r == (olook(ms.deep_view(), key@) is Some),
{
    let mut k: usize = 0;
    assert(ms.deep_view().skip(0) =~= ms.deep_view());
    while k < ms.len()
        invariant
            k <= ms@.len(),
            olook(ms.deep_view(), key@) == olook(ms.deep_view().skip(k as int), key@),
        decreases ms@.len() - k,
    {
        let hit = bytes_eq(ms[k].0.as_slice(), key.as_slice());
        proof {
            assert(ms.deep_view().skip(k as int)[0] == ms.deep_view()[k as int]);
            assert(ms.deep_view()[k as int].0 =~= ms@[k as int].0@);
        }
        if hit {
            return true;
        }
        proof {
            assert(ms.deep_view().skip(k as int).drop_first() =~= ms.deep_view().skip(
                k as int + 1,
            ));
        }
        k = k + 1;
    }
    proof {
        assert(ms.deep_view().skip(ms@.len() as int) =~= Seq::<(Seq<u8>, JsonV)>::empty());
    }
    false
}

/// Parses object members, mirroring [`sp_obj_items`] exactly.
fn obj_items(s: &[u8], i: usize) -> (r: Option<(Vec<(Vec<u8>, Json)>, usize)>)
    requires
        i <= s@.len(),
    ensures
        match r {
            Some((members, n)) => {
                &&& sp_obj_items(s@, i as int, Seq::empty()) == Some(
                    (members.deep_view(), n as int),
                )
                &&& i < n <= s@.len()
            },
            None => sp_obj_items(s@, i as int, Seq::empty()) is None,
        },
    decreases s@.len() - i, 1int,
{
    let mut pos: usize = i;
    let mut out: Vec<(Vec<u8>, Json)> = Vec::new();
    assert(out.deep_view() =~= Seq::<(Seq<u8>, JsonV)>::empty());
    loop
        invariant
            i <= pos <= s@.len(),
            sp_obj_items(s@, i as int, Seq::empty()) == sp_obj_items(
                s@,
                pos as int,
                out.deep_view(),
            ),
        decreases s@.len() - pos,
    {
        let j = ws_end(s, pos);
        if !(j < s.len()) {
            return None;
        }
        if s[j] == '}' as u8 && out.len() == 0 {
            return Some((out, j + 1));
        }
        if !(s[j] == '"' as u8) {
            return None;
        }
        match str_body(s, j + 1) {
            None => {
                return None;
            },
            Some((key, i1)) => {
                if has_key(&out, &key) {
                    return None;
                }
                let ic = ws_end(s, i1);
                if !(ic < s.len() && s[ic] == ':' as u8) {
                    return None;
                }
                match parse_value(s, ic + 1) {
                    None => {
                        return None;
                    },
                    Some((v, i2)) => {
                        let ie = ws_end(s, i2);
                        if !(ie < s.len()) {
                            return None;
                        }
                        if s[ie] == '}' as u8 {
                            let ghost pre = out.deep_view();
                            out.push((key, v));
                            assert(out.deep_view() =~~= pre.push((key@, v.deep_view())));
                            return Some((out, ie + 1));
                        } else if s[ie] == ',' as u8 {
                            let ghost pre = out.deep_view();
                            out.push((key, v));
                            assert(out.deep_view() =~~= pre.push((key@, v.deep_view())));
                            pos = ie + 1;
                        } else {
                            return None;
                        }
                    },
                }
            },
        }
    }
}

/// Parses array items, mirroring [`sp_arr_items`] exactly.
fn arr_items(s: &[u8], i: usize) -> (r: Option<(Vec<Json>, usize)>)
    requires
        i <= s@.len(),
    ensures
        match r {
            Some((items, n)) => {
                &&& sp_arr_items(s@, i as int, Seq::empty()) == Some(
                    (items.deep_view(), n as int),
                )
                &&& i < n <= s@.len()
            },
            None => sp_arr_items(s@, i as int, Seq::empty()) is None,
        },
    decreases s@.len() - i, 1int,
{
    let mut pos: usize = i;
    let mut out: Vec<Json> = Vec::new();
    assert(out.deep_view() =~= Seq::<JsonV>::empty());
    loop
        invariant
            i <= pos <= s@.len(),
            sp_arr_items(s@, i as int, Seq::empty()) == sp_arr_items(
                s@,
                pos as int,
                out.deep_view(),
            ),
        decreases s@.len() - pos,
    {
        let j = ws_end(s, pos);
        if !(j < s.len()) {
            return None;
        }
        if s[j] == ']' as u8 && out.len() == 0 {
            return Some((out, j + 1));
        }
        match parse_value(s, j) {
            None => {
                return None;
            },
            Some((v, i2)) => {
                let ie = ws_end(s, i2);
                if !(ie < s.len()) {
                    return None;
                }
                if s[ie] == ']' as u8 {
                    let ghost pre = out.deep_view();
                    out.push(v);
                    assert(out.deep_view() =~= pre.push(v.deep_view()));
                    return Some((out, ie + 1));
                } else if s[ie] == ',' as u8 {
                    let ghost pre = out.deep_view();
                    out.push(v);
                    assert(out.deep_view() =~= pre.push(v.deep_view()));
                    pos = ie + 1;
                } else {
                    return None;
                }
            },
        }
    }
}

/// Parses a complete JSON document, mirroring [`sp_json`] exactly.
pub fn parse_json(s: &[u8]) -> (r: Option<Json>)
    ensures
        match r {
            Some(v) => sp_json(s@) == Some(v.deep_view()),
            None => sp_json(s@) is None,
        },
{
    match parse_value(s, 0) {
        Some((v, n)) => {
            let e = ws_end(s, n);
            if e == s.len() {
                Some(v)
            } else {
                None
            }
        },
        None => None,
    }
}


/// A decimal digit's byte, and `a`..`f` above nine.
pub open spec fn hex_digit(n: int) -> u8 {
    if n < 10 {
        (48 + n) as u8
    } else {
        (87 + n) as u8
    }
}

/// How one byte of string content is written in a JSON string literal.
pub open spec fn esc_byte(b: u8) -> Seq<u8> {
    if b == '"' as u8 {
        seq!['\\' as u8, '"' as u8]
    } else if b == '\\' as u8 {
        seq!['\\' as u8, '\\' as u8]
    } else if b == 10 {
        seq!['\\' as u8, 'n' as u8]
    } else if b == 13 {
        seq!['\\' as u8, 'r' as u8]
    } else if b == 9 {
        seq!['\\' as u8, 't' as u8]
    } else if b == 8 {
        seq!['\\' as u8, 'b' as u8]
    } else if b == 12 {
        seq!['\\' as u8, 'f' as u8]
    } else if b < 32 {
        seq!['\\' as u8, 'u' as u8, '0' as u8, '0' as u8, hex_digit(b as int / 16), hex_digit(b as int % 16)]
    } else {
        seq![b]
    }
}

/// String content escaped for a JSON string literal.
pub open spec fn esc(s: Seq<u8>) -> Seq<u8>
    decreases s.len(),
{
    if s.len() == 0 {
        Seq::empty()
    } else {
        esc_byte(s[0]) + esc(s.drop_first())
    }
}

/// Escaping a string is escaping all but the last byte, then that byte.
pub proof fn lemma_esc_snoc(s: Seq<u8>)
    requires
        s.len() > 0,
    ensures
        esc(s) == esc(s.drop_last()) + esc_byte(s.last()),
    decreases s.len(),
{
    if s.len() == 1 {
        assert(s.drop_last() =~= Seq::empty());
        assert(s.drop_first() =~= Seq::empty());
        assert(esc(s) =~= esc(s.drop_last()) + esc_byte(s.last()));
    } else {
        lemma_esc_snoc(s.drop_first());
        assert(s.drop_first().drop_last() =~= s.drop_last().drop_first());
        assert(s.drop_first().last() == s.last());
        assert(s.drop_last()[0] == s[0]);
        assert(esc(s.drop_last()) == esc_byte(s[0]) + esc(s.drop_last().drop_first()));
        assert(esc(s) =~= esc(s.drop_last()) + esc_byte(s.last()));
    }
}

/// A complete JSON string literal: quote, escaped content, quote.
pub open spec fn jstr(s: Seq<u8>) -> Seq<u8> {
    seq!['"' as u8] + esc(s) + seq!['"' as u8]
}

/// Appends one escaped content byte.
fn push_esc_byte(out: &mut Vec<u8>, b: u8)
    ensures
        final(out)@ == old(out)@ + esc_byte(b),
{
    if b == '"' as u8 {
        out.push('\\' as u8);
        out.push('"' as u8);
    } else if b == '\\' as u8 {
        out.push('\\' as u8);
        out.push('\\' as u8);
    } else if b == 10 {
        out.push('\\' as u8);
        out.push('n' as u8);
    } else if b == 13 {
        out.push('\\' as u8);
        out.push('r' as u8);
    } else if b == 9 {
        out.push('\\' as u8);
        out.push('t' as u8);
    } else if b == 8 {
        out.push('\\' as u8);
        out.push('b' as u8);
    } else if b == 12 {
        out.push('\\' as u8);
        out.push('f' as u8);
    } else if b < 32 {
        out.push('\\' as u8);
        out.push('u' as u8);
        out.push('0' as u8);
        out.push('0' as u8);
        let hi = b / 16;
        let lo = b % 16;
        out.push(if hi < 10 { 48 + hi } else { 87 + hi });
        out.push(if lo < 10 { 48 + lo } else { 87 + lo });
    } else {
        out.push(b);
    }
    assert(final(out)@ =~= old(out)@ + esc_byte(b));
}

/// Appends a JSON string literal holding `s`.
pub fn push_jstr(out: &mut Vec<u8>, s: &[u8])
    ensures
        final(out)@ == old(out)@ + jstr(s@),
{
    out.push('"' as u8);
    let ghost base = out@;
    assert(esc(s@.take(0)) =~= Seq::<u8>::empty());
    assert(out@ =~= base + esc(s@.take(0)));
    let mut k: usize = 0;
    while k < s.len()
        invariant
            k <= s@.len(),
            base == old(out)@ + seq!['"' as u8],
            out@ == base + esc(s@.take(k as int)),
        decreases s@.len() - k,
    {
        let ghost pre = out@;
        push_esc_byte(out, s[k]);
        proof {
            lemma_esc_snoc(s@.take(k as int + 1));
            assert(s@.take(k as int + 1).drop_last() =~= s@.take(k as int));
            assert(s@.take(k as int + 1).last() == s@[k as int]);
            assert(out@ =~= base + esc(s@.take(k as int + 1)));
        }
        k = k + 1;
    }
    assert(s@.take(s@.len() as int) =~= s@);
    out.push('"' as u8);
    assert(final(out)@ =~= old(out)@ + jstr(s@));
}

/// Decimal digits of a natural number, most significant first.
pub open spec fn dec_nat(n: nat) -> Seq<u8>
    decreases n,
{
    if n < 10 {
        seq![(48 + n) as u8]
    } else {
        dec_nat(n / 10).push((48 + n % 10) as u8)
    }
}

/// Decimal digits of an integer, with a leading minus when negative.
pub open spec fn dec_int(n: int) -> Seq<u8> {
    if n < 0 {
        seq!['-' as u8] + dec_nat((-n) as nat)
    } else {
        dec_nat(n as nat)
    }
}

fn push_dec_u64(out: &mut Vec<u8>, n: u64)
    ensures
        final(out)@ == old(out)@ + dec_nat(n as nat),
    decreases n,
{
    if n < 10 {
        out.push(48 + (n as u8));
        assert(final(out)@ =~= old(out)@ + dec_nat(n as nat));
    } else {
        push_dec_u64(out, n / 10);
        out.push(48 + ((n % 10) as u8));
        assert(final(out)@ =~= old(out)@ + dec_nat(n as nat));
    }
}

/// Appends the decimal form of an integer.
pub fn push_dec_i64(out: &mut Vec<u8>, n: i64)
    requires
        n > i64::MIN,
    ensures
        final(out)@ == old(out)@ + dec_int(n as int),
{
    if n < 0 {
        out.push('-' as u8);
        let m: u64 = (-n) as u64;
        push_dec_u64(out, m);
        assert(final(out)@ =~= old(out)@ + dec_int(n as int));
    } else {
        push_dec_u64(out, n as u64);
    }
}


proof fn lemma_hex_digit_val(n: int)
    requires
        0 <= n < 16,
    ensures
        hex_val(hex_digit(n)) == n,
{
}

/// Law: the string parser reads back exactly what the escape function
/// wrote.  Wherever a buffer continues with the escaped form of `s`, a
/// closing quote and anything after, parsing the string body from there
/// yields precisely `s` and stops just past that quote.  This is the string
/// half of the codec's round trip: every token, identifier or content that
/// an outbound frame carries is read back byte for byte.
pub proof fn lemma_escaped_string_parses(w: Seq<u8>, i: int, s: Seq<u8>, rest: Seq<u8>, acc: Seq<u8>)
    requires
        0 <= i <= w.len(),
        w.skip(i) == esc(s) + seq!['"' as u8] + rest,
    ensures
        sp_str_body(w, i, acc) == Some((acc + s, i + esc(s).len() + 1)),
    decreases s.len(),
{
    assert(forall|k: int|
        0 <= k < w.skip(i).len() ==> #[trigger] w.skip(i)[k] == w[i + k]);
    if s.len() == 0 {
        assert(esc(s) =~= Seq::<u8>::empty());
        assert(w.skip(i)[0] == '"' as u8);
        assert(w[i] == '"' as u8);
        assert(acc + s =~= acc);
    } else {
        let b = s[0];
        let e = esc_byte(b);
        assert(esc(s) == e + esc(s.drop_first()));
        assert(forall|k: int| 0 <= k < e.len() ==> w.skip(i)[k] == e[k]);
        assert(w.skip(i).len() == esc(s).len() + 1 + rest.len());
        assert(e.len() <= esc(s).len());
        assert(w.skip(i + e.len()) =~= w.skip(i).skip(e.len() as int));
        assert(w.skip(i + e.len()) =~= esc(s.drop_first()) + seq!['"' as u8] + rest);
        let acc2 = acc.push(b);
        assert(acc2 + s.drop_first() =~= acc + s);
        assert(esc(s).len() == e.len() + esc(s.drop_first()).len());
        if b == '"' as u8 || b == '\\' as u8 || b == 10 || b == 13 || b == 9 || b == 8 || b
            == 12 {
            assert(e.len() == 2);
            assert(w[i] == '\\' as u8);
            lemma_escaped_string_parses(w, i + 2, s.drop_first(), rest, acc2);
            assert(sp_str_body(w, i, acc) == Some((acc + s, i + esc(s).len() + 1)));
        } else if b < 32 {
            assert(e.len() == 6);
            assert(w[i] == '\\' as u8 && w[i + 1] == 'u' as u8);
            assert(w[i + 2] == '0' as u8 && w[i + 3] == '0' as u8);
            assert(w[i + 4] == hex_digit(b as int / 16) && w[i + 5] == hex_digit(b as int % 16));
            lemma_hex_digit_val(b as int / 16);
            lemma_hex_digit_val(b as int % 16);
            assert(hex_val(w[i + 2]) == 0 && hex_val(w[i + 3]) == 0);
            assert(sp_hex4(w, i + 2) == hex_val(w[i + 4]) * 16 + hex_val(w[i + 5]));
            assert(sp_hex4(w, i + 2) == b as int);
            assert(utf8_of(b as int) =~= seq![b]);
            assert(acc + utf8_of(b as int) =~= acc2);
            lemma_escaped_string_parses(w, i + 6, s.drop_first(), rest, acc2);
            assert(sp_str_body(w, i, acc) == Some((acc + s, i + esc(s).len() + 1)));
        } else {
            assert(e =~= seq![b]);
            assert(e[0] == b);
            assert(w.skip(i)[0] == e[0]);
            assert(w[i] == b);
            lemma_escaped_string_parses(w, i + 1, s.drop_first(), rest, acc2);
            assert(sp_str_body(w, i, acc) == Some((acc + s, i + esc(s).len() + 1)));
        }
    }
}


/// Escaping leaves a string of plain bytes (printable, no quote, no
/// backslash) unchanged.
pub proof fn lemma_esc_plain(s: Seq<u8>)
    requires
        forall|k: int|
            0 <= k < s.len() ==> 32 <= #[trigger] s[k] && s[k] != '"' as u8 && s[k]
                != '\\' as u8,
    ensures
        esc(s) == s,
    decreases s.len(),
{
    if s.len() == 0 {
        assert(esc(s) =~= s);
    } else {
        lemma_esc_plain(s.drop_first());
        assert(esc_byte(s[0]) =~= seq![s[0]]);
        assert(esc(s) =~= s);
    }
}

/// True when every byte is a decimal digit.
pub open spec fn all_digits(t: Seq<u8>) -> bool {
    forall|i: int| 0 <= i < t.len() ==> 48 <= #[trigger] t[i] <= 57
}

/// Value of a digit string, most significant first.
pub open spec fn digits_val(t: Seq<u8>) -> int
    decreases t.len(),
{
    if t.len() == 0 {
        0
    } else {
        digits_val(t.drop_last()) * 10 + (t.last() - 48)
    }
}

/// The integer a JSON number token denotes, when it is a plain integer:
/// an optional minus sign followed by decimal digits only.
pub open spec fn int_of_num(t: Seq<u8>) -> Option<int> {
    if t.len() >= 2 && t[0] == '-' as u8 && all_digits(t.skip(1)) {
        Some(-digits_val(t.skip(1)))
    } else if t.len() >= 1 && all_digits(t) {
        Some(digits_val(t))
    } else {
        None
    }
}

/// The token's value when it is a plain integer that fits in `i32`.
pub open spec fn i32_of_num(t: Seq<u8>) -> Option<i32> {
    match int_of_num(t) {
        Some(v) => if i32::MIN <= v <= i32::MAX {
            Some(v as i32)
        } else {
            None
        },
        None => None,
    }
}

proof fn lemma_digits_val_bounds(t: Seq<u8>)
    requires
        all_digits(t),
    ensures
        digits_val(t) >= 0,
        t.len() > 0 ==> digits_val(t) >= digits_val(t.drop_last()),
    decreases t.len(),
{
    if t.len() > 0 {
        assert(all_digits(t.drop_last()));
        lemma_digits_val_bounds(t.drop_last());
    }
}

proof fn lemma_digits_val_mono(t: Seq<u8>, k: int)
    requires
        all_digits(t),
        0 <= k <= t.len(),
    ensures
        digits_val(t) >= digits_val(t.take(k)),
        digits_val(t) >= 0,
    decreases t.len() - k,
{
    lemma_digits_val_bounds(t);
    if k == t.len() {
        assert(t.take(k) =~= t);
    } else {
        lemma_digits_val_mono(t, k + 1);
        assert(t.take(k + 1).drop_last() =~= t.take(k));
        assert(all_digits(t.take(k + 1)));
        lemma_digits_val_bounds(t.take(k + 1));
    }
}

fn digits_value(t: &[u8], from: usize) -> (r: Option<u64>)
    requires
        from <= t@.len(),
        all_digits(t@.skip(from as int)),
    ensures
        match r {
            Some(v) => v as int == digits_val(t@.skip(from as int)),
            None => digits_val(t@.skip(from as int)) > u32::MAX,
        },
{
    let ghost whole = t@.skip(from as int);
    let mut k: usize = from;
    let mut val: u64 = 0;
    while k < t.len()
        invariant
            from <= k <= t@.len(),
            whole == t@.skip(from as int),
            all_digits(whole),
            val as int == digits_val(whole.take(k - from)),
            val <= u32::MAX,
        decreases t@.len() - k,
    {
        let d = t[k];
        assert(whole[k - from] == d);
        assert(48 <= d <= 57);
        let v2: u64 = val * 10 + ((d - 48) as u64);
        proof {
            assert(whole.take(k + 1 - from).drop_last() =~= whole.take(k - from));
            assert(whole.take(k + 1 - from).last() == d);
        }
        if v2 > 0xffff_ffff {
            proof {
                lemma_digits_val_mono(whole, k + 1 - from);
            }
            return None;
        }
        val = v2;
        k = k + 1;
    }
    assert(whole.take(t@.len() - from) =~= whole);
    Some(val)
}

/// Reads a number token as an `i32`, exactly when [`i32_of_num`] accepts it.
pub fn parse_i32_token(t: &[u8]) -> (r: Option<i32>)
    ensures
        r == i32_of_num(t@),
{
    let neg: bool = t.len() >= 1 && t[0] == '-' as u8;
    let from: usize = if neg { 1 } else { 0 };
    if t.len() <= from {
        assert(i32_of_num(t@) is None);
        return None;
    }
    let mut k: usize = from;
    while k < t.len()
        invariant
            from <= k <= t@.len(),
            from < t@.len(),
            neg == (t@.len() >= 1 && t@[0] == '-' as u8),
            neg ==> (from == 1 && t@.len() >= 2),
            !neg ==> from == 0,
            forall|i: int| from <= i < k ==> 48 <= #[trigger] t@[i] <= 57,
        decreases t@.len() - k,
    {
        let d = t[k];
        if d < 48 || d > 57 {
            proof {
                if neg {
                    assert(t@.skip(1) =~= t@.subrange(1, t@.len() as int));
                    assert(t@.skip(1)[k as int - 1] == t@[k as int]);
                    assert(!all_digits(t@.skip(1)));
                } else {
                    assert(!all_digits(t@));
                }
            }
            return None;
        }
        k = k + 1;
    }
    proof {
        if neg {
            assert(forall|i: int| 0 <= i < t@.skip(1).len() ==> t@.skip(1)[i] == t@[i + 1]);
            assert(all_digits(t@.skip(1)));
            assert(int_of_num(t@) == Some(-digits_val(t@.skip(1))));
        } else {
            assert(all_digits(t@));
            assert(int_of_num(t@) == Some(digits_val(t@)));
        }
    }
    match digits_value(t, from) {
        None => {
            proof {
                if neg {
                    assert(int_of_num(t@) == Some(-digits_val(t@.skip(1))));
                } else {
                    assert(int_of_num(t@) == Some(digits_val(t@)));
                }
            }
            None
        },
        Some(v) => {
            if neg {
                assert(v as int == digits_val(t@.skip(1)));
                if v > 0x8000_0000 {
                    assert(i32_of_num(t@) is None);
                    return None;
                }
                let w: i64 = -(v as i64);
                assert(i32_of_num(t@) == Some(w as i32));
                Some(w as i32)
            } else {
                assert(v as int == digits_val(t@.skip(0)) && t@.skip(0) =~= t@);
                if v > 0x7fff_ffff {
                    assert(i32_of_num(t@) is None);
                    return None;
                }
                assert(i32_of_num(t@) == Some(v as i32));
                Some(v as i32)
            }
        },
    }
}

} // verus!

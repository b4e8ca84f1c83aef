use vstd::prelude::*;
use vstd::string::StringSliceAdditionalSpecFns;
use crate::scan::{
    alpha_byte, ascii_chars, bytes_to_string, digit_byte, hex_byte, ident_tail_byte,
    is_alpha_byte, is_digit_byte, is_hex_byte, is_ident_tail_byte, is_space_byte, scan_digits,
    lemma_digits_end_bounds, space_byte, spec_digits, spec_digits_end, spec_integer, take_bytes,
};
use super::structure::{
    EntityInstance, EntityInstanceV, ExchangeFile, ExchangeFileV, Parameter, ParameterV,
    TypedParameter, TypedParameterV, UnTypedParameter, UnTypedParameterV, parameters_view,
    typed_parameters_view,
};

verus! {

/// Where a parse stopped: the position of the first input byte that could
/// not be consumed as part of the expected construct.
#[derive(Debug, Clone, Copy, PartialEq, Eq, Structural)]
pub struct ParseError {
    pub position: usize,
}


/// Whether the input carries the marker bytes at the position.
pub open spec fn at_marker(s: Seq<u8>, pos: int, m: Seq<u8>) -> bool {
    0 <= pos && pos + m.len() <= s.len() && s.subrange(pos, pos + m.len()) == m
}

/// The position just after the `*/` that closes a comment scanned from
/// the position, if any.
pub open spec fn spec_comment_close(s: Seq<u8>, p: int) -> Option<int>
    decreases s.len() - p,
{
    if p < 0 || p + 2 > s.len() {
        Option::None
    } else if s[p] == 42 && s[p + 1] == 47 {
        Option::Some(p + 2)
    } else {
        spec_comment_close(s, p + 1)
    }
}

/// The position after whitespace and comments; an unterminated comment
/// stops at its opener.
pub open spec fn spec_skip(s: Seq<u8>, pos: int) -> int
    decreases s.len() - pos,
{
    if pos < 0 || pos >= s.len() {
        pos
    } else if is_space_byte(s[pos]) {
        spec_skip(s, pos + 1)
    } else if s[pos] == 47 && pos + 1 < s.len() && s[pos + 1] == 42 {
        match spec_comment_close(s, pos + 2) {
            Option::Some(e) => if pos < e <= s.len() {
                spec_skip(s, e)
            } else {
                pos
            },
            Option::None => pos,
        }
    } else {
        pos
    }
}

/// The end of the identifier-tail run starting at the position.
pub open spec fn spec_ident_end(s: Seq<u8>, p: int) -> int
    decreases s.len() - p,
{
    if p < 0 || p >= s.len() {
        p
    } else if is_ident_tail_byte(s[p]) {
        spec_ident_end(s, p + 1)
    } else {
        p
    }
}

/// What reading an identifier yields: its characters and end position.
pub open spec fn spec_ident(s: Seq<u8>, pos: int) -> Option<(Seq<char>, int)> {
    if 0 <= pos < s.len() && is_alpha_byte(s[pos]) {
        let e = spec_ident_end(s, pos + 1);
        Option::Some((ascii_chars(s.subrange(pos, e)), e))
    } else {
        Option::None
    }
}

/// What reading a number literal yields: an integer value, or a real kept
/// as its spelling when a decimal point or exponent follows the digits.
pub open spec fn spec_number(s: Seq<u8>, pos: int) -> Option<(UnTypedParameterV, int)> {
    if !(0 <= pos < s.len()) {
        Option::None
    } else {
        let d = if s[pos] == 43 || s[pos] == 45 {
            pos + 1
        } else {
            pos
        };
        match spec_digits(s, d) {
            Option::None => Option::None,
            Option::Some((v, d1)) => {
                let f = if d1 < s.len() && s[d1] == 46 && d1 + 1 < s.len() && is_digit_byte(
                    s[d1 + 1],
                ) {
                    spec_digits_end(s, d1 + 1)
                } else {
                    d1
                };
                let frac_real = f != d1;
                let e2 = if f < s.len() && (s[f] == 101 || s[f] == 69) {
                    let x = if f + 1 < s.len() && (s[f + 1] == 43 || s[f + 1] == 45) {
                        f + 2
                    } else {
                        f + 1
                    };
                    if x < s.len() && is_digit_byte(s[x]) {
                        spec_digits_end(s, x)
                    } else {
                        f
                    }
                } else {
                    f
                };
                let is_real = frac_real || e2 != f;
                if is_real {
                    if forall|k: int| pos <= k < e2 ==> s[k] < 128 {
                        Option::Some(
                            (UnTypedParameterV::Real(ascii_chars(s.subrange(pos, e2))), e2),
                        )
                    } else {
                        Option::None
                    }
                } else {
                    match spec_integer(s, pos) {
                        Option::Some((n, p)) => Option::Some((UnTypedParameterV::Integer(n), p)),
                        Option::None => Option::None,
                    }
                }
            },
        }
    }
}

/// What reading a string literal yields: the decoded characters and the
/// position after the closing quote.
pub open spec fn spec_string(s: Seq<u8>, pos: int) -> Option<(Seq<char>, int)> {
    if 0 <= pos < s.len() && s[pos] == 39 {
        match spec_string_body(s, pos + 1) {
            Option::Some((body, e)) => Option::Some((ascii_chars(body), e)),
            Option::None => Option::None,
        }
    } else {
        Option::None
    }
}

/// What reading an enumeration value yields: the identifier between dots.
pub open spec fn spec_enum_value(s: Seq<u8>, pos: int) -> Option<(Seq<char>, int)> {
    if 0 <= pos < s.len() && s[pos] == 46 {
        match spec_ident(s, pos + 1) {
            Option::Some((name, p)) => if p < s.len() && s[p] == 46 {
                Option::Some((name, p + 1))
            } else {
                Option::None
            },
            Option::None => Option::None,
        }
    } else {
        Option::None
    }
}

/// The end of the hex-digit run starting at the position.
pub open spec fn spec_hex_end(s: Seq<u8>, p: int) -> int
    decreases s.len() - p,
{
    if p < 0 || p >= s.len() {
        p
    } else if is_hex_byte(s[p]) {
        spec_hex_end(s, p + 1)
    } else {
        p
    }
}

/// What reading a binary value yields: the position after it.
pub open spec fn spec_binary(s: Seq<u8>, pos: int) -> Option<int> {
    if 0 <= pos < s.len() && s[pos] == 34 && pos + 1 < s.len() && 48 <= s[pos + 1] <= 51 {
        let e = spec_hex_end(s, pos + 2);
        if e < s.len() && s[e] == 34 {
            Option::Some(e + 1)
        } else {
            Option::None
        }
    } else {
        Option::None
    }
}

/// What reading one parameter yields: a typed constructor, a bare value,
/// or the omitted mark.
pub open spec fn spec_parameter(s: Seq<u8>, pos: int) -> Option<(ParameterV, int)>
    decreases s.len() - pos, 3int,
{
    if !(0 <= pos < s.len()) {
        Option::None
    } else if s[pos] == 42 {
        Option::Some((ParameterV::Omitted, pos + 1))
    } else if is_alpha_byte(s[pos]) {
        match spec_typed_parameter(s, pos) {
            Option::Some((tp, p)) => Option::Some((ParameterV::Typed(tp), p)),
            Option::None => Option::None,
        }
    } else {
        match spec_untyped_parameter(s, pos) {
            Option::Some((v, p)) => Option::Some((ParameterV::Untyped(v), p)),
            Option::None => Option::None,
        }
    }
}

/// What reading a typed parameter yields: a name applied to a list.
pub open spec fn spec_typed_parameter(s: Seq<u8>, pos: int) -> Option<(TypedParameterV, int)>
    decreases s.len() - pos, 2int,
{
    match spec_ident(s, pos) {
        Option::Some((name, p1)) => {
            let p2 = spec_skip(s, p1);
            if !(pos < p2 <= s.len()) {
                Option::None
            } else {
                match spec_parameter_list(s, p2) {
                    Option::Some((items, p3)) => Option::Some(
                        (TypedParameterV { name, parameters: items }, p3),
                    ),
                    Option::None => Option::None,
                }
            }
        },
        Option::None => Option::None,
    }
}

/// What reading a bare parameter value yields.
pub open spec fn spec_untyped_parameter(s: Seq<u8>, pos: int) -> Option<(UnTypedParameterV, int)>
    decreases s.len() - pos, 2int,
{
    if !(0 <= pos < s.len()) {
        Option::None
    } else if s[pos] == 40 {
        match spec_parameter_list(s, pos) {
            Option::Some((items, p)) => Option::Some((UnTypedParameterV::List(items), p)),
            Option::None => Option::None,
        }
    } else if s[pos] == 46 {
        match spec_enum_value(s, pos) {
            Option::Some((v, p)) => Option::Some((UnTypedParameterV::EnumValue(v), p)),
            Option::None => Option::None,
        }
    } else if s[pos] == 35 {
        if pos + 1 < s.len() && is_digit_byte(s[pos + 1]) {
            match spec_integer(s, pos + 1) {
                Option::Some((id, p)) => Option::Some((UnTypedParameterV::EntityRef(id), p)),
                Option::None => Option::None,
            }
        } else {
            match spec_ident(s, pos + 1) {
                Option::Some((name, p)) => Option::Some((UnTypedParameterV::ConstantRef(name), p)),
                Option::None => Option::None,
            }
        }
    } else if s[pos] == 39 {
        match spec_string(s, pos) {
            Option::Some((v, p)) => Option::Some((UnTypedParameterV::String(v), p)),
            Option::None => Option::None,
        }
    } else if s[pos] == 34 {
        match spec_binary(s, pos) {
            Option::Some(p) => Option::Some((UnTypedParameterV::Binary, p)),
            Option::None => Option::None,
        }
    } else if s[pos] == 36 {
        Option::Some((UnTypedParameterV::Null, pos + 1))
    } else {
        spec_number(s, pos)
    }
}

/// What reading a parenthesized, comma-separated, possibly empty
/// parameter list yields.
pub open spec fn spec_parameter_list(s: Seq<u8>, pos: int) -> Option<(Seq<ParameterV>, int)>
    decreases s.len() - pos, 1int,
{
    if !(0 <= pos < s.len() && s[pos] == 40) {
        Option::None
    } else {
        let q = spec_skip(s, pos + 1);
        if !(pos < q <= s.len()) {
            Option::None
        } else if q < s.len() && s[q] == 41 {
            Option::Some((Seq::empty(), q + 1))
        } else {
            spec_param_items(s, q)
        }
    }
}

/// What reading the remaining comma-separated items of a parameter list
/// yields, through the closing parenthesis.
pub open spec fn spec_param_items(s: Seq<u8>, pos: int) -> Option<(Seq<ParameterV>, int)>
    decreases s.len() - pos, 4int,
{
    match spec_parameter(s, pos) {
        Option::None => Option::None,
        Option::Some((v, p1)) => {
            if !(pos < p1 <= s.len()) {
                Option::None
            } else {
                let after = spec_skip(s, p1);
                if after < s.len() && s[after] == 44 {
                    let next = spec_skip(s, after + 1);
                    if !(pos < next <= s.len()) {
                        Option::None
                    } else {
                        match spec_param_items(s, next) {
                            Option::Some((rest, e)) => Option::Some((seq![v] + rest, e)),
                            Option::None => Option::None,
                        }
                    }
                } else if after < s.len() && s[after] == 41 {
                    Option::Some((seq![v], after + 1))
                } else {
                    Option::None
                }
            }
        },
    }
}

/// What reading the space-separated typed parameters of a complex record
/// yields, through the closing parenthesis.
pub open spec fn spec_typed_items(s: Seq<u8>, pos: int) -> Option<(Seq<TypedParameterV>, int)>
    decreases s.len() - pos, 5int,
{
    match spec_typed_parameter(s, pos) {
        Option::None => Option::None,
        Option::Some((tp, p)) => {
            if !(pos < p <= s.len()) {
                Option::None
            } else {
                let after = spec_skip(s, p);
                if after < s.len() && s[after] == 41 {
                    Option::Some((seq![tp], after + 1))
                } else if !(pos < after <= s.len()) {
                    Option::None
                } else {
                    match spec_typed_items(s, after) {
                        Option::Some((rest, e)) => Option::Some((seq![tp] + rest, e)),
                        Option::None => Option::None,
                    }
                }
            }
        },
    }
}

/// What reading one data-section record yields.
pub open spec fn spec_entity_instance(s: Seq<u8>, pos: int) -> Option<(EntityInstanceV, int)> {
    if !(0 <= pos < s.len() && s[pos] == 35) {
        Option::None
    } else {
        match spec_integer(s, pos + 1) {
            Option::None => Option::None,
            Option::Some((id, p)) => {
                let c1 = spec_skip(s, p);
                if !(c1 < s.len() && s[c1] == 61) {
                    Option::None
                } else {
                    let c2 = spec_skip(s, c1 + 1);
                    let tail = if 0 <= c2 < s.len() && s[c2] == 40 {
                        let q = spec_skip(s, c2 + 1);
                        if !(c2 < q <= s.len()) {
                            Option::None
                        } else {
                            spec_typed_items(s, q)
                        }
                    } else {
                        match spec_typed_parameter(s, c2) {
                            Option::Some((tp, c3)) => Option::Some((seq![tp], c3)),
                            Option::None => Option::None,
                        }
                    };
                    match tail {
                        Option::Some((vals, c3)) => {
                            let c4 = spec_skip(s, c3);
                            if c4 < s.len() && s[c4] == 59 {
                                Option::Some(
                                    (
                                        EntityInstanceV { id, value: vals },
                                        spec_skip(s, c4 + 1),
                                    ),
                                )
                            } else {
                                Option::None
                            }
                        },
                        Option::None => Option::None,
                    }
                }
            },
        }
    }
}

/// What reading the header records yields, through the section end marker.
pub open spec fn spec_header_items(s: Seq<u8>, pos: int) -> Option<(Seq<TypedParameterV>, int)>
    decreases s.len() - pos,
{
    if at_marker(s, pos, "ENDSEC;".spec_bytes()) {
        Option::Some((Seq::empty(), spec_skip(s, pos + "ENDSEC;".spec_bytes().len())))
    } else {
        match spec_typed_parameter(s, pos) {
            Option::None => Option::None,
            Option::Some((tp, p)) => {
                let after = spec_skip(s, p);
                if after < s.len() && s[after] == 59 {
                    let next = spec_skip(s, after + 1);
                    if !(pos < next <= s.len()) {
                        Option::None
                    } else {
                        match spec_header_items(s, next) {
                            Option::Some((rest, e)) => Option::Some((seq![tp] + rest, e)),
                            Option::None => Option::None,
                        }
                    }
                } else {
                    Option::None
                }
            },
        }
    }
}

/// What reading the data records yields, through the section end marker.
pub open spec fn spec_data_items(s: Seq<u8>, pos: int) -> Option<(Seq<EntityInstanceV>, int)>
    decreases s.len() - pos,
{
    if at_marker(s, pos, "ENDSEC;".spec_bytes()) {
        Option::Some((Seq::empty(), spec_skip(s, pos + "ENDSEC;".spec_bytes().len())))
    } else {
        match spec_entity_instance(s, pos) {
            Option::None => Option::None,
            Option::Some((inst, p)) => {
                if !(pos < p <= s.len()) {
                    Option::None
                } else {
                    match spec_data_items(s, p) {
                        Option::Some((rest, e)) => Option::Some((seq![inst] + rest, e)),
                        Option::None => Option::None,
                    }
                }
            },
        }
    }
}

/// What parsing a whole exchange file yields: the fixed marker sequence,
/// a header of at least three typed parameters, and the data records, or
/// nothing when the input deviates anywhere.
pub open spec fn spec_exchange_file(s: Seq<u8>) -> Option<ExchangeFileV> {
    let c0 = spec_skip(s, 0);
    if !at_marker(s, c0, "ISO-10303-21;".spec_bytes()) {
        Option::None
    } else {
        let c1 = spec_skip(s, c0 + "ISO-10303-21;".spec_bytes().len());
        if !at_marker(s, c1, "HEADER;".spec_bytes()) {
            Option::None
        } else {
            let c2 = spec_skip(s, c1 + "HEADER;".spec_bytes().len());
            match spec_header_items(s, c2) {
                Option::None => Option::None,
                Option::Some((header, c3)) => {
                    if header.len() < 3 {
                        Option::None
                    } else if !at_marker(s, c3, "DATA;".spec_bytes()) {
                        Option::None
                    } else {
                        let c4 = spec_skip(s, c3 + "DATA;".spec_bytes().len());
                        match spec_data_items(s, c4) {
                            Option::None => Option::None,
                            Option::Some((data, c5)) => {
                                if at_marker(s, c5, "END-ISO-10303-21;".spec_bytes()) {
                                    Option::Some(ExchangeFileV { header, data })
                                } else {
                                    Option::None
                                }
                            },
                        }
                    }
                },
            }
        }
    }
}

/// Advances over whitespace and `/* ... */` comments; an unterminated
/// comment stops at its opener, so the surrounding parse fails there.
#[verifier::loop_isolation(false)]
fn skip_space(input: &[u8], pos: usize) -> (r: usize)
    requires
        pos <= input@.len(),
    ensures
        pos <= r <= input@.len(),
        r as int == spec_skip(input@, pos as int),
{
    let len = input.len();
    let mut i = pos;
    while i < len
        invariant
            pos <= i <= len,
            len == input@.len(),
            spec_skip(input@, pos as int) == spec_skip(input@, i as int),
        decreases len - i,
    {
        if space_byte(input[i]) {
            i = i + 1;
        } else if input[i] == 47 && i + 1 < len && input[i + 1] == 42 {
            let mut j = i + 2;
            loop
                invariant
                    i + 2 <= j <= len,
                    len == input@.len(),
                    spec_comment_close(input@, i + 2) == spec_comment_close(input@, j as int),
                decreases len - j,
            {
                if j >= len || j + 1 >= len {
                    proof {
                        assert(spec_comment_close(input@, j as int) is None);
                    }
                    return i;
                }
                if input[j] == 42 && input[j + 1] == 47 {
                    break ;
                }
                j = j + 1;
            }
            proof {
                assert(spec_comment_close(input@, i + 2) == Option::Some(j + 2));
            }
            i = j + 2;
        } else {
            return i;
        }
    }
    i
}

/// Reads an identifier: a letter followed by letters, digits, and
/// underscores.  The returned text is exactly the consumed bytes.
#[verifier::loop_isolation(false)]
fn parse_ident(input: &[u8], pos: usize) -> (r: Option<(String, usize)>)
    requires
        pos <= input@.len(),
    ensures
        match r {
            Option::Some((name, p)) => pos < p <= input@.len() && spec_ident(input@, pos as int)
                == Option::Some((name@, p as int)),
            Option::None => (spec_ident(input@, pos as int) is None),
        },
{
    let len = input.len();
    if pos >= len || !alpha_byte(input[pos]) {
        return Option::None;
    }
    let mut e = pos + 1;
    while e < len && ident_tail_byte(input[e])
        invariant
            pos < e <= len,
            len == input@.len(),
            forall|k: int| pos < k < e ==> is_ident_tail_byte(input@[k]),
            spec_ident_end(input@, pos + 1) == spec_ident_end(input@, e as int),
        decreases len - e,
    {
        e = e + 1;
    }
    proof {
        assert(spec_ident_end(input@, e as int) == e);
    }
    let bytes = take_bytes(input, pos, e);
    proof {
        assert(forall|k: int| 0 <= k < bytes@.len() ==> bytes@[k] < 128);
    }
    let name = bytes_to_string(bytes);
    Option::Some((name, e))
}

/// Reads an integer with an optional sign.  The returned value is exactly
/// the value of the consumed token.
#[verifier::loop_isolation(false)]
fn parse_integer(input: &[u8], pos: usize) -> (r: Option<(i64, usize)>)
    requires
        pos <= input@.len(),
    ensures
        match r {
            Option::Some((n, p)) => pos < p <= input@.len() && spec_integer(input@, pos as int)
                == Option::Some((n as int, p as int)),
            Option::None => (spec_integer(input@, pos as int) is None),
        },
{
    let len = input.len();
    if pos >= len {
        return Option::None;
    }
    let mut i = pos;
    let mut neg = false;
    if input[i] == 43 {
        i = i + 1;
    } else if input[i] == 45 {
        neg = true;
        i = i + 1;
    }
    match scan_digits(input, i) {
        Option::Some((v, p)) => {
            let magnitude = v as i64;
            let value: i64 = if neg {
                -magnitude
            } else {
                magnitude
            };
            Option::Some((value, p))
        },
        Option::None => Option::None,
    }
}

/// Reads an integer or real literal: a real carries a decimal point or an
/// exponent and keeps its source spelling; anything else is an integer.
#[verifier::loop_isolation(false)]
fn parse_number(input: &[u8], pos: usize) -> (r: Option<(UnTypedParameter, usize)>)
    requires
        pos <= input@.len(),
    ensures
        match r {
            Option::Some((v, p)) => pos < p <= input@.len() && spec_number(input@, pos as int)
                == Option::Some((v@, p as int)),
            Option::None => (spec_number(input@, pos as int) is None),
        },
{
    let len = input.len();
    if pos >= len {
        return Option::None;
    }
    let mut i = pos;
    if input[i] == 43 || input[i] == 45 {
        i = i + 1;
    }
    let digits_end: usize;
    match scan_digits(input, i) {
        Option::Some((_, p)) => {
            digits_end = p;
        },
        Option::None => {
            return Option::None;
        },
    }
    let mut e = digits_end;
    let mut is_real = false;
    if e < len && input[e] == 46 && e + 1 < len && digit_byte(input[e + 1]) {
        is_real = true;
        e = e + 1;
        while e < len && digit_byte(input[e])
            invariant
                pos < e <= len,
                len == input@.len(),
                spec_digits_end(input@, digits_end + 1) == spec_digits_end(input@, e as int),
            decreases len - e,
        {
            e = e + 1;
        }
        proof {
            assert(spec_digits_end(input@, e as int) == e);
            assert(spec_digits_end(input@, digits_end + 1) == spec_digits_end(
                input@,
                digits_end + 2,
            ));
            lemma_digits_end_bounds(input@, digits_end + 2);
            assert(e >= digits_end + 2);
        }
    }
    let ghost f = e as int;
    let ghost frac_real = is_real;
    proof {
        assert(frac_real == (f != digits_end as int));
    }
    if e < len && (input[e] == 101 || input[e] == 69) {
        let mut x = e + 1;
        if x < len && (input[x] == 43 || input[x] == 45) {
            x = x + 1;
        }
        if x < len && digit_byte(input[x]) {
            is_real = true;
            e = x;
            while e < len && digit_byte(input[e])
                invariant
                    pos < e <= len,
                    x <= e <= len,
                    len == input@.len(),
                    spec_digits_end(input@, x as int) == spec_digits_end(input@, e as int),
                decreases len - e,
            {
                e = e + 1;
            }
            proof {
                assert(spec_digits_end(input@, e as int) == e);
                assert(spec_digits_end(input@, x as int) == spec_digits_end(input@, x + 1));
                lemma_digits_end_bounds(input@, x + 1);
                assert(e >= x + 1);
                assert(e as int != f);
            }
        }
    }
    proof {
        assert(is_real == (frac_real || e as int != f));
    }
    if is_real {
        let mut ok = true;
        let mut k = pos;
        while k < e
            invariant
                pos <= k <= e <= len,
                len == input@.len(),
                ok ==> forall|j: int| pos <= j < k ==> input@[j] < 128,
                !ok ==> exists|j: int| pos <= j < k && input@[j] >= 128,
            decreases e - k,
        {
            if input[k] >= 128 {
                ok = false;
            }
            k = k + 1;
        }
        if !ok {
            return Option::None;
        }
        let bytes = take_bytes(input, pos, e);
        let text = bytes_to_string(bytes);
        Option::Some((UnTypedParameter::Real(text), e))
    } else {
        match parse_integer(input, pos) {
            Option::Some((n, p)) => Option::Some((UnTypedParameter::Integer(n), p)),
            Option::None => Option::None,
        }
    }
}

/// What decoding a string body from the position yields: the decoded
/// bytes and the position after the closing quote, or nothing when the
/// string is unterminated, holds an unknown escape, or holds a non-ASCII
/// byte.
pub open spec fn spec_string_body(s: Seq<u8>, pos: int) -> Option<(Seq<u8>, int)>
    decreases s.len() - pos,
{
    if pos < 0 || pos >= s.len() {
        Option::None
    } else if s[pos] == 39 {
        if pos + 1 < s.len() && s[pos + 1] == 39 {
            match spec_string_body(s, pos + 2) {
                Option::Some((rest, e)) => Option::Some((seq![39u8] + rest, e)),
                Option::None => Option::None,
            }
        } else {
            Option::Some((Seq::empty(), pos + 1))
        }
    } else if s[pos] == 92 {
        if pos + 1 < s.len() {
            let c = s[pos + 1];
            let decoded: u8 = if c == 92 {
                92
            } else if c == 98 {
                8
            } else if c == 102 {
                12
            } else if c == 110 {
                10
            } else if c == 114 {
                13
            } else {
                9
            };
            if c == 92 || c == 98 || c == 102 || c == 110 || c == 114 || c == 116 {
                match spec_string_body(s, pos + 2) {
                    Option::Some((rest, e)) => Option::Some((seq![decoded] + rest, e)),
                    Option::None => Option::None,
                }
            } else {
                Option::None
            }
        } else {
            Option::None
        }
    } else if s[pos] < 128 {
        match spec_string_body(s, pos + 1) {
            Option::Some((rest, e)) => Option::Some((seq![s[pos]] + rest, e)),
            Option::None => Option::None,
        }
    } else {
        Option::None
    }
}

/// Reads a string literal: quote-delimited, a doubled quote standing for
/// one quote, backslash escapes for common control characters.  The
/// returned text is exactly the decoded body.
#[verifier::loop_isolation(false)]
fn parse_string(input: &[u8], pos: usize) -> (r: Option<(String, usize)>)
    requires
        pos <= input@.len(),
    ensures
        match r {
            Option::Some((s, p)) => pos < p <= input@.len() && spec_string(input@, pos as int)
                == Option::Some((s@, p as int)),
            Option::None => (spec_string(input@, pos as int) is None),
        },
{
    let len = input.len();
    if pos >= len || input[pos] != 39 {
        return Option::None;
    }
    let mut out: Vec<u8> = Vec::new();
    let mut i = pos + 1;
    while i < len
        invariant
            pos < i <= len,
            len == input@.len(),
            forall|k: int| 0 <= k < out@.len() ==> out@[k] < 128,
            spec_string_body(input@, pos + 1) matches Option::Some((body, e))
                ==> spec_string_body(input@, i as int) matches Option::Some((rest, e2)) && body
                == out@ + rest && e == e2,
            (spec_string_body(input@, pos + 1) is None) ==> (spec_string_body(input@, i as int)
                is None),
        decreases len - i,
    {
        let b = input[i];
        if b == 39 {
            if i + 1 < len && input[i + 1] == 39 {
                let ghost prev = out@;
                out.push(39);
                proof {
                    assert(out@ =~= prev + seq![39u8]);
                    if spec_string_body(input@, i as int) is Some {
                        let rest = spec_string_body(input@, i as int)->Some_0.0;
                        let rest2 = spec_string_body(input@, i + 2)->Some_0.0;
                        assert(rest =~= seq![39u8] + rest2);
                        assert(prev + rest =~= out@ + rest2);
                    }
                }
                i = i + 2;
            } else {
                let s = bytes_to_string(out);
                proof {
                    assert(spec_string_body(input@, i as int) == Option::Some(
                        (Seq::<u8>::empty(), i + 1),
                    ));
                    if spec_string_body(input@, pos + 1) is Some {
                        let body = spec_string_body(input@, pos + 1)->Some_0.0;
                        assert(body =~= out@);
                    }
                }
                return Option::Some((s, i + 1));
            }
        } else if b == 92 {
            if i + 1 >= len {
                return Option::None;
            }
            let c = input[i + 1];
            let decoded: u8;
            if c == 92 {
                decoded = 92;
            } else if c == 98 {
                decoded = 8;
            } else if c == 102 {
                decoded = 12;
            } else if c == 110 {
                decoded = 10;
            } else if c == 114 {
                decoded = 13;
            } else if c == 116 {
                decoded = 9;
            } else {
                return Option::None;
            }
            let ghost prev = out@;
            out.push(decoded);
            proof {
                assert(out@ =~= prev + seq![decoded]);
                if spec_string_body(input@, i as int) is Some {
                    let rest = spec_string_body(input@, i as int)->Some_0.0;
                    let rest2 = spec_string_body(input@, i + 2)->Some_0.0;
                    assert(rest =~= seq![decoded] + rest2);
                    assert(prev + rest =~= out@ + rest2);
                }
            }
            i = i + 2;
        } else if b < 128 {
            let ghost prev = out@;
            out.push(b);
            proof {
                assert(out@ =~= prev + seq![b]);
                if spec_string_body(input@, i as int) is Some {
                    let rest = spec_string_body(input@, i as int)->Some_0.0;
                    let rest2 = spec_string_body(input@, i + 1)->Some_0.0;
                    assert(rest =~= seq![b] + rest2);
                    assert(prev + rest =~= out@ + rest2);
                }
            }
            i = i + 1;
        } else {
            return Option::None;
        }
    }
    Option::None
}

/// Reads an enumeration value: an identifier between dots.  The returned
/// text is exactly the identifier between the dots.
#[verifier::loop_isolation(false)]
fn parse_enum_value(input: &[u8], pos: usize) -> (r: Option<(String, usize)>)
    requires
        pos <= input@.len(),
    ensures
        match r {
            Option::Some((s, p)) => pos < p <= input@.len() && spec_enum_value(input@, pos as int)
                == Option::Some((s@, p as int)),
            Option::None => (spec_enum_value(input@, pos as int) is None),
        },
{
    let len = input.len();
    if pos >= len || input[pos] != 46 {
        return Option::None;
    }
    match parse_ident(input, pos + 1) {
        Option::Some((name, p)) => {
            if p < len && input[p] == 46 {
                Option::Some((name, p + 1))
            } else {
                Option::None
            }
        },
        Option::None => Option::None,
    }
}

/// Reads a binary value: recognized syntactically, kept opaque.
#[verifier::loop_isolation(false)]
fn parse_binary(input: &[u8], pos: usize) -> (r: Option<usize>)
    requires
        pos <= input@.len(),
    ensures
        match r {
            Option::Some(p) => pos < p <= input@.len() && spec_binary(input@, pos as int)
                == Option::Some(p as int),
            Option::None => (spec_binary(input@, pos as int) is None),
        },
{
    let len = input.len();
    if pos >= len || input[pos] != 34 {
        return Option::None;
    }
    if pos + 1 >= len {
        return Option::None;
    }
    let b = input[pos + 1];
    if !(48 <= b && b <= 51) {
        return Option::None;
    }
    let mut i = pos + 2;
    while i < len && hex_byte(input[i])
        invariant
            pos + 2 <= i <= len,
            len == input@.len(),
            spec_hex_end(input@, pos + 2) == spec_hex_end(input@, i as int),
        decreases len - i,
    {
        i = i + 1;
    }
    proof {
        assert(spec_hex_end(input@, i as int) == i);
    }
    if i < len && input[i] == 34 {
        Option::Some(i + 1)
    } else {
        Option::None
    }
}

/// Reads one parameter: a typed constructor, a bare value, or the omitted
/// mark `*`.
#[verifier::loop_isolation(false)]
fn parse_parameter(input: &[u8], pos: usize) -> (r: Option<(Parameter, usize)>)
    requires
        pos <= input@.len(),
    ensures
        match r {
            Option::Some((v, p)) => pos < p <= input@.len() && spec_parameter(input@, pos as int)
                == Option::Some((v@, p as int)),
            Option::None => (spec_parameter(input@, pos as int) is None),
        },
    decreases input@.len() - pos, 2int,
{
    let len = input.len();
    if pos >= len {
        return Option::None;
    }
    let b = input[pos];
    if b == 42 {
        return Option::Some((Parameter::OmittedParameter, pos + 1));
    }
    if alpha_byte(b) {
        match parse_typed_parameter(input, pos) {
            Option::Some((tp, p)) => {
                return Option::Some((Parameter::TypedParameter(tp), p));
            },
            Option::None => {
                return Option::None;
            },
        }
    }
    match parse_untyped_parameter(input, pos) {
        Option::Some((v, p)) => Option::Some((Parameter::UnTypedParameter(v), p)),
        Option::None => Option::None,
    }
}

/// Reads a parenthesized, comma-separated, possibly empty parameter list.
#[verifier::loop_isolation(false)]
fn parse_parameter_list(input: &[u8], pos: usize) -> (r: Option<(Vec<Parameter>, usize)>)
    requires
        pos <= input@.len(),
    ensures
        match r {
            Option::Some((v, p)) => pos < p <= input@.len() && spec_parameter_list(
                input@,
                pos as int,
            ) == Option::Some((parameters_view(v@), p as int)),
            Option::None => (spec_parameter_list(input@, pos as int) is None),
        },
    decreases input@.len() - pos, 0int,
{
    let len = input.len();
    if pos >= len || input[pos] != 40 {
        return Option::None;
    }
    let mut items: Vec<Parameter> = Vec::new();
    let mut cur = skip_space(input, pos + 1);
    if cur < len && input[cur] == 41 {
        proof {
            assert(parameters_view(items@) =~= Seq::<ParameterV>::empty());
        }
        return Option::Some((items, cur + 1));
    }
    let ghost q = cur as int;
    loop
        invariant
            pos < cur <= len,
            len == input@.len(),
            spec_param_items(input@, q) matches Option::Some(w) ==> (spec_param_items(
                input@,
                cur as int,
            ) matches Option::Some(w2) && w.0 == parameters_view(items@) + w2.0 && w.1 == w2.1),
            (spec_param_items(input@, q) is None) ==> (spec_param_items(input@, cur as int)
                is None),
        decreases len - cur,
    {
        match parse_parameter(input, cur) {
            Option::Some((v, p)) => {
                let ghost prev = items@;
                items.push(v);
                proof {
                    assert(parameters_view(items@) =~= parameters_view(prev).push(v@));
                }
                let after = skip_space(input, p);
                if after < len && input[after] == 44 {
                    let next = skip_space(input, after + 1);
                    if next > cur {
                        proof {
                            if spec_param_items(input@, next as int) is Some {
                                let w2 = spec_param_items(input@, next as int)->Some_0;
                                assert(spec_param_items(input@, cur as int) == Option::Some(
                                    (seq![v@] + w2.0, w2.1),
                                ));
                                assert(parameters_view(prev) + (seq![v@] + w2.0)
                                    =~= parameters_view(items@) + w2.0);
                            }
                        }
                        cur = next;
                    } else {
                        return Option::None;
                    }
                } else if after < len && input[after] == 41 {
                    proof {
                        assert(spec_param_items(input@, cur as int) == Option::Some(
                            (seq![v@], after + 1),
                        ));
                        assert(parameters_view(prev) + seq![v@] =~= parameters_view(items@));
                    }
                    return Option::Some((items, after + 1));
                } else {
                    return Option::None;
                }
            },
            Option::None => {
                return Option::None;
            },
        }
    }
}

/// Reads a typed parameter: a type name applied to a parameter list.
#[verifier::loop_isolation(false)]
fn parse_typed_parameter(input: &[u8], pos: usize) -> (r: Option<(TypedParameter, usize)>)
    requires
        pos <= input@.len(),
    ensures
        match r {
            Option::Some((tp, p)) => pos < p <= input@.len() && spec_typed_parameter(
                input@,
                pos as int,
            ) == Option::Some((tp@, p as int)),
            Option::None => (spec_typed_parameter(input@, pos as int) is None),
        },
    decreases input@.len() - pos, 1int,
{
    match parse_ident(input, pos) {
        Option::Some((name, p1)) => {
            let p2 = skip_space(input, p1);
            match parse_parameter_list(input, p2) {
                Option::Some((parameters, p3)) => Option::Some(
                    (TypedParameter { name, parameters }, p3),
                ),
                Option::None => Option::None,
            }
        },
        Option::None => Option::None,
    }
}

/// Reads a bare parameter value.
#[verifier::loop_isolation(false)]
fn parse_untyped_parameter(input: &[u8], pos: usize) -> (r: Option<(UnTypedParameter, usize)>)
    requires
        pos <= input@.len(),
    ensures
        match r {
            Option::Some((v, p)) => pos < p <= input@.len() && spec_untyped_parameter(
                input@,
                pos as int,
            ) == Option::Some((v@, p as int)),
            Option::None => (spec_untyped_parameter(input@, pos as int) is None),
        },
    decreases input@.len() - pos, 1int,
{
    let len = input.len();
    if pos >= len {
        return Option::None;
    }
    let b = input[pos];
    if b == 40 {
        match parse_parameter_list(input, pos) {
            Option::Some((items, p)) => {
                proof {
                    assert(UnTypedParameter::List(items)@ == UnTypedParameterV::List(
                        parameters_view(items@),
                    ));
                }
                Option::Some((UnTypedParameter::List(items), p))
            },
            Option::None => Option::None,
        }
    } else if b == 46 {
        match parse_enum_value(input, pos) {
            Option::Some((v, p)) => Option::Some((UnTypedParameter::EnumValue(v), p)),
            Option::None => Option::None,
        }
    } else if b == 35 {
        if pos + 1 < len && digit_byte(input[pos + 1]) {
            match parse_integer(input, pos + 1) {
                Option::Some((id, p)) => Option::Some((UnTypedParameter::EntityRef(id), p)),
                Option::None => Option::None,
            }
        } else {
            match parse_ident(input, pos + 1) {
                Option::Some((name, p)) => Option::Some((UnTypedParameter::ConstantRef(name), p)),
                Option::None => Option::None,
            }
        }
    } else if b == 39 {
        match parse_string(input, pos) {
            Option::Some((s, p)) => Option::Some((UnTypedParameter::String(s), p)),
            Option::None => Option::None,
        }
    } else if b == 34 {
        match parse_binary(input, pos) {
            Option::Some(p) => Option::Some((UnTypedParameter::Binary, p)),
            Option::None => Option::None,
        }
    } else if b == 36 {
        Option::Some((UnTypedParameter::Null, pos + 1))
    } else {
        parse_number(input, pos)
    }
}

/// Reads one data-section record: `#id = value(s) ;` where the value is a
/// single typed parameter or a parenthesized run of them.
#[verifier::loop_isolation(false)]
fn parse_entity_instance(input: &[u8], pos: usize) -> (r: Option<(EntityInstance, usize)>)
    requires
        pos <= input@.len(),
    ensures
        match r {
            Option::Some((inst, p)) => pos < p <= input@.len() && inst.value@.len() >= 1
                && spec_entity_instance(input@, pos as int) == Option::Some((inst@, p as int)),
            Option::None => (spec_entity_instance(input@, pos as int) is None),
        },
{
    let len = input.len();
    if pos >= len || input[pos] != 35 {
        return Option::None;
    }
    let id: i64;
    let mut cur: usize;
    match parse_integer(input, pos + 1) {
        Option::Some((n, p)) => {
            id = n;
            cur = p;
        },
        Option::None => {
            return Option::None;
        },
    }
    cur = skip_space(input, cur);
    if !(cur < len && input[cur] == 61) {
        return Option::None;
    }
    cur = skip_space(input, cur + 1);
    let ghost c2 = cur as int;
    let mut value: Vec<TypedParameter> = Vec::new();
    if cur < len && input[cur] == 40 {
        let mut inner = skip_space(input, cur + 1);
        let ghost q = inner as int;
        loop
            invariant
                pos < inner <= len,
                cur <= len,
                len == input@.len(),
                spec_typed_items(input@, q) matches Option::Some(w) ==> (spec_typed_items(
                    input@,
                    inner as int,
                ) matches Option::Some(w2) && w.0 == typed_parameters_view(value@) + w2.0 && w.1
                    == w2.1),
                (spec_typed_items(input@, q) is None) ==> (spec_typed_items(input@, inner as int)
                    is None),
            decreases len - inner,
        {
            match parse_typed_parameter(input, inner) {
                Option::Some((tp, p)) => {
                    let ghost prev = value@;
                    value.push(tp);
                    proof {
                        assert(typed_parameters_view(value@) =~= typed_parameters_view(
                            prev,
                        ).push(tp@));
                    }
                    let after = skip_space(input, p);
                    if after < len && input[after] == 41 {
                        proof {
                            assert(spec_typed_items(input@, inner as int) == Option::Some(
                                (seq![tp@], after + 1),
                            ));
                            assert(typed_parameters_view(prev) + seq![tp@]
                                =~= typed_parameters_view(value@));
                        }
                        cur = after + 1;
                        break ;
                    }
                    if after > inner {
                        proof {
                            if spec_typed_items(input@, after as int) is Some {
                                let w2 = spec_typed_items(input@, after as int)->Some_0;
                                assert(spec_typed_items(input@, inner as int) == Option::Some(
                                    (seq![tp@] + w2.0, w2.1),
                                ));
                                assert(typed_parameters_view(prev) + (seq![tp@] + w2.0)
                                    =~= typed_parameters_view(value@) + w2.0);
                            }
                        }
                        inner = after;
                    } else {
                        return Option::None;
                    }
                },
                Option::None => {
                    return Option::None;
                },
            }
        }
        if value.len() == 0 {
            return Option::None;
        }
    } else {
        match parse_typed_parameter(input, cur) {
            Option::Some((tp, p)) => {
                value.push(tp);
                proof {
                    assert(typed_parameters_view(value@) =~= seq![tp@]);
                }
                cur = p;
            },
            Option::None => {
                return Option::None;
            },
        }
    }
    cur = skip_space(input, cur);
    if cur < len && input[cur] == 59 {
        let e = skip_space(input, cur + 1);
        proof {
            assert(EntityInstance { id, value }@ == EntityInstanceV {
                id: id as int,
                value: typed_parameters_view(value@),
            });
        }
        Option::Some((EntityInstance { id, value }, e))
    } else {
        Option::None
    }
}

/// Whether the input carries the given marker at the position, byte for
/// byte.
#[verifier::loop_isolation(false)]
fn expect_marker(input: &[u8], pos: usize, marker: &str) -> (r: Option<usize>)
    requires
        pos <= input@.len(),
    ensures
        match r {
            Option::Some(p) => pos <= p <= input@.len() && p == pos + marker.spec_bytes().len()
                && input@.subrange(pos as int, p as int) == marker.spec_bytes(),
            Option::None => !(pos + marker.spec_bytes().len() <= input@.len() && input@.subrange(
                pos as int,
                pos + marker.spec_bytes().len(),
            ) == marker.spec_bytes()),
        },
{
    let mbytes = marker.as_bytes();
    let n = mbytes.len();
    if n > input.len() - pos {
        return Option::None;
    }
    let mut i: usize = 0;
    while i < n
        invariant
            i <= n,
            n == mbytes@.len(),
            pos + n <= input@.len(),
            forall|k: int| 0 <= k < i ==> input@[pos + k] == mbytes@[k],
        decreases n - i,
    {
        if input[pos + i] != mbytes[i] {
            proof {
                if input@.subrange(pos as int, pos + n) == mbytes@ {
                    assert(input@.subrange(pos as int, pos + n)[i as int] == input@[pos + i]);
                }
            }
            return Option::None;
        }
        i = i + 1;
    }
    proof {
        assert(input@.subrange(pos as int, pos + n) =~= mbytes@);
    }
    Option::Some(pos + n)
}

/// Parses a whole exchange file: the fixed marker sequence, a header of at
/// least three typed parameters, and the data records.  The result is
/// exactly what the grammar assigns to the input; a structural failure
/// anywhere aborts the parse with the position reached.  The input is
/// read as ASCII: a string literal holding a byte outside ASCII is a
/// parse error at that string.
#[verifier::loop_isolation(false)]
pub fn exchange_file(input: &[u8]) -> (r: Result<ExchangeFile, ParseError>)
    ensures
        match r {
            Result::Ok(file) => file.header@.len() >= 3 && (forall|k: int|
                0 <= k < file.data@.len() ==> (#[trigger] file.data@[k]).value@.len() >= 1)
                && spec_exchange_file(input@) == Option::Some(file@),
            Result::Err(e) => (spec_exchange_file(input@) is None) && e.position <= input@.len(),
        },
{
    let len = input.len();
    let mut cur = skip_space(input, 0);
    match expect_marker(input, cur, "ISO-10303-21;") {
        Option::Some(p) => {
            cur = skip_space(input, p);
        },
        Option::None => {
            return Result::Err(ParseError { position: cur });
        },
    }
    match expect_marker(input, cur, "HEADER;") {
        Option::Some(p) => {
            cur = skip_space(input, p);
        },
        Option::None => {
            return Result::Err(ParseError { position: cur });
        },
    }
    let ghost h0 = cur as int;
    let mut header: Vec<TypedParameter> = Vec::new();
    loop
        invariant
            cur <= len,
            len == input@.len(),
            spec_header_items(input@, h0) matches Option::Some(w) ==> (spec_header_items(
                input@,
                cur as int,
            ) matches Option::Some(w2) && w.0 == typed_parameters_view(header@) + w2.0 && w.1
                == w2.1),
            (spec_header_items(input@, h0) is None) ==> (spec_header_items(input@, cur as int)
                is None),
        decreases len - cur,
    {
        match expect_marker(input, cur, "ENDSEC;") {
            Option::Some(p) => {
                let e = skip_space(input, p);
                proof {
                    assert(spec_header_items(input@, cur as int) == Option::Some(
                        (Seq::<TypedParameterV>::empty(), e as int),
                    ));
                    if spec_header_items(input@, h0) is Some {
                        let w = spec_header_items(input@, h0)->Some_0;
                        assert(typed_parameters_view(header@) + Seq::<TypedParameterV>::empty()
                            =~= typed_parameters_view(header@));
                    }
                }
                cur = e;
                break ;
            },
            Option::None => {},
        }
        match parse_typed_parameter(input, cur) {
            Option::Some((tp, p)) => {
                let ghost prev = header@;
                header.push(tp);
                proof {
                    assert(typed_parameters_view(header@) =~= typed_parameters_view(prev).push(
                        tp@,
                    ));
                }
                let after = skip_space(input, p);
                if after < len && input[after] == 59 {
                    let next = skip_space(input, after + 1);
                    proof {
                        if spec_header_items(input@, next as int) is Some {
                            let w2 = spec_header_items(input@, next as int)->Some_0;
                            assert(spec_header_items(input@, cur as int) == Option::Some(
                                (seq![tp@] + w2.0, w2.1),
                            ));
                            assert(typed_parameters_view(prev) + (seq![tp@] + w2.0)
                                =~= typed_parameters_view(header@) + w2.0);
                        }
                    }
                    cur = next;
                } else {
                    return Result::Err(ParseError { position: after });
                }
            },
            Option::None => {
                return Result::Err(ParseError { position: cur });
            },
        }
    }
    if header.len() < 3 {
        return Result::Err(ParseError { position: cur });
    }
    match expect_marker(input, cur, "DATA;") {
        Option::Some(p) => {
            cur = skip_space(input, p);
        },
        Option::None => {
            return Result::Err(ParseError { position: cur });
        },
    }
    let ghost d0 = cur as int;
    let mut data: Vec<EntityInstance> = Vec::new();
    loop
        invariant
            cur <= len,
            len == input@.len(),
            header@.len() >= 3,
            forall|k: int| 0 <= k < data@.len() ==> (#[trigger] data@[k]).value@.len() >= 1,
            spec_data_items(input@, d0) matches Option::Some(w) ==> (spec_data_items(
                input@,
                cur as int,
            ) matches Option::Some(w2) && w.0 == data.deep_view() + w2.0 && w.1 == w2.1),
            (spec_data_items(input@, d0) is None) ==> (spec_data_items(input@, cur as int)
                is None),
        decreases len - cur,
    {
        match expect_marker(input, cur, "ENDSEC;") {
            Option::Some(p) => {
                let e = skip_space(input, p);
                proof {
                    assert(spec_data_items(input@, cur as int) == Option::Some(
                        (Seq::<EntityInstanceV>::empty(), e as int),
                    ));
                    if spec_data_items(input@, d0) is Some {
                        assert(data.deep_view() + Seq::<EntityInstanceV>::empty()
                            =~= data.deep_view());
                    }
                }
                cur = e;
                break ;
            },
            Option::None => {},
        }
        match parse_entity_instance(input, cur) {
            Option::Some((inst, p)) => {
                let ghost prev = data.deep_view();
                data.push(inst);
                proof {
                    assert(data.deep_view() =~= prev.push(inst@));
                    if spec_data_items(input@, p as int) is Some {
                        let w2 = spec_data_items(input@, p as int)->Some_0;
                        assert(spec_data_items(input@, cur as int) == Option::Some(
                            (seq![inst@] + w2.0, w2.1),
                        ));
                        assert(prev + (seq![inst@] + w2.0) =~= data.deep_view() + w2.0);
                    }
                }
                cur = p;
            },
            Option::None => {
                return Result::Err(ParseError { position: cur });
            },
        }
    }
    match expect_marker(input, cur, "END-ISO-10303-21;") {
        Option::Some(_) => {
            let file = ExchangeFile { header, data };
            proof {
                assert(file@.header =~= typed_parameters_view(file.header@));
                assert(file@.data =~= file.data.deep_view());
            }
            Result::Ok(file)
        },
        Option::None => Result::Err(ParseError { position: cur }),
    }
}

} // verus!

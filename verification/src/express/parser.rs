use vstd::prelude::*;
use vstd::string::StringSliceAdditionalSpecFns;
use crate::scan::{
    alpha_byte, ascii_chars, bytes_to_string, digit_byte, hex_byte, ident_tail_byte,
    is_alpha_byte, is_digit_byte, is_hex_byte, is_ident_tail_byte, is_space_byte,
    lemma_digits_end_bounds, scan_digits, space_byte, spec_digits, spec_digits_end, spec_integer,
    take_bytes,
};
use crate::step::ParseError;
use super::datatype::{BoundSpec, DataType, DataTypeV};
use super::declaration::{
    Attribute, AttributeReference, AttributeV, Constant, Declaration, DeclarationV,
    DerivedAttribute, DomainRule, Entity, EntityV, Function, Parameter, Statement, TypeDef,
    TypeDefV, UniqueRule,
};
use super::expression::{
    Accessor, Expression, Factor, Literal, LiteralV, Operator, Primary, QualifiedAccess,
    SimpleExpression, SimpleFactor, Term,
};
use super::schema::Schema;

verus! {


/// The position just after the `*)` that closes a bracketed remark
/// scanned from the position at the given nesting depth, if any.
pub open spec fn spec_remark_close(s: Seq<u8>, p: int, depth: nat) -> Option<int>
    decreases s.len() - p, depth,
{
    if depth == 0 {
        Option::Some(p)
    } else if p < 0 || p >= s.len() {
        Option::None
    } else if s[p] == 40 && p + 1 < s.len() && s[p + 1] == 42 {
        spec_remark_close(s, p + 2, depth + 1)
    } else if s[p] == 42 && p + 1 < s.len() && s[p + 1] == 41 {
        spec_remark_close(s, p + 2, (depth - 1) as nat)
    } else {
        spec_remark_close(s, p + 1, depth)
    }
}

/// The end of the line-tail remark starting at the position.
pub open spec fn spec_line_end(s: Seq<u8>, p: int) -> int
    decreases s.len() - p,
{
    if p < 0 || p >= s.len() {
        p
    } else if s[p] == 10 || s[p] == 13 {
        p
    } else {
        spec_line_end(s, p + 1)
    }
}

/// The position after whitespace, line-tail remarks, and nestable
/// bracketed remarks; an unterminated bracketed remark stops at its
/// opener.
pub open spec fn spec_skip(s: Seq<u8>, pos: int) -> int
    decreases s.len() - pos,
{
    if pos < 0 || pos >= s.len() {
        pos
    } else if is_space_byte(s[pos]) {
        spec_skip(s, pos + 1)
    } else if s[pos] == 45 && pos + 1 < s.len() && s[pos + 1] == 45 {
        let e = spec_line_end(s, pos + 2);
        if pos < e <= s.len() {
            spec_skip(s, e)
        } else {
            pos
        }
    } else if s[pos] == 40 && pos + 1 < s.len() && s[pos + 1] == 42 {
        match spec_remark_close(s, pos + 2, 1) {
            Option::Some(e) => if pos < e <= s.len() {
                spec_skip(s, e)
            } else {
                pos
            },
            Option::None => pos,
        }
    } else {
        pos
    }
}

/// The case-folded form of an ASCII byte.
pub open spec fn lower_byte(b: u8) -> u8 {
    if 65 <= b <= 90 {
        (b + 32) as u8
    } else {
        b
    }
}

/// Whether the keyword stands at the position: its bytes match under case
/// folding and no identifier character follows, so a keyword never
/// extends into a longer identifier.
pub open spec fn spec_keyword(s: Seq<u8>, pos: int, m: Seq<u8>) -> Option<int> {
    if 0 <= pos && m.len() > 0 && pos + m.len() <= s.len() && (forall|k: int|
        0 <= k < m.len() ==> lower_byte(s[pos + k]) == lower_byte(#[trigger] m[k])) && (pos
        + m.len() == s.len() || !is_ident_tail_byte(s[pos + m.len()])) {
        Option::Some(pos + m.len())
    } else {
        Option::None
    }
}

/// The end of the identifier-tail run starting at the position.
pub open spec fn spec_ident_end(s: Seq<u8>, p: int) -> int
    decreases s.len() - p,
{
    if p < 0 || p >= s.len() {
        p
    } else if is_ident_tail_byte(s[p]) {
        spec_ident_end(s, p + 1)
    } else {
        p
    }
}

/// What reading an identifier yields: its characters and end position.
pub open spec fn spec_ident(s: Seq<u8>, pos: int) -> Option<(Seq<char>, int)> {
    if 0 <= pos < s.len() && is_alpha_byte(s[pos]) {
        let e = spec_ident_end(s, pos + 1);
        Option::Some((ascii_chars(s.subrange(pos, e)), e))
    } else {
        Option::None
    }
}

/// Advances over whitespace, `--` line-tail remarks, and nestable
/// `(* ... *)` remarks; an unterminated bracketed remark stops at its
/// opener, so the surrounding parse fails there.
#[verifier::loop_isolation(false)]
fn skip_space(input: &[u8], pos: usize) -> (r: usize)
    requires
        pos <= input@.len(),
    ensures
        pos <= r <= input@.len(),
        r as int == spec_skip(input@, pos as int),
{
    let len = input.len();
    let mut i = pos;
    while i < len
        invariant
            pos <= i <= len,
            len == input@.len(),
            spec_skip(input@, pos as int) == spec_skip(input@, i as int),
        decreases len - i,
    {
        if space_byte(input[i]) {
            i = i + 1;
        } else if input[i] == 45 && i + 1 < len && input[i + 1] == 45 {
            let mut j = i + 2;
            while j < len && input[j] != 10 && input[j] != 13
                invariant
                    i + 2 <= j <= len,
                    spec_line_end(input@, i + 2) == spec_line_end(input@, j as int),
                decreases len - j,
            {
                j = j + 1;
            }
            proof {
                assert(spec_line_end(input@, j as int) == j);
            }
            i = j;
        } else if input[i] == 40 && i + 1 < len && input[i + 1] == 42 {
            let mut depth: usize = 1;
            let mut j = i + 2;
            while depth > 0
                invariant
                    i + 2 <= j <= len,
                    depth <= j,
                    spec_remark_close(input@, i + 2, 1) == spec_remark_close(
                        input@,
                        j as int,
                        depth as nat,
                    ),
                decreases len - j, depth,
            {
                if j >= len {
                    proof {
                        assert(spec_remark_close(input@, j as int, depth as nat) is None);
                    }
                    return i;
                }
                if input[j] == 40 && j + 1 < len && input[j + 1] == 42 {
                    depth = depth + 1;
                    j = j + 2;
                } else if input[j] == 42 && j + 1 < len && input[j + 1] == 41 {
                    depth = depth - 1;
                    j = j + 2;
                } else {
                    proof {
                        if j + 1 >= len && input@[j as int] == 40 {
                            assert(spec_remark_close(input@, j as int, depth as nat)
                                == spec_remark_close(input@, j + 1, depth as nat));
                        }
                    }
                    j = j + 1;
                }
            }
            proof {
                assert(spec_remark_close(input@, i + 2, 1) == Option::Some(j as int));
            }
            i = j;
        } else {
            return i;
        }
    }
    i
}

/// Reads an identifier.  The returned text is exactly the consumed bytes.
#[verifier::loop_isolation(false)]
fn parse_ident(input: &[u8], pos: usize) -> (r: Option<(String, usize)>)
    requires
        pos <= input@.len(),
    ensures
        match r {
            Option::Some((name, p)) => pos < p <= input@.len() && spec_ident(input@, pos as int)
                == Option::Some((name@, p as int)),
            Option::None => (spec_ident(input@, pos as int) is None),
        },
{
    let len = input.len();
    if pos >= len || !alpha_byte(input[pos]) {
        return Option::None;
    }
    let mut e = pos + 1;
    while e < len && ident_tail_byte(input[e])
        invariant
            pos < e <= len,
            forall|k: int| pos < k < e ==> is_ident_tail_byte(input@[k]),
            spec_ident_end(input@, pos + 1) == spec_ident_end(input@, e as int),
        decreases len - e,
    {
        e = e + 1;
    }
    proof {
        assert(spec_ident_end(input@, e as int) == e);
    }
    let bytes = take_bytes(input, pos, e);
    proof {
        assert(forall|k: int| 0 <= k < bytes@.len() ==> bytes@[k] < 128);
    }
    let name = bytes_to_string(bytes);
    Option::Some((name, e))
}

/// Matches the given keyword case-insensitively; a keyword never extends
/// into a longer identifier.  A match consumes exactly the keyword's
/// bytes, each equal to the keyword's under case folding.
#[verifier::loop_isolation(false)]
fn keyword(input: &[u8], pos: usize, kw: &str) -> (r: Option<usize>)
    requires
        pos <= input@.len(),
    ensures
        match r {
            Option::Some(p) => pos < p <= input@.len() && spec_keyword(
                input@,
                pos as int,
                kw.spec_bytes(),
            ) == Option::Some(p as int),
            Option::None => (spec_keyword(input@, pos as int, kw.spec_bytes()) is None),
        },
{
    let len = input.len();
    let kb = kw.as_bytes();
    let n = kb.len();
    if n == 0 || n > len - pos {
        return Option::None;
    }
    let mut i: usize = 0;
    while i < n
        invariant
            i <= n,
            n == kb@.len(),
            pos + n <= len,
            forall|k: int| 0 <= k < i ==> lower_byte(input@[pos + k]) == lower_byte(kb@[k]),
        decreases n - i,
    {
        let mut b = input[pos + i];
        if 65 <= b && b <= 90 {
            b = b + 32;
        }
        let mut k = kb[i];
        if 65 <= k && k <= 90 {
            k = k + 32;
        }
        if b != k {
            proof {
                assert(lower_byte(input@[pos + i]) != lower_byte(kb@[i as int]));
            }
            return Option::None;
        }
        i = i + 1;
    }
    if pos + n < len && ident_tail_byte(input[pos + n]) {
        return Option::None;
    }
    Option::Some(pos + n)
}

/// Reads an integer literal.  The returned value is exactly the value of
/// the consumed token.
fn parse_integer(input: &[u8], pos: usize) -> (r: Option<(i64, usize)>)
    requires
        pos <= input@.len(),
    ensures
        match r {
            Option::Some((n, p)) => pos < p <= input@.len() && spec_integer(input@, pos as int)
                == Option::Some((n as int, p as int)),
            Option::None => (spec_integer(input@, pos as int) is None),
        },
{
    let len = input.len();
    if pos >= len {
        return Option::None;
    }
    let mut i = pos;
    let mut neg = false;
    if input[i] == 43 {
        i = i + 1;
    } else if input[i] == 45 {
        neg = true;
        i = i + 1;
    }
    match scan_digits(input, i) {
        Option::Some((v, p)) => {
            let magnitude = v as i64;
            let value: i64 = if neg {
                -magnitude
            } else {
                magnitude
            };
            Option::Some((value, p))
        },
        Option::None => Option::None,
    }
}

/// Reads a number literal: an integer, or a real kept as its spelling
/// when a decimal point or exponent is present.
#[verifier::loop_isolation(false)]
fn parse_number_literal(input: &[u8], pos: usize) -> (r: Option<(Literal, usize)>)
    requires
        pos <= input@.len(),
    ensures
        match r {
            Option::Some((v, p)) => pos < p <= input@.len() && spec_number_literal(
                input@,
                pos as int,
            ) == Option::Some((v@, p as int)),
            Option::None => (spec_number_literal(input@, pos as int) is None),
        },
{
    let len = input.len();
    if pos >= len {
        return Option::None;
    }
    let mut i = pos;
    if input[i] == 43 || input[i] == 45 {
        i = i + 1;
    }
    let digits_end: usize;
    match scan_digits(input, i) {
        Option::Some((_, p)) => {
            digits_end = p;
        },
        Option::None => {
            return Option::None;
        },
    }
    let mut e = digits_end;
    let mut is_real = false;
    if e < len && input[e] == 46 && e + 1 < len && digit_byte(input[e + 1]) {
        is_real = true;
        e = e + 1;
        while e < len && digit_byte(input[e])
            invariant
                pos < e <= len,
                spec_digits_end(input@, digits_end + 1) == spec_digits_end(input@, e as int),
            decreases len - e,
        {
            e = e + 1;
        }
        proof {
            assert(spec_digits_end(input@, e as int) == e);
            assert(spec_digits_end(input@, digits_end + 1) == spec_digits_end(
                input@,
                digits_end + 2,
            ));
            lemma_digits_end_bounds(input@, digits_end + 2);
            assert(e >= digits_end + 2);
        }
    }
    let ghost f = e as int;
    let ghost frac_real = is_real;
    proof {
        assert(frac_real == (f != digits_end as int));
    }
    if e < len && (input[e] == 101 || input[e] == 69) {
        let mut x = e + 1;
        if x < len && (input[x] == 43 || input[x] == 45) {
            x = x + 1;
        }
        if x < len && digit_byte(input[x]) {
            is_real = true;
            e = x;
            while e < len && digit_byte(input[e])
                invariant
                    pos < e <= len,
                    x <= e <= len,
                    spec_digits_end(input@, x as int) == spec_digits_end(input@, e as int),
                decreases len - e,
            {
                e = e + 1;
            }
            proof {
                assert(spec_digits_end(input@, e as int) == e);
                assert(spec_digits_end(input@, x as int) == spec_digits_end(input@, x + 1));
                lemma_digits_end_bounds(input@, x + 1);
                assert(e >= x + 1);
                assert(e as int != f);
            }
        }
    }
    proof {
        assert(is_real == (frac_real || e as int != f));
    }
    if is_real {
        let mut ok = true;
        let mut k = pos;
        while k < e
            invariant
                pos <= k <= e <= len,
                ok ==> forall|j: int| pos <= j < k ==> input@[j] < 128,
                !ok ==> exists|j: int| pos <= j < k && input@[j] >= 128,
            decreases e - k,
        {
            if input[k] >= 128 {
                ok = false;
            }
            k = k + 1;
        }
        if !ok {
            return Option::None;
        }
        let bytes = take_bytes(input, pos, e);
        let text = bytes_to_string(bytes);
        Option::Some((Literal::Real(text), e))
    } else {
        match parse_integer(input, pos) {
            Option::Some((n, p)) => Option::Some((Literal::Integer(n), p)),
            Option::None => Option::None,
        }
    }
}

/// Reads an encoded string literal: double-quote-delimited groups of hex
/// digits.  The code points are kept as their hex spelling; evaluation of
/// rule bodies is out of scope, so no decoding is needed.
#[verifier::loop_isolation(false)]
fn parse_encoded_string(input: &[u8], pos: usize) -> (r: Option<(String, usize)>)
    requires
        pos <= input@.len(),
    ensures
        match r {
            Option::Some((s, p)) => pos < p <= input@.len() && spec_encoded_string(
                input@,
                pos as int,
            ) == Option::Some((s@, p as int)),
            Option::None => (spec_encoded_string(input@, pos as int) is None),
        },
{
    let len = input.len();
    if pos >= len || input[pos] != 34 {
        return Option::None;
    }
    let mut e = pos + 1;
    while e < len && hex_byte(input[e])
        invariant
            pos < e <= len,
            forall|k: int| pos < k < e ==> is_hex_byte(input@[k]),
            spec_hex_end(input@, pos + 1) == spec_hex_end(input@, e as int),
        decreases len - e,
    {
        e = e + 1;
    }
    proof {
        assert(spec_hex_end(input@, e as int) == e);
    }
    if !(e < len && input[e] == 34) {
        return Option::None;
    }
    let bytes = take_bytes(input, pos + 1, e);
    proof {
        assert(forall|k: int| 0 <= k < bytes@.len() ==> bytes@[k] < 128);
    }
    Option::Some((bytes_to_string(bytes), e + 1))
}

/// Reads a simple string literal: quote-delimited, a doubled quote
/// standing for one quote.  The returned text is exactly the decoded
/// body.
#[verifier::loop_isolation(false)]
fn parse_string(input: &[u8], pos: usize) -> (r: Option<(String, usize)>)
    requires
        pos <= input@.len(),
    ensures
        match r {
            Option::Some((s, p)) => pos < p <= input@.len() && spec_string(input@, pos as int)
                == Option::Some((s@, p as int)),
            Option::None => (spec_string(input@, pos as int) is None),
        },
{
    let len = input.len();
    if pos >= len || input[pos] != 39 {
        return Option::None;
    }
    let mut out: Vec<u8> = Vec::new();
    let mut i = pos + 1;
    while i < len
        invariant
            pos < i <= len,
            forall|k: int| 0 <= k < out@.len() ==> out@[k] < 128,
            spec_string_body(input@, pos + 1) matches Option::Some(w) ==> (spec_string_body(
                input@,
                i as int,
            ) matches Option::Some(w2) && w.0 == out@ + w2.0 && w.1 == w2.1),
            (spec_string_body(input@, pos + 1) is None) ==> (spec_string_body(input@, i as int)
                is None),
        decreases len - i,
    {
        let b = input[i];
        if b == 39 {
            if i + 1 < len && input[i + 1] == 39 {
                let ghost prev = out@;
                out.push(39);
                proof {
                    assert(out@ =~= prev + seq![39u8]);
                    if spec_string_body(input@, i as int) is Some {
                        let rest = spec_string_body(input@, i as int)->Some_0.0;
                        let rest2 = spec_string_body(input@, i + 2)->Some_0.0;
                        assert(rest =~= seq![39u8] + rest2);
                        assert(prev + rest =~= out@ + rest2);
                    }
                }
                i = i + 2;
            } else {
                let s2 = bytes_to_string(out);
                proof {
                    assert(spec_string_body(input@, i as int) == Option::Some(
                        (Seq::<u8>::empty(), i + 1),
                    ));
                    if spec_string_body(input@, pos + 1) is Some {
                        let body = spec_string_body(input@, pos + 1)->Some_0.0;
                        assert(body =~= out@);
                    }
                }
                return Option::Some((s2, i + 1));
            }
        } else if b < 128 {
            let ghost prev = out@;
            out.push(b);
            proof {
                assert(out@ =~= prev + seq![b]);
                if spec_string_body(input@, i as int) is Some {
                    let rest = spec_string_body(input@, i as int)->Some_0.0;
                    let rest2 = spec_string_body(input@, i + 1)->Some_0.0;
                    assert(rest =~= seq![b] + rest2);
                    assert(prev + rest =~= out@ + rest2);
                }
            }
            i = i + 1;
        } else {
            return Option::None;
        }
    }
    Option::None
}

/// Reads a binary literal: `%` followed by bits.
#[verifier::loop_isolation(false)]
fn parse_binary_literal(input: &[u8], pos: usize) -> (r: Option<(String, usize)>)
    requires
        pos <= input@.len(),
    ensures
        match r {
            Option::Some((s, p)) => pos < p <= input@.len() && spec_binary_literal(
                input@,
                pos as int,
            ) == Option::Some((s@, p as int)),
            Option::None => (spec_binary_literal(input@, pos as int) is None),
        },
{
    let len = input.len();
    if pos >= len || input[pos] != 37 {
        return Option::None;
    }
    let mut e = pos + 1;
    while e < len && (input[e] == 48 || input[e] == 49)
        invariant
            pos < e <= len,
            forall|k: int| pos < k < e ==> input@[k] == 48 || input@[k] == 49,
            spec_bits_end(input@, pos + 1) == spec_bits_end(input@, e as int),
        decreases len - e,
    {
        e = e + 1;
    }
    proof {
        assert(spec_bits_end(input@, e as int) == e);
    }
    if e == pos + 1 {
        return Option::None;
    }
    let bytes = take_bytes(input, pos + 1, e);
    proof {
        assert(forall|k: int| 0 <= k < bytes@.len() ==> bytes@[k] < 128);
    }
    Option::Some((bytes_to_string(bytes), e))
}

/// Reads a literal: a number, a logical value, a string, or a binary
/// value.
fn parse_literal(input: &[u8], pos: usize) -> (r: Option<(Literal, usize)>)
    requires
        pos <= input@.len(),
    ensures
        match r {
            Option::Some((v, p)) => pos < p <= input@.len() && spec_literal(input@, pos as int)
                == Option::Some((v@, p as int)),
            Option::None => (spec_literal(input@, pos as int) is None),
        },
{
    match parse_number_literal(input, pos) {
        Option::Some((v, p)) => {
            return Option::Some((v, p));
        },
        Option::None => {},
    }
    match keyword(input, pos, "false") {
        Option::Some(p) => {
            return Option::Some((Literal::Logical(Option::Some(false)), p));
        },
        Option::None => {},
    }
    match keyword(input, pos, "true") {
        Option::Some(p) => {
            return Option::Some((Literal::Logical(Option::Some(true)), p));
        },
        Option::None => {},
    }
    match keyword(input, pos, "unknown") {
        Option::Some(p) => {
            return Option::Some((Literal::Logical(Option::None), p));
        },
        Option::None => {},
    }
    match parse_string(input, pos) {
        Option::Some((s, p)) => {
            return Option::Some((Literal::String(s), p));
        },
        Option::None => {},
    }
    match parse_encoded_string(input, pos) {
        Option::Some((s, p)) => {
            return Option::Some((Literal::String(s), p));
        },
        Option::None => {},
    }
    match parse_binary_literal(input, pos) {
        Option::Some((s, p)) => {
            return Option::Some((Literal::Binary(s), p));
        },
        Option::None => {},
    }
    Option::None
}


/// What consuming a relation operator yields: the position after it.
pub open spec fn spec_relation_op_end(s: Seq<u8>, pos: int) -> Option<int> {
    if !(0 <= pos < s.len()) {
        Option::None
    } else if s.len() - pos >= 4 && s[pos] == 58 && s[pos + 1] == 60 && s[pos + 2] == 62 && s[pos
        + 3] == 58 {
        Option::Some(pos + 4)
    } else if s.len() - pos >= 3 && s[pos] == 58 && s[pos + 1] == 61 && s[pos + 2] == 58 {
        Option::Some(pos + 3)
    } else if s.len() - pos >= 2 && s[pos] == 60 && s[pos + 1] == 61 {
        Option::Some(pos + 2)
    } else if s.len() - pos >= 2 && s[pos] == 62 && s[pos + 1] == 61 {
        Option::Some(pos + 2)
    } else if s.len() - pos >= 2 && s[pos] == 60 && s[pos + 1] == 62 {
        Option::Some(pos + 2)
    } else if s[pos] == 60 {
        Option::Some(pos + 1)
    } else if s[pos] == 62 {
        Option::Some(pos + 1)
    } else if s[pos] == 61 {
        Option::Some(pos + 1)
    } else {
        match spec_keyword(s, pos, "in".spec_bytes()) {
            Option::Some(p) => Option::Some(p),
            Option::None => match spec_keyword(s, pos, "like".spec_bytes()) {
                Option::Some(p) => Option::Some(p),
                Option::None => Option::None,
            },
        }
    }
}

/// What consuming an additive operator yields.
pub open spec fn spec_add_op_end(s: Seq<u8>, pos: int) -> Option<int> {
    if !(0 <= pos < s.len()) {
        Option::None
    } else if s[pos] == 43 || s[pos] == 45 {
        Option::Some(pos + 1)
    } else {
        match spec_keyword(s, pos, "or".spec_bytes()) {
            Option::Some(p) => Option::Some(p),
            Option::None => match spec_keyword(s, pos, "xor".spec_bytes()) {
                Option::Some(p) => Option::Some(p),
                Option::None => Option::None,
            },
        }
    }
}

/// What consuming a multiplicative operator yields.
pub open spec fn spec_mul_op_end(s: Seq<u8>, pos: int) -> Option<int> {
    if !(0 <= pos < s.len()) {
        Option::None
    } else if s.len() - pos >= 2 && s[pos] == 124 && s[pos + 1] == 124 {
        Option::Some(pos + 2)
    } else if s[pos] == 42 && !(pos + 1 < s.len() && s[pos + 1] == 42) {
        Option::Some(pos + 1)
    } else if s[pos] == 47 {
        Option::Some(pos + 1)
    } else {
        match spec_keyword(s, pos, "div".spec_bytes()) {
            Option::Some(p) => Option::Some(p),
            Option::None => match spec_keyword(s, pos, "mod".spec_bytes()) {
                Option::Some(p) => Option::Some(p),
                Option::None => match spec_keyword(s, pos, "and".spec_bytes()) {
                    Option::Some(p) => Option::Some(p),
                    Option::None => Option::None,
                },
            },
        }
    }
}

/// What consuming an interval comparison operator yields.
pub open spec fn spec_interval_op_end(s: Seq<u8>, pos: int) -> Option<int> {
    if 0 <= pos < s.len() && s.len() - pos >= 2 && s[pos] == 60 && s[pos + 1] == 61 {
        Option::Some(pos + 2)
    } else if 0 <= pos < s.len() && s[pos] == 60 {
        Option::Some(pos + 1)
    } else {
        Option::None
    }
}

/// Reads a relation operator.
fn parse_relation_op(input: &[u8], pos: usize) -> (r: Option<(Operator, usize)>)
    requires
        pos <= input@.len(),
    ensures
        match r {
            Option::Some((v, p)) => pos < p <= input@.len() && spec_relation_op_end(
                input@,
                pos as int,
            ) == Option::Some(p as int),
            Option::None => (spec_relation_op_end(input@, pos as int) is None),
        },
{
    let len = input.len();
    if pos >= len {
        return Option::None;
    }
    if len - pos >= 4 && input[pos] == 58 && input[pos + 1] == 60 && input[pos + 2] == 62
        && input[pos + 3] == 58 {
        return Option::Some((Operator::InstanceNotEqual, pos + 4));
    }
    if len - pos >= 3 && input[pos] == 58 && input[pos + 1] == 61 && input[pos + 2] == 58 {
        return Option::Some((Operator::InstanceEqual, pos + 3));
    }
    if len - pos >= 2 && input[pos] == 60 && input[pos + 1] == 61 {
        return Option::Some((Operator::LessOrEqual, pos + 2));
    }
    if len - pos >= 2 && input[pos] == 62 && input[pos + 1] == 61 {
        return Option::Some((Operator::GreaterOrEqual, pos + 2));
    }
    if len - pos >= 2 && input[pos] == 60 && input[pos + 1] == 62 {
        return Option::Some((Operator::NotEqual, pos + 2));
    }
    if input[pos] == 60 {
        return Option::Some((Operator::Less, pos + 1));
    }
    if input[pos] == 62 {
        return Option::Some((Operator::Greater, pos + 1));
    }
    if input[pos] == 61 {
        return Option::Some((Operator::Equal, pos + 1));
    }
    match keyword(input, pos, "in") {
        Option::Some(p) => {
            return Option::Some((Operator::In, p));
        },
        Option::None => {},
    }
    match keyword(input, pos, "like") {
        Option::Some(p) => {
            return Option::Some((Operator::Like, p));
        },
        Option::None => {},
    }
    Option::None
}

/// Reads an additive operator.
fn parse_add_op(input: &[u8], pos: usize) -> (r: Option<(Operator, usize)>)
    requires
        pos <= input@.len(),
    ensures
        match r {
            Option::Some((v, p)) => pos < p <= input@.len() && spec_add_op_end(
                input@,
                pos as int,
            ) == Option::Some(p as int),
            Option::None => (spec_add_op_end(input@, pos as int) is None),
        },
{
    let len = input.len();
    if pos >= len {
        return Option::None;
    }
    if input[pos] == 43 {
        return Option::Some((Operator::Add, pos + 1));
    }
    if input[pos] == 45 {
        return Option::Some((Operator::Sub, pos + 1));
    }
    match keyword(input, pos, "or") {
        Option::Some(p) => {
            return Option::Some((Operator::Or, p));
        },
        Option::None => {},
    }
    match keyword(input, pos, "xor") {
        Option::Some(p) => {
            return Option::Some((Operator::Xor, p));
        },
        Option::None => {},
    }
    Option::None
}

/// Reads a multiplicative operator.
fn parse_mul_op(input: &[u8], pos: usize) -> (r: Option<(Operator, usize)>)
    requires
        pos <= input@.len(),
    ensures
        match r {
            Option::Some((v, p)) => pos < p <= input@.len() && spec_mul_op_end(
                input@,
                pos as int,
            ) == Option::Some(p as int),
            Option::None => (spec_mul_op_end(input@, pos as int) is None),
        },
{
    let len = input.len();
    if pos >= len {
        return Option::None;
    }
    if pos + 1 < len && input[pos] == 124 && input[pos + 1] == 124 {
        return Option::Some((Operator::Or, pos + 2));
    }
    if input[pos] == 42 && !(pos + 1 < len && input[pos + 1] == 42) {
        return Option::Some((Operator::Mul, pos + 1));
    }
    if input[pos] == 47 {
        return Option::Some((Operator::Div, pos + 1));
    }
    match keyword(input, pos, "div") {
        Option::Some(p) => {
            return Option::Some((Operator::Div, p));
        },
        Option::None => {},
    }
    match keyword(input, pos, "mod") {
        Option::Some(p) => {
            return Option::Some((Operator::Mod, p));
        },
        Option::None => {},
    }
    match keyword(input, pos, "and") {
        Option::Some(p) => {
            return Option::Some((Operator::And, p));
        },
        Option::None => {},
    }
    Option::None
}


/// What consuming a full expression yields: the position after it.
pub open spec fn spec_expression_end(s: Seq<u8>, pos: int) -> Option<int>
    decreases s.len() - pos, 6int,
{
    match spec_simple_expression_end(s, pos) {
        Option::None => Option::None,
        Option::Some(p) => if pos < p <= s.len() {
            spec_expression_more(s, p)
        } else {
            Option::None
        },
    }
}

pub open spec fn spec_expression_more(s: Seq<u8>, cur: int) -> Option<int>
    decreases s.len() - cur, 9int,
{
    match spec_relation_op_end(s, cur) {
        Option::None => Option::Some(cur),
        Option::Some(p1) => {
            let p2 = spec_skip(s, p1);
            if !(cur < p2 <= s.len()) {
                Option::None
            } else {
                match spec_simple_expression_end(s, p2) {
                    Option::None => Option::None,
                    Option::Some(p3) => if cur < p3 <= s.len() {
                        spec_expression_more(s, p3)
                    } else {
                        Option::None
                    },
                }
            }
        },
    }
}

/// What consuming a simple expression yields.
pub open spec fn spec_simple_expression_end(s: Seq<u8>, pos: int) -> Option<int>
    decreases s.len() - pos, 5int,
{
    match spec_term_end(s, pos) {
        Option::None => Option::None,
        Option::Some(p) => if pos < p <= s.len() {
            spec_simple_expression_more(s, p)
        } else {
            Option::None
        },
    }
}

pub open spec fn spec_simple_expression_more(s: Seq<u8>, cur: int) -> Option<int>
    decreases s.len() - cur, 9int,
{
    match spec_add_op_end(s, cur) {
        Option::None => Option::Some(cur),
        Option::Some(p1) => {
            let p2 = spec_skip(s, p1);
            if !(cur < p2 <= s.len()) {
                Option::None
            } else {
                match spec_term_end(s, p2) {
                    Option::None => Option::None,
                    Option::Some(p3) => if cur < p3 <= s.len() {
                        spec_simple_expression_more(s, p3)
                    } else {
                        Option::None
                    },
                }
            }
        },
    }
}

/// What consuming a term yields.
pub open spec fn spec_term_end(s: Seq<u8>, pos: int) -> Option<int>
    decreases s.len() - pos, 4int,
{
    match spec_factor_end(s, pos) {
        Option::None => Option::None,
        Option::Some(p) => if pos < p <= s.len() {
            spec_term_more(s, p)
        } else {
            Option::None
        },
    }
}

pub open spec fn spec_term_more(s: Seq<u8>, cur: int) -> Option<int>
    decreases s.len() - cur, 9int,
{
    match spec_mul_op_end(s, cur) {
        Option::None => Option::Some(cur),
        Option::Some(p1) => {
            let p2 = spec_skip(s, p1);
            if !(cur < p2 <= s.len()) {
                Option::None
            } else {
                match spec_factor_end(s, p2) {
                    Option::None => Option::None,
                    Option::Some(p3) => if cur < p3 <= s.len() {
                        spec_term_more(s, p3)
                    } else {
                        Option::None
                    },
                }
            }
        },
    }
}

/// What consuming a factor yields: the position after the simple factor
/// and any power chain, trailing whitespace skipped.
pub open spec fn spec_factor_end(s: Seq<u8>, pos: int) -> Option<int>
    decreases s.len() - pos, 3int,
{
    match spec_simple_factor_end(s, pos) {
        Option::None => Option::None,
        Option::Some(p) => {
            let c = spec_skip(s, p);
            if pos < c <= s.len() {
                spec_factor_more(s, c)
            } else {
                Option::None
            }
        },
    }
}

pub open spec fn spec_factor_more(s: Seq<u8>, cur: int) -> Option<int>
    decreases s.len() - cur, 9int,
{
    if 0 <= cur && cur + 1 < s.len() && s[cur] == 42 && s[cur + 1] == 42 {
        let p2 = spec_skip(s, cur + 2);
        if !(cur < p2 <= s.len()) {
            Option::None
        } else {
            match spec_simple_factor_end(s, p2) {
                Option::None => Option::None,
                Option::Some(p3) => {
                    let p4 = spec_skip(s, p3);
                    if cur < p4 <= s.len() {
                        spec_factor_more(s, p4)
                    } else {
                        Option::None
                    }
                },
            }
        }
    } else {
        Option::Some(cur)
    }
}

/// What consuming a simple factor yields: an aggregate initializer, an
/// interval, a query, or a primary.
pub open spec fn spec_simple_factor_end(s: Seq<u8>, pos: int) -> Option<int>
    decreases s.len() - pos, 2int,
{
    if !(0 <= pos < s.len()) {
        Option::None
    } else if s[pos] == 91 {
        let q = spec_skip(s, pos + 1);
        if !(pos < q <= s.len()) {
            Option::None
        } else if q < s.len() && s[q] == 93 {
            Option::Some(q + 1)
        } else {
            spec_agg_items_end(s, q)
        }
    } else if s[pos] == 123 {
        let c = spec_skip(s, pos + 1);
        if !(pos < c <= s.len()) {
            Option::None
        } else {
            match spec_simple_expression_end(s, c) {
                Option::None => Option::None,
                Option::Some(p1) => match spec_interval_op_end(s, spec_skip(s, p1)) {
                    Option::None => Option::None,
                    Option::Some(p2) => {
                        let p3 = spec_skip(s, p2);
                        if !(c < p3 <= s.len()) {
                            Option::None
                        } else {
                            match spec_simple_expression_end(s, p3) {
                                Option::None => Option::None,
                                Option::Some(p4) => match spec_interval_op_end(
                                    s,
                                    spec_skip(s, p4),
                                ) {
                                    Option::None => Option::None,
                                    Option::Some(p5) => {
                                        let p6 = spec_skip(s, p5);
                                        if !(p3 < p6 <= s.len()) {
                                            Option::None
                                        } else {
                                            match spec_simple_expression_end(s, p6) {
                                                Option::None => Option::None,
                                                Option::Some(p7) => {
                                                    let p8 = spec_skip(s, p7);
                                                    if p8 < s.len() && s[p8] == 125 {
                                                        Option::Some(p8 + 1)
                                                    } else {
                                                        Option::None
                                                    }
                                                },
                                            }
                                        }
                                    },
                                },
                            }
                        }
                    },
                },
            }
        }
    } else {
        match spec_keyword(s, pos, "query".spec_bytes()) {
            Option::Some(p1) => {
                let p2 = spec_skip(s, p1);
                if !(p2 < s.len() && s[p2] == 40) {
                    Option::None
                } else {
                    match spec_ident(s, spec_skip(s, p2 + 1)) {
                        Option::None => Option::None,
                        Option::Some((variable, p3)) => {
                            let p4 = spec_skip(s, p3);
                            if !(p4 < s.len() && s.len() - p4 >= 2 && s[p4] == 60 && s[p4 + 1]
                                == 42) {
                                Option::None
                            } else {
                                let p5 = spec_skip(s, p4 + 2);
                                if !(pos < p5 <= s.len()) {
                                    Option::None
                                } else {
                                    match spec_simple_expression_end(s, p5) {
                                        Option::None => Option::None,
                                        Option::Some(p6) => {
                                            let p7 = spec_skip(s, p6);
                                            if !(p7 < s.len() && s[p7] == 124) {
                                                Option::None
                                            } else {
                                                let p8 = spec_skip(s, p7 + 1);
                                                if !(pos < p8 <= s.len()) {
                                                    Option::None
                                                } else {
                                                    match spec_expression_end(s, p8) {
                                                        Option::None => Option::None,
                                                        Option::Some(p9) => {
                                                            let p10 = spec_skip(s, p9);
                                                            if p10 < s.len() && s[p10] == 41 {
                                                                Option::Some(p10 + 1)
                                                            } else {
                                                                Option::None
                                                            }
                                                        },
                                                    }
                                                }
                                            }
                                        },
                                    }
                                }
                            }
                        },
                    }
                }
            },
            Option::None => spec_primary_end(s, pos),
        }
    }
}

/// What consuming the elements of an aggregate initializer yields,
/// through the closing bracket.
pub open spec fn spec_agg_items_end(s: Seq<u8>, pos: int) -> Option<int>
    decreases s.len() - pos, 9int,
{
    match spec_expression_end(s, pos) {
        Option::None => Option::None,
        Option::Some(p) => {
            if !(pos < p <= s.len()) {
                Option::None
            } else {
                let after = spec_skip(s, p);
                if after < s.len() && s[after] == 44 {
                    let next = spec_skip(s, after + 1);
                    if !(pos < next <= s.len()) {
                        Option::None
                    } else {
                        spec_agg_items_end(s, next)
                    }
                } else if after < s.len() && s[after] == 93 {
                    Option::Some(after + 1)
                } else {
                    Option::None
                }
            }
        },
    }
}

/// What consuming a primary yields: a literal, a parenthesized
/// expression, or a qualified access.
pub open spec fn spec_primary_end(s: Seq<u8>, pos: int) -> Option<int>
    decreases s.len() - pos, 1int,
{
    if !(0 <= pos < s.len()) {
        Option::None
    } else {
        match spec_literal(s, pos) {
            Option::Some((lit, p)) => Option::Some(p),
            Option::None => {
                if s[pos] == 40 {
                    let p1 = spec_skip(s, pos + 1);
                    if !(pos < p1 <= s.len()) {
                        Option::None
                    } else {
                        match spec_expression_end(s, p1) {
                            Option::None => Option::None,
                            Option::Some(p2) => {
                                let p3 = spec_skip(s, p2);
                                if p3 < s.len() && s[p3] == 41 {
                                    Option::Some(p3 + 1)
                                } else {
                                    Option::None
                                }
                            },
                        }
                    }
                } else {
                    spec_qualified_access_end(s, pos)
                }
            },
        }
    }
}

/// What consuming a qualified access yields: a name or the built-in `?`,
/// followed by member, group, index, and call accessors.
pub open spec fn spec_qualified_access_end(s: Seq<u8>, pos: int) -> Option<int>
    decreases s.len() - pos, 0int,
{
    if !(0 <= pos < s.len()) {
        Option::None
    } else if s[pos] == 63 {
        spec_accessors_end(s, pos + 1)
    } else {
        match spec_ident(s, pos) {
            Option::Some((name, p)) => if pos < p <= s.len() {
                spec_accessors_end(s, p)
            } else {
                Option::None
            },
            Option::None => Option::None,
        }
    }
}

/// What consuming a run of accessors yields.
pub open spec fn spec_accessors_end(s: Seq<u8>, cur: int) -> Option<int>
    decreases s.len() - cur, 9int,
{
    if !(0 <= cur < s.len()) {
        Option::Some(cur)
    } else if s[cur] == 46 || s[cur] == 92 {
        match spec_ident(s, cur + 1) {
            Option::None => Option::None,
            Option::Some((name, p)) => if cur < p <= s.len() {
                spec_accessors_end(s, p)
            } else {
                Option::None
            },
        }
    } else if s[cur] == 91 {
        let p1 = spec_skip(s, cur + 1);
        if !(cur < p1 <= s.len()) {
            Option::None
        } else {
            match spec_simple_expression_end(s, p1) {
                Option::None => Option::None,
                Option::Some(p2) => {
                    let p3 = spec_skip(s, p2);
                    if p3 < s.len() && s[p3] == 58 {
                        let p4 = spec_skip(s, p3 + 1);
                        if !(p1 < p4 <= s.len()) {
                            Option::None
                        } else {
                            match spec_simple_expression_end(s, p4) {
                                Option::None => Option::None,
                                Option::Some(p5) => {
                                    let p6 = spec_skip(s, p5);
                                    if p6 < s.len() && s[p6] == 93 && cur < p6 + 1 <= s.len() {
                                        spec_accessors_end(s, p6 + 1)
                                    } else {
                                        Option::None
                                    }
                                },
                            }
                        }
                    } else if p3 < s.len() && s[p3] == 93 && cur < p3 + 1 <= s.len() {
                        spec_accessors_end(s, p3 + 1)
                    } else {
                        Option::None
                    }
                },
            }
        }
    } else if s[cur] == 40 {
        let q = spec_skip(s, cur + 1);
        if !(cur < q <= s.len()) {
            Option::None
        } else if q < s.len() && s[q] == 41 {
            if cur < q + 1 <= s.len() {
                spec_accessors_end(s, q + 1)
            } else {
                Option::None
            }
        } else {
            match spec_args_end(s, q) {
                Option::None => Option::None,
                Option::Some(e) => if cur < e <= s.len() {
                    spec_accessors_end(s, e)
                } else {
                    Option::None
                },
            }
        }
    } else {
        Option::Some(cur)
    }
}

/// What consuming the arguments of a call accessor yields, through the
/// closing parenthesis.
pub open spec fn spec_args_end(s: Seq<u8>, pos: int) -> Option<int>
    decreases s.len() - pos, 9int,
{
    match spec_expression_end(s, pos) {
        Option::None => Option::None,
        Option::Some(p) => {
            if !(pos < p <= s.len()) {
                Option::None
            } else {
                let after = spec_skip(s, p);
                if after < s.len() && s[after] == 44 {
                    let next = spec_skip(s, after + 1);
                    if !(pos < next <= s.len()) {
                        Option::None
                    } else {
                        spec_args_end(s, next)
                    }
                } else if after < s.len() && s[after] == 41 {
                    Option::Some(after + 1)
                } else {
                    Option::None
                }
            }
        },
    }
}

/// Reads a full expression: simple expressions joined by relation
/// operators.
#[verifier::loop_isolation(false)]
fn parse_expression(input: &[u8], pos: usize) -> (r: Option<(Expression, usize)>)
    requires
        pos <= input@.len(),
    ensures
        match r {
            Option::Some((v, p)) => pos < p <= input@.len() && spec_expression_end(
                input@,
                pos as int,
            ) == Option::Some(p as int),
            Option::None => (spec_expression_end(input@, pos as int) is None),
        },
    decreases input@.len() - pos, 6int,
{
    let len = input.len();
    let operand: SimpleExpression;
    let mut cur: usize;
    match parse_simple_expression(input, pos) {
        Option::Some((v, p)) => {
            operand = v;
            cur = p;
        },
        Option::None => {
            return Option::None;
        },
    }
    let mut operations: Vec<(Operator, SimpleExpression)> = Vec::new();
    loop
        invariant
            pos < cur <= len,
            spec_expression_end(input@, pos as int) == spec_expression_more(input@, cur as int),
        decreases len - cur,
    {
        match parse_relation_op(input, cur) {
            Option::Some((op, p1)) => {
                let p2 = skip_space(input, p1);
                match parse_simple_expression(input, p2) {
                    Option::Some((rhs, p3)) => {
                        operations.push((op, rhs));
                        cur = p3;
                    },
                    Option::None => {
                        return Option::None;
                    },
                }
            },
            Option::None => {
                break ;
            },
        }
    }
    Option::Some((Expression { operand, operations }, cur))
}

/// Reads a simple expression: terms joined by additive operators.
#[verifier::loop_isolation(false)]
fn parse_simple_expression(input: &[u8], pos: usize) -> (r: Option<(SimpleExpression, usize)>)
    requires
        pos <= input@.len(),
    ensures
        match r {
            Option::Some((v, p)) => pos < p <= input@.len() && spec_simple_expression_end(
                input@,
                pos as int,
            ) == Option::Some(p as int),
            Option::None => (spec_simple_expression_end(input@, pos as int) is None),
        },
    decreases input@.len() - pos, 5int,
{
    let len = input.len();
    let operand: Term;
    let mut cur: usize;
    match parse_term(input, pos) {
        Option::Some((v, p)) => {
            operand = v;
            cur = p;
        },
        Option::None => {
            return Option::None;
        },
    }
    let mut operations: Vec<(Operator, Term)> = Vec::new();
    loop
        invariant
            pos < cur <= len,
            spec_simple_expression_end(input@, pos as int) == spec_simple_expression_more(
                input@,
                cur as int,
            ),
        decreases len - cur,
    {
        match parse_add_op(input, cur) {
            Option::Some((op, p1)) => {
                let p2 = skip_space(input, p1);
                match parse_term(input, p2) {
                    Option::Some((rhs, p3)) => {
                        operations.push((op, rhs));
                        cur = p3;
                    },
                    Option::None => {
                        return Option::None;
                    },
                }
            },
            Option::None => {
                break ;
            },
        }
    }
    Option::Some((SimpleExpression { operand, operations }, cur))
}

/// Reads a term: factors joined by multiplicative operators.
#[verifier::loop_isolation(false)]
fn parse_term(input: &[u8], pos: usize) -> (r: Option<(Term, usize)>)
    requires
        pos <= input@.len(),
    ensures
        match r {
            Option::Some((v, p)) => pos < p <= input@.len() && spec_term_end(
                input@,
                pos as int,
            ) == Option::Some(p as int),
            Option::None => (spec_term_end(input@, pos as int) is None),
        },
    decreases input@.len() - pos, 4int,
{
    let len = input.len();
    let operand: Factor;
    let mut cur: usize;
    match parse_factor(input, pos) {
        Option::Some((v, p)) => {
            operand = v;
            cur = p;
        },
        Option::None => {
            return Option::None;
        },
    }
    let mut operations: Vec<(Operator, Factor)> = Vec::new();
    loop
        invariant
            pos < cur <= len,
            spec_term_end(input@, pos as int) == spec_term_more(input@, cur as int),
        decreases len - cur,
    {
        match parse_mul_op(input, cur) {
            Option::Some((op, p1)) => {
                let p2 = skip_space(input, p1);
                match parse_factor(input, p2) {
                    Option::Some((rhs, p3)) => {
                        operations.push((op, rhs));
                        cur = p3;
                    },
                    Option::None => {
                        return Option::None;
                    },
                }
            },
            Option::None => {
                break ;
            },
        }
    }
    Option::Some((Term { operand, operations }, cur))
}

/// Reads a factor: simple factors joined by the power operator.
#[verifier::loop_isolation(false)]
fn parse_factor(input: &[u8], pos: usize) -> (r: Option<(Factor, usize)>)
    requires
        pos <= input@.len(),
    ensures
        match r {
            Option::Some((v, p)) => pos < p <= input@.len() && spec_factor_end(
                input@,
                pos as int,
            ) == Option::Some(p as int),
            Option::None => (spec_factor_end(input@, pos as int) is None),
        },
    decreases input@.len() - pos, 3int,
{
    let len = input.len();
    let operand: SimpleFactor;
    let mut cur: usize;
    match parse_simple_factor(input, pos) {
        Option::Some((v, p)) => {
            operand = v;
            cur = skip_space(input, p);
        },
        Option::None => {
            return Option::None;
        },
    }
    let mut operations: Vec<(Operator, SimpleFactor)> = Vec::new();
    loop
        invariant
            pos < cur <= len,
            spec_factor_end(input@, pos as int) == spec_factor_more(input@, cur as int),
        decreases len - cur,
    {
        if cur < len && len - cur >= 2 && input[cur] == 42 && input[cur + 1] == 42 {
            let p2 = skip_space(input, cur + 2);
            match parse_simple_factor(input, p2) {
                Option::Some((rhs, p3)) => {
                    operations.push((Operator::Power, rhs));
                    let p4 = skip_space(input, p3);
                    if p4 > cur {
                        cur = p4;
                    } else {
                        return Option::None;
                    }
                },
                Option::None => {
                    return Option::None;
                },
            }
        } else {
            break ;
        }
    }
    Option::Some((Factor { operand, operations }, cur))
}

/// Reads a simple factor: an aggregate initializer, an interval, a query,
/// an entity constructor, or a primary.
#[verifier::loop_isolation(false)]
fn parse_simple_factor(input: &[u8], pos: usize) -> (r: Option<(SimpleFactor, usize)>)
    requires
        pos <= input@.len(),
    ensures
        match r {
            Option::Some((v, p)) => pos < p <= input@.len() && spec_simple_factor_end(
                input@,
                pos as int,
            ) == Option::Some(p as int),
            Option::None => (spec_simple_factor_end(input@, pos as int) is None),
        },
    decreases input@.len() - pos, 2int,
{
    let len = input.len();
    if pos >= len {
        return Option::None;
    }
    let b = input[pos];
    if b == 91 {
        // aggregate initializer
        let mut elements: Vec<Box<Expression>> = Vec::new();
        let mut cur = skip_space(input, pos + 1);
        if cur < len && input[cur] == 93 {
            return Option::Some((SimpleFactor::AggregateInitializer { elements }, cur + 1));
        }
        loop
            invariant
                pos < cur <= len,
                spec_simple_factor_end(input@, pos as int) == spec_agg_items_end(
                    input@,
                    cur as int,
                ),
            decreases len - cur,
        {
            match parse_expression(input, cur) {
                Option::Some((v, p)) => {
                    elements.push(Box::new(v));
                    let after = skip_space(input, p);
                    if after < len && input[after] == 44 {
                        let next = skip_space(input, after + 1);
                        if next > cur {
                            cur = next;
                        } else {
                            return Option::None;
                        }
                    } else if after < len && input[after] == 93 {
                        return Option::Some(
                            (SimpleFactor::AggregateInitializer { elements }, after + 1),
                        );
                    } else {
                        return Option::None;
                    }
                },
                Option::None => {
                    return Option::None;
                },
            }
        }
    }
    if b == 123 {
        // interval
        let cur = skip_space(input, pos + 1);
        match parse_simple_expression(input, cur) {
            Option::Some((low, p1)) => {
                match parse_interval_op(input, skip_space(input, p1)) {
                    Option::Some((op1, p2)) => {
                        let p3 = skip_space(input, p2);
                        match parse_simple_expression(input, p3) {
                            Option::Some((term, p4)) => {
                                match parse_interval_op(input, skip_space(input, p4)) {
                                    Option::Some((op2, p5)) => {
                                        let p6 = skip_space(input, p5);
                                        match parse_simple_expression(input, p6) {
                                            Option::Some((high, p7)) => {
                                                let p8 = skip_space(input, p7);
                                                if p8 < len && input[p8] == 125 {
                                                    return Option::Some(
                                                        (
                                                            SimpleFactor::Interval {
                                                                low: Box::new(low),
                                                                op1,
                                                                term: Box::new(term),
                                                                op2,
                                                                high: Box::new(high),
                                                            },
                                                            p8 + 1,
                                                        ),
                                                    );
                                                }
                                                return Option::None;
                                            },
                                            Option::None => {
                                                return Option::None;
                                            },
                                        }
                                    },
                                    Option::None => {
                                        return Option::None;
                                    },
                                }
                            },
                            Option::None => {
                                return Option::None;
                            },
                        }
                    },
                    Option::None => {
                        return Option::None;
                    },
                }
            },
            Option::None => {
                return Option::None;
            },
        }
    }
    match keyword(input, pos, "query") {
        Option::Some(p1) => {
            let p2 = skip_space(input, p1);
            if p2 < len && input[p2] == 40 {
                match parse_ident(input, skip_space(input, p2 + 1)) {
                    Option::Some((variable, p3)) => {
                        let p4 = skip_space(input, p3);
                        if p4 < len && len - p4 >= 2 && input[p4] == 60 && input[p4 + 1] == 42 {
                            let p5 = skip_space(input, p4 + 2);
                            match parse_simple_expression(input, p5) {
                                Option::Some((source, p6)) => {
                                    let p7 = skip_space(input, p6);
                                    if p7 < len && input[p7] == 124 {
                                        let p8 = skip_space(input, p7 + 1);
                                        match parse_expression(input, p8) {
                                            Option::Some((condition, p9)) => {
                                                let p10 = skip_space(input, p9);
                                                if p10 < len && input[p10] == 41 {
                                                    return Option::Some(
                                                        (
                                                            SimpleFactor::QueryExpression {
                                                                variable,
                                                                source: Box::new(source),
                                                                condition: Box::new(condition),
                                                            },
                                                            p10 + 1,
                                                        ),
                                                    );
                                                }
                                                return Option::None;
                                            },
                                            Option::None => {
                                                return Option::None;
                                            },
                                        }
                                    }
                                    return Option::None;
                                },
                                Option::None => {
                                    return Option::None;
                                },
                            }
                        }
                        return Option::None;
                    },
                    Option::None => {
                        return Option::None;
                    },
                }
            }
            return Option::None;
        },
        Option::None => {},
    }
    parse_primary(input, pos)
}

/// Reads an interval comparison operator.
fn parse_interval_op(input: &[u8], pos: usize) -> (r: Option<(Operator, usize)>)
    requires
        pos <= input@.len(),
    ensures
        match r {
            Option::Some((v, p)) => pos < p <= input@.len() && spec_interval_op_end(
                input@,
                pos as int,
            ) == Option::Some(p as int),
            Option::None => (spec_interval_op_end(input@, pos as int) is None),
        },
{
    let len = input.len();
    if pos < len && len - pos >= 2 && input[pos] == 60 && input[pos + 1] == 61 {
        return Option::Some((Operator::LessOrEqual, pos + 2));
    }
    if pos < len && input[pos] == 60 {
        return Option::Some((Operator::Less, pos + 1));
    }
    Option::None
}

/// Reads a primary: a literal, a parenthesized expression, an entity
/// constructor, or a qualified access.
#[verifier::loop_isolation(false)]
fn parse_primary(input: &[u8], pos: usize) -> (r: Option<(SimpleFactor, usize)>)
    requires
        pos <= input@.len(),
    ensures
        match r {
            Option::Some((v, p)) => pos < p <= input@.len() && spec_primary_end(
                input@,
                pos as int,
            ) == Option::Some(p as int),
            Option::None => (spec_primary_end(input@, pos as int) is None),
        },
    decreases input@.len() - pos, 1int,
{
    let len = input.len();
    if pos >= len {
        return Option::None;
    }
    match parse_literal(input, pos) {
        Option::Some((lit, p)) => {
            return Option::Some((SimpleFactor::Primary(Primary::Literal(lit)), p));
        },
        Option::None => {},
    }
    if input[pos] == 40 {
        let p1 = skip_space(input, pos + 1);
        match parse_expression(input, p1) {
            Option::Some((e, p2)) => {
                let p3 = skip_space(input, p2);
                if p3 < len && input[p3] == 41 {
                    return Option::Some(
                        (SimpleFactor::Primary(Primary::Grouped(Box::new(e))), p3 + 1),
                    );
                }
                return Option::None;
            },
            Option::None => {
                return Option::None;
            },
        }
    }
    match parse_qualified_access(input, pos) {
        Option::Some((qa, p)) => {
            return Option::Some((SimpleFactor::Primary(Primary::QualifiedAccess(qa)), p));
        },
        Option::None => {},
    }
    Option::None
}

/// Reads a qualified access: a name or built-in constant followed by
/// member, group, index, and call accessors.
#[verifier::loop_isolation(false)]
fn parse_qualified_access(input: &[u8], pos: usize) -> (r: Option<(QualifiedAccess, usize)>)
    requires
        pos <= input@.len(),
    ensures
        match r {
            Option::Some((v, p)) => pos < p <= input@.len() && spec_qualified_access_end(
                input@,
                pos as int,
            ) == Option::Some(p as int),
            Option::None => (spec_qualified_access_end(input@, pos as int) is None),
        },
    decreases input@.len() - pos, 0int,
{
    let len = input.len();
    if pos >= len {
        return Option::None;
    }
    let base: String;
    let mut cur: usize;
    if input[pos] == 63 {
        base = String::from_str("?");
        cur = pos + 1;
    } else {
        match parse_ident(input, pos) {
            Option::Some((name, p)) => {
                base = name;
                cur = p;
            },
            Option::None => {
                return Option::None;
            },
        }
    }
    let mut accessors: Vec<Accessor> = Vec::new();
    loop
        invariant
            pos < cur <= len,
            spec_qualified_access_end(input@, pos as int) == spec_accessors_end(
                input@,
                cur as int,
            ),
        decreases len - cur,
    {
        if cur >= len {
            break ;
        }
        let b = input[cur];
        if b == 46 {
            match parse_ident(input, cur + 1) {
                Option::Some((name, p)) => {
                    accessors.push(Accessor::Attribute { name });
                    cur = p;
                },
                Option::None => {
                    return Option::None;
                },
            }
        } else if b == 92 {
            match parse_ident(input, cur + 1) {
                Option::Some((entity, p)) => {
                    accessors.push(Accessor::Group { entity });
                    cur = p;
                },
                Option::None => {
                    return Option::None;
                },
            }
        } else if b == 91 {
            let p1 = skip_space(input, cur + 1);
            match parse_simple_expression(input, p1) {
                Option::Some((start, p2)) => {
                    let p3 = skip_space(input, p2);
                    if p3 < len && input[p3] == 58 {
                        let p4 = skip_space(input, p3 + 1);
                        match parse_simple_expression(input, p4) {
                            Option::Some((end, p5)) => {
                                let p6 = skip_space(input, p5);
                                if p6 < len && input[p6] == 93 {
                                    accessors.push(
                                        Accessor::Indexer {
                                            start: Box::new(start),
                                            end: Option::Some(Box::new(end)),
                                        },
                                    );
                                    cur = p6 + 1;
                                } else {
                                    return Option::None;
                                }
                            },
                            Option::None => {
                                return Option::None;
                            },
                        }
                    } else if p3 < len && input[p3] == 93 {
                        accessors.push(
                            Accessor::Indexer { start: Box::new(start), end: Option::None },
                        );
                        cur = p3 + 1;
                    } else {
                        return Option::None;
                    }
                },
                Option::None => {
                    return Option::None;
                },
            }
        } else if b == 40 {
            let mut parameters: Vec<Box<Expression>> = Vec::new();
            let mut inner = skip_space(input, cur + 1);
            if inner < len && input[inner] == 41 {
                accessors.push(Accessor::FunctionCall { parameters });
                cur = inner + 1;
                continue ;
            }
            let ghost argq = inner as int;
            loop
                invariant
                    pos < inner <= len,
                    cur < inner,
                    cur < len,
                    spec_args_end(input@, argq) == spec_args_end(input@, inner as int),
                decreases len - inner,
            {
                match parse_expression(input, inner) {
                    Option::Some((e, p)) => {
                        parameters.push(Box::new(e));
                        let after = skip_space(input, p);
                        if after < len && input[after] == 44 {
                            let next = skip_space(input, after + 1);
                            if next > inner {
                                inner = next;
                            } else {
                                return Option::None;
                            }
                        } else if after < len && input[after] == 41 {
                            inner = after + 1;
                            break ;
                        } else {
                            return Option::None;
                        }
                    },
                    Option::None => {
                        return Option::None;
                    },
                }
            }
            accessors.push(Accessor::FunctionCall { parameters });
            proof {
                assert(spec_args_end(input@, argq) == Option::Some(inner as int));
            }
            cur = inner;
        } else {
            break ;
        }
    }
    Option::Some((QualifiedAccess { base, accessors }, cur))
}


/// What decoding a simple string body from the position yields: the
/// decoded bytes and the position after the closing quote; a doubled
/// quote stands for one quote.
pub open spec fn spec_string_body(s: Seq<u8>, p: int) -> Option<(Seq<u8>, int)>
    decreases s.len() - p,
{
    if p < 0 || p >= s.len() {
        Option::None
    } else if s[p] == 39 {
        if p + 1 < s.len() && s[p + 1] == 39 {
            match spec_string_body(s, p + 2) {
                Option::Some((rest, e)) => Option::Some((seq![39u8] + rest, e)),
                Option::None => Option::None,
            }
        } else {
            Option::Some((Seq::empty(), p + 1))
        }
    } else if s[p] < 128 {
        match spec_string_body(s, p + 1) {
            Option::Some((rest, e)) => Option::Some((seq![s[p]] + rest, e)),
            Option::None => Option::None,
        }
    } else {
        Option::None
    }
}

/// What reading a simple string literal yields.
pub open spec fn spec_string(s: Seq<u8>, pos: int) -> Option<(Seq<char>, int)> {
    if 0 <= pos < s.len() && s[pos] == 39 {
        match spec_string_body(s, pos + 1) {
            Option::Some((body, e)) => Option::Some((ascii_chars(body), e)),
            Option::None => Option::None,
        }
    } else {
        Option::None
    }
}

/// The end of the hex-digit run starting at the position.
pub open spec fn spec_hex_end(s: Seq<u8>, p: int) -> int
    decreases s.len() - p,
{
    if p < 0 || p >= s.len() {
        p
    } else if is_hex_byte(s[p]) {
        spec_hex_end(s, p + 1)
    } else {
        p
    }
}

/// What reading an encoded string literal yields: the hex spelling of its
/// code points.
pub open spec fn spec_encoded_string(s: Seq<u8>, pos: int) -> Option<(Seq<char>, int)> {
    if 0 <= pos < s.len() && s[pos] == 34 {
        let e = spec_hex_end(s, pos + 1);
        if e < s.len() && s[e] == 34 {
            Option::Some((ascii_chars(s.subrange(pos + 1, e)), e + 1))
        } else {
            Option::None
        }
    } else {
        Option::None
    }
}

/// The end of the bit run starting at the position.
pub open spec fn spec_bits_end(s: Seq<u8>, p: int) -> int
    decreases s.len() - p,
{
    if p < 0 || p >= s.len() {
        p
    } else if s[p] == 48 || s[p] == 49 {
        spec_bits_end(s, p + 1)
    } else {
        p
    }
}

/// What reading a binary literal yields: its bits as text.
pub open spec fn spec_binary_literal(s: Seq<u8>, pos: int) -> Option<(Seq<char>, int)> {
    if 0 <= pos < s.len() && s[pos] == 37 {
        let e = spec_bits_end(s, pos + 1);
        if e > pos + 1 {
            Option::Some((ascii_chars(s.subrange(pos + 1, e)), e))
        } else {
            Option::None
        }
    } else {
        Option::None
    }
}

/// What reading a number literal yields: an integer value, or a real kept
/// as its spelling when a decimal point or exponent follows the digits.
pub open spec fn spec_number_literal(s: Seq<u8>, pos: int) -> Option<(LiteralV, int)> {
    if !(0 <= pos < s.len()) {
        Option::None
    } else {
        let d = if s[pos] == 43 || s[pos] == 45 {
            pos + 1
        } else {
            pos
        };
        match spec_digits(s, d) {
            Option::None => Option::None,
            Option::Some((v, d1)) => {
                let f = if d1 < s.len() && s[d1] == 46 && d1 + 1 < s.len() && is_digit_byte(
                    s[d1 + 1],
                ) {
                    spec_digits_end(s, d1 + 1)
                } else {
                    d1
                };
                let e2 = if f < s.len() && (s[f] == 101 || s[f] == 69) {
                    let x = if f + 1 < s.len() && (s[f + 1] == 43 || s[f + 1] == 45) {
                        f + 2
                    } else {
                        f + 1
                    };
                    if x < s.len() && is_digit_byte(s[x]) {
                        spec_digits_end(s, x)
                    } else {
                        f
                    }
                } else {
                    f
                };
                if f != d1 || e2 != f {
                    if forall|k: int| pos <= k < e2 ==> s[k] < 128 {
                        Option::Some((LiteralV::Real(ascii_chars(s.subrange(pos, e2))), e2))
                    } else {
                        Option::None
                    }
                } else {
                    match spec_integer(s, pos) {
                        Option::Some((n, p)) => Option::Some((LiteralV::Integer(n), p)),
                        Option::None => Option::None,
                    }
                }
            },
        }
    }
}

/// What reading a literal yields: a number, a logical value, a string, or
/// a binary value, tried in that order.
pub open spec fn spec_literal(s: Seq<u8>, pos: int) -> Option<(LiteralV, int)> {
    match spec_number_literal(s, pos) {
        Option::Some(r) => Option::Some(r),
        Option::None => match spec_keyword(s, pos, "false".spec_bytes()) {
            Option::Some(p) => Option::Some((LiteralV::Logical(Option::Some(false)), p)),
            Option::None => match spec_keyword(s, pos, "true".spec_bytes()) {
                Option::Some(p) => Option::Some((LiteralV::Logical(Option::Some(true)), p)),
                Option::None => match spec_keyword(s, pos, "unknown".spec_bytes()) {
                    Option::Some(p) => Option::Some((LiteralV::Logical(Option::None), p)),
                    Option::None => match spec_string(s, pos) {
                        Option::Some((t, p)) => Option::Some((LiteralV::String(t), p)),
                        Option::None => match spec_encoded_string(s, pos) {
                            Option::Some((t, p)) => Option::Some((LiteralV::String(t), p)),
                            Option::None => match spec_binary_literal(s, pos) {
                                Option::Some((t, p)) => Option::Some((LiteralV::Binary(t), p)),
                                Option::None => Option::None,
                            },
                        },
                    },
                },
            },
        },
    }
}


/// What reading a parenthesized width with an optional `fixed` marker
/// yields.
pub open spec fn spec_width(s: Seq<u8>, pos: int) -> Option<(usize, bool, int)> {
    if !(0 <= pos < s.len() && s[pos] == 40) {
        Option::None
    } else {
        match spec_integer(s, pos + 1) {
            Option::Some((n, p)) => {
                if !(p < s.len() && s[p] == 41 && n >= 0) {
                    Option::None
                } else {
                    let width = n as usize;
                    let p2 = spec_skip(s, p + 1);
                    match spec_keyword(s, p2, "fixed".spec_bytes()) {
                        Option::Some(p3) => Option::Some((width, true, p3)),
                        Option::None => Option::Some((width, false, p + 1)),
                    }
                }
            },
            Option::None => Option::None,
        }
    }
}

/// What reading an aggregation bound yields: a literal or the unbounded
/// mark `?`.
pub open spec fn spec_bound(s: Seq<u8>, pos: int) -> Option<(Option<i64>, int)> {
    if 0 <= pos < s.len() && s[pos] == 63 {
        Option::Some((Option::None, pos + 1))
    } else {
        match spec_integer(s, pos) {
            Option::Some((n, p)) => Option::Some((Option::Some(n as i64), p)),
            Option::None => Option::None,
        }
    }
}

/// What reading a `[lo:hi]` bound specification yields.
pub open spec fn spec_bound_spec(s: Seq<u8>, pos: int) -> Option<(BoundSpec, int)> {
    if !(0 <= pos < s.len() && s[pos] == 91) {
        Option::None
    } else {
        let p1 = spec_skip(s, pos + 1);
        match spec_integer(s, p1) {
            Option::Some((start, p2)) => {
                let p3 = spec_skip(s, p2);
                if !(p3 < s.len() && s[p3] == 58) {
                    Option::None
                } else {
                    let p4 = spec_skip(s, p3 + 1);
                    match spec_bound(s, p4) {
                        Option::Some((end, p5)) => {
                            let p6 = spec_skip(s, p5);
                            if p6 < s.len() && s[p6] == 93 {
                                Option::Some((BoundSpec { start: start as i64, end }, p6 + 1))
                            } else {
                                Option::None
                            }
                        },
                        Option::None => Option::None,
                    }
                }
            },
            Option::None => Option::None,
        }
    }
}

/// What reading a simple data type yields: the keyword-to-variant
/// mapping, with optional precision or width.
pub open spec fn spec_simple_data_type(s: Seq<u8>, pos: int) -> Option<(DataTypeV, int)> {
    match spec_keyword(s, pos, "number".spec_bytes()) {
        Option::Some(p) => Option::Some((DataTypeV::Number, p)),
        Option::None => match spec_keyword(s, pos, "integer".spec_bytes()) {
            Option::Some(p) => Option::Some((DataTypeV::Integer, p)),
            Option::None => match spec_keyword(s, pos, "boolean".spec_bytes()) {
                Option::Some(p) => Option::Some((DataTypeV::Boolean, p)),
                Option::None => match spec_keyword(s, pos, "logical".spec_bytes()) {
                    Option::Some(p) => Option::Some((DataTypeV::Logical, p)),
                    Option::None => match spec_keyword(s, pos, "real".spec_bytes()) {
                        Option::Some(p) => if p < s.len() && s[p] == 40 {
                            match spec_integer(s, p + 1) {
                                Option::Some((n, p2)) => if p2 < s.len() && s[p2] == 41 && 0 <= n
                                    <= 255 {
                                    Option::Some(
                                        (
                                            DataTypeV::Real {
                                                precision: Option::Some(n as u8),
                                            },
                                            p2 + 1,
                                        ),
                                    )
                                } else {
                                    Option::None
                                },
                                Option::None => Option::None,
                            }
                        } else {
                            Option::Some((DataTypeV::Real { precision: Option::None }, p))
                        },
                        Option::None => match spec_keyword(s, pos, "string".spec_bytes()) {
                            Option::Some(p) => match spec_width(s, p) {
                                Option::Some((w, fx, p2)) => Option::Some(
                                    (
                                        DataTypeV::String {
                                            width: Option::Some(w),
                                            fixed: fx,
                                        },
                                        p2,
                                    ),
                                ),
                                Option::None => Option::Some(
                                    (
                                        DataTypeV::String {
                                            width: Option::None,
                                            fixed: false,
                                        },
                                        p,
                                    ),
                                ),
                            },
                            Option::None => match spec_keyword(s, pos, "binary".spec_bytes()) {
                                Option::Some(p) => match spec_width(s, p) {
                                    Option::Some((w, fx, p2)) => Option::Some(
                                        (
                                            DataTypeV::Binary {
                                                width: Option::Some(w),
                                                fixed: fx,
                                            },
                                            p2,
                                        ),
                                    ),
                                    Option::None => Option::Some(
                                        (
                                            DataTypeV::Binary {
                                                width: Option::None,
                                                fixed: false,
                                            },
                                            p,
                                        ),
                                    ),
                                },
                                Option::None => Option::None,
                            },
                        },
                    },
                },
            },
        },
    }
}

/// What reading the items of a non-empty name list yields, through the
/// closing parenthesis.
pub open spec fn spec_name_items(s: Seq<u8>, pos: int) -> Option<(Seq<Seq<char>>, int)>
    decreases s.len() - pos,
{
    match spec_ident(s, pos) {
        Option::None => Option::None,
        Option::Some((name, p)) => {
            if !(pos < p <= s.len()) {
                Option::None
            } else {
                let after = spec_skip(s, p);
                if after < s.len() && s[after] == 44 {
                    let next = spec_skip(s, after + 1);
                    if !(pos < next <= s.len()) {
                        Option::None
                    } else {
                        match spec_name_items(s, next) {
                            Option::Some((rest, e)) => Option::Some((seq![name] + rest, e)),
                            Option::None => Option::None,
                        }
                    }
                } else if after < s.len() && s[after] == 41 {
                    Option::Some((seq![name], after + 1))
                } else {
                    Option::None
                }
            }
        },
    }
}

/// What reading a parenthesized, comma-separated, non-empty name list
/// yields.
pub open spec fn spec_name_list(s: Seq<u8>, pos: int) -> Option<(Seq<Seq<char>>, int)> {
    if !(0 <= pos < s.len() && s[pos] == 40) {
        Option::None
    } else {
        let q = spec_skip(s, pos + 1);
        if !(pos < q <= s.len()) {
            Option::None
        } else {
            spec_name_items(s, q)
        }
    }
}

/// What reading a constructed type yields: an enumeration or a select,
/// member names kept verbatim in declared order.
pub open spec fn spec_constructed_data_type(s: Seq<u8>, pos: int) -> Option<(DataTypeV, int)> {
    match spec_keyword(s, pos, "enumeration".spec_bytes()) {
        Option::Some(p1) => {
            let p2 = spec_skip(s, p1);
            match spec_keyword(s, p2, "of".spec_bytes()) {
                Option::Some(p3) => {
                    let p4 = spec_skip(s, p3);
                    match spec_name_list(s, p4) {
                        Option::Some((values, p5)) => Option::Some(
                            (DataTypeV::Enum { values }, p5),
                        ),
                        Option::None => Option::None,
                    }
                },
                Option::None => Option::None,
            }
        },
        Option::None => match spec_keyword(s, pos, "select".spec_bytes()) {
            Option::Some(p1) => {
                let p2 = spec_skip(s, p1);
                match spec_name_list(s, p2) {
                    Option::Some((types, p3)) => Option::Some((DataTypeV::Select { types }, p3)),
                    Option::None => Option::None,
                }
            },
            Option::None => Option::None,
        },
    }
}

/// What reading an aggregation data type yields: array, list, bag, or set
/// of a recursively read base type, with bounds and flags as written.
pub open spec fn spec_aggregation_data_type(s: Seq<u8>, pos: int) -> Option<(DataTypeV, int)>
    decreases s.len() - pos, 0int,
{
    match spec_keyword(s, pos, "array".spec_bytes()) {
        Option::Some(p1) => {
            let p2 = spec_skip(s, p1);
            match spec_bound_spec(s, p2) {
                Option::Some((bound, p3)) => {
                    let p4 = spec_skip(s, p3);
                    match spec_keyword(s, p4, "of".spec_bytes()) {
                        Option::Some(p5) => {
                            let c0 = spec_skip(s, p5);
                            let opt = spec_keyword(s, c0, "optional".spec_bytes());
                            let optional = opt is Some;
                            let c1 = if optional {
                                spec_skip(s, opt->Some_0)
                            } else {
                                c0
                            };
                            let uniq = spec_keyword(s, c1, "unique".spec_bytes());
                            let unique = uniq is Some;
                            let c2 = if unique {
                                spec_skip(s, uniq->Some_0)
                            } else {
                                c1
                            };
                            if !(pos < c2 <= s.len()) {
                                Option::None
                            } else {
                                match spec_base_data_type(s, c2) {
                                    Option::Some((base, p8)) => Option::Some(
                                        (
                                            DataTypeV::Array {
                                                bound: Option::Some(bound),
                                                optional,
                                                unique,
                                                base_type: Box::new(base),
                                            },
                                            p8,
                                        ),
                                    ),
                                    Option::None => Option::None,
                                }
                            }
                        },
                        Option::None => Option::None,
                    }
                },
                Option::None => Option::None,
            }
        },
        Option::None => match spec_keyword(s, pos, "list".spec_bytes()) {
            Option::Some(p1) => {
                let c0 = spec_skip(s, p1);
                let bs = spec_bound_spec(s, c0);
                let bound = if bs is Some {
                    Option::Some(bs->Some_0.0)
                } else {
                    Option::<BoundSpec>::None
                };
                let c1 = if bs is Some {
                    spec_skip(s, bs->Some_0.1)
                } else {
                    c0
                };
                match spec_keyword(s, c1, "of".spec_bytes()) {
                    Option::Some(p3) => {
                        let c2 = spec_skip(s, p3);
                        let uniq = spec_keyword(s, c2, "unique".spec_bytes());
                        let unique = uniq is Some;
                        let c3 = if unique {
                            spec_skip(s, uniq->Some_0)
                        } else {
                            c2
                        };
                        if !(pos < c3 <= s.len()) {
                            Option::None
                        } else {
                            match spec_base_data_type(s, c3) {
                                Option::Some((base, p5)) => Option::Some(
                                    (
                                        DataTypeV::List {
                                            bound,
                                            unique,
                                            base_type: Box::new(base),
                                        },
                                        p5,
                                    ),
                                ),
                                Option::None => Option::None,
                            }
                        }
                    },
                    Option::None => Option::None,
                }
            },
            Option::None => match spec_keyword(s, pos, "bag".spec_bytes()) {
                Option::Some(p1) => {
                    let c0 = spec_skip(s, p1);
                    let bs = spec_bound_spec(s, c0);
                    let bound = if bs is Some {
                        Option::Some(bs->Some_0.0)
                    } else {
                        Option::<BoundSpec>::None
                    };
                    let c1 = if bs is Some {
                        spec_skip(s, bs->Some_0.1)
                    } else {
                        c0
                    };
                    match spec_keyword(s, c1, "of".spec_bytes()) {
                        Option::Some(p3) => {
                            let c2 = spec_skip(s, p3);
                            if !(pos < c2 <= s.len()) {
                                Option::None
                            } else {
                                match spec_base_data_type(s, c2) {
                                    Option::Some((base, p4)) => Option::Some(
                                        (
                                            DataTypeV::Bag { bound, base_type: Box::new(base) },
                                            p4,
                                        ),
                                    ),
                                    Option::None => Option::None,
                                }
                            }
                        },
                        Option::None => Option::None,
                    }
                },
                Option::None => match spec_keyword(s, pos, "set".spec_bytes()) {
                    Option::Some(p1) => {
                        let c0 = spec_skip(s, p1);
                        let bs = spec_bound_spec(s, c0);
                        let bound = if bs is Some {
                            Option::Some(bs->Some_0.0)
                        } else {
                            Option::<BoundSpec>::None
                        };
                        let c1 = if bs is Some {
                            spec_skip(s, bs->Some_0.1)
                        } else {
                            c0
                        };
                        match spec_keyword(s, c1, "of".spec_bytes()) {
                            Option::Some(p3) => {
                                let c2 = spec_skip(s, p3);
                                if !(pos < c2 <= s.len()) {
                                    Option::None
                                } else {
                                    match spec_base_data_type(s, c2) {
                                        Option::Some((base, p4)) => Option::Some(
                                            (
                                                DataTypeV::SetOf {
                                                    bound,
                                                    base_type: Box::new(base),
                                                },
                                                p4,
                                            ),
                                        ),
                                        Option::None => Option::None,
                                    }
                                }
                            },
                            Option::None => Option::None,
                        }
                    },
                    Option::None => Option::None,
                },
            },
        },
    }
}

/// What reading a base data type yields: an aggregation, a simple type,
/// or a reference to a named type.
pub open spec fn spec_base_data_type(s: Seq<u8>, pos: int) -> Option<(DataTypeV, int)>
    decreases s.len() - pos, 1int,
{
    match spec_aggregation_data_type(s, pos) {
        Option::Some(r) => Option::Some(r),
        Option::None => match spec_simple_data_type(s, pos) {
            Option::Some(r) => Option::Some(r),
            Option::None => match spec_ident(s, pos) {
                Option::Some((name, p)) => Option::Some((DataTypeV::TypeRef { name }, p)),
                Option::None => Option::None,
            },
        },
    }
}

/// What reading the underlying type of a type definition yields.
pub open spec fn spec_underlying_type(s: Seq<u8>, pos: int) -> Option<(DataTypeV, int)>
    decreases s.len() - pos, 2int,
{
    match spec_constructed_data_type(s, pos) {
        Option::Some(r) => Option::Some(r),
        Option::None => spec_base_data_type(s, pos),
    }
}

/// Reads a simple data type: number, integer, real, boolean, logical,
/// string, or binary, with optional width or precision.
#[verifier::loop_isolation(false)]
fn parse_simple_data_type(input: &[u8], pos: usize) -> (r: Option<(DataType, usize)>)
    requires
        pos <= input@.len(),
    ensures
        match r {
            Option::Some((v, p)) => pos < p <= input@.len() && spec_simple_data_type(
                input@,
                pos as int,
            ) == Option::Some((v@, p as int)),
            Option::None => (spec_simple_data_type(input@, pos as int) is None),
        },
{
    let len = input.len();
    match keyword(input, pos, "number") {
        Option::Some(p) => {
            return Option::Some((DataType::Number, p));
        },
        Option::None => {},
    }
    match keyword(input, pos, "integer") {
        Option::Some(p) => {
            return Option::Some((DataType::Integer, p));
        },
        Option::None => {},
    }
    match keyword(input, pos, "boolean") {
        Option::Some(p) => {
            return Option::Some((DataType::Boolean, p));
        },
        Option::None => {},
    }
    match keyword(input, pos, "logical") {
        Option::Some(p) => {
            return Option::Some((DataType::Logical, p));
        },
        Option::None => {},
    }
    match keyword(input, pos, "real") {
        Option::Some(p) => {
            if p < len && input[p] == 40 {
                match parse_integer(input, p + 1) {
                    Option::Some((n, p2)) => {
                        if p2 < len && input[p2] == 41 && 0 <= n && n <= 255 {
                            let prec: u8 = n as u8;
                            return Option::Some(
                                (DataType::Real { precision: Option::Some(prec) }, p2 + 1),
                            );
                        }
                        return Option::None;
                    },
                    Option::None => {
                        return Option::None;
                    },
                }
            }
            return Option::Some((DataType::Real { precision: Option::None }, p));
        },
        Option::None => {},
    }
    match keyword(input, pos, "string") {
        Option::Some(p) => {
            match parse_width_spec(input, p) {
                Option::Some((width, fixed, p2)) => {
                    return Option::Some(
                        (DataType::String { width: Option::Some(width), fixed }, p2),
                    );
                },
                Option::None => {},
            }
            return Option::Some((DataType::String { width: Option::None, fixed: false }, p));
        },
        Option::None => {},
    }
    match keyword(input, pos, "binary") {
        Option::Some(p) => {
            match parse_width_spec(input, p) {
                Option::Some((width, fixed, p2)) => {
                    return Option::Some(
                        (DataType::Binary { width: Option::Some(width), fixed }, p2),
                    );
                },
                Option::None => {},
            }
            return Option::Some((DataType::Binary { width: Option::None, fixed: false }, p));
        },
        Option::None => {},
    }
    Option::None
}

/// Reads a parenthesized width with an optional `fixed` marker.
fn parse_width_spec(input: &[u8], pos: usize) -> (r: Option<(usize, bool, usize)>)
    requires
        pos <= input@.len(),
    ensures
        match r {
            Option::Some((w, f, p)) => pos < p <= input@.len() && spec_width(input@, pos as int)
                == Option::Some((w, f, p as int)),
            Option::None => (spec_width(input@, pos as int) is None),
        },
{
    let len = input.len();
    if !(pos < len && input[pos] == 40) {
        return Option::None;
    }
    match parse_integer(input, pos + 1) {
        Option::Some((n, p)) => {
            if !(p < len && input[p] == 41 && n >= 0) {
                return Option::None;
            }
            let width = n as usize;
            let p2 = skip_space(input, p + 1);
            match keyword(input, p2, "fixed") {
                Option::Some(p3) => Option::Some((width, true, p3)),
                Option::None => Option::Some((width, false, p + 1)),
            }
        },
        Option::None => Option::None,
    }
}

/// Reads an aggregation bound: a literal or the unbounded mark `?`.
fn parse_bound(input: &[u8], pos: usize) -> (r: Option<(Option<i64>, usize)>)
    requires
        pos <= input@.len(),
    ensures
        match r {
            Option::Some((v, p)) => pos < p <= input@.len() && spec_bound(input@, pos as int)
                == Option::Some((v, p as int)),
            Option::None => (spec_bound(input@, pos as int) is None),
        },
{
    let len = input.len();
    if pos < len && input[pos] == 63 {
        return Option::Some((Option::None, pos + 1));
    }
    match parse_integer(input, pos) {
        Option::Some((n, p)) => Option::Some((Option::Some(n), p)),
        Option::None => Option::None,
    }
}

/// Reads a `[lo:hi]` bound specification.
fn parse_bound_spec(input: &[u8], pos: usize) -> (r: Option<(BoundSpec, usize)>)
    requires
        pos <= input@.len(),
    ensures
        match r {
            Option::Some((v, p)) => pos < p <= input@.len() && spec_bound_spec(
                input@,
                pos as int,
            ) == Option::Some((v, p as int)),
            Option::None => (spec_bound_spec(input@, pos as int) is None),
        },
{
    let len = input.len();
    if !(pos < len && input[pos] == 91) {
        return Option::None;
    }
    let p1 = skip_space(input, pos + 1);
    match parse_integer(input, p1) {
        Option::Some((start, p2)) => {
            let p3 = skip_space(input, p2);
            if !(p3 < len && input[p3] == 58) {
                return Option::None;
            }
            let p4 = skip_space(input, p3 + 1);
            match parse_bound(input, p4) {
                Option::Some((end, p5)) => {
                    let p6 = skip_space(input, p5);
                    if p6 < len && input[p6] == 93 {
                        Option::Some((BoundSpec { start, end }, p6 + 1))
                    } else {
                        Option::None
                    }
                },
                Option::None => Option::None,
            }
        },
        Option::None => Option::None,
    }
}

/// Reads an aggregation data type: array, list, bag, or set of a base
/// type, with optional bounds and modifiers.
#[verifier::loop_isolation(false)]
#[verifier::rlimit(100)]
fn parse_aggregation_data_type(input: &[u8], pos: usize) -> (r: Option<(DataType, usize)>)
    requires
        pos <= input@.len(),
    ensures
        match r {
            Option::Some((v, p)) => pos < p <= input@.len() && spec_aggregation_data_type(
                input@,
                pos as int,
            ) == Option::Some((v@, p as int)),
            Option::None => (spec_aggregation_data_type(input@, pos as int) is None),
        },
    decreases input@.len() - pos, 0int,
{
    let len = input.len();
    match keyword(input, pos, "array") {
        Option::Some(p1) => {
            let p2 = skip_space(input, p1);
            match parse_bound_spec(input, p2) {
                Option::Some((bound, p3)) => {
                    let p4 = skip_space(input, p3);
                    match keyword(input, p4, "of") {
                        Option::Some(p5) => {
                            let mut cur = skip_space(input, p5);
                            let mut optional = false;
                            let mut unique = false;
                            match keyword(input, cur, "optional") {
                                Option::Some(p6) => {
                                    optional = true;
                                    cur = skip_space(input, p6);
                                },
                                Option::None => {},
                            }
                            match keyword(input, cur, "unique") {
                                Option::Some(p7) => {
                                    unique = true;
                                    cur = skip_space(input, p7);
                                },
                                Option::None => {},
                            }
                            match parse_base_data_type(input, cur) {
                                Option::Some((base, p8)) => {
                                    return Option::Some(
                                        (
                                            DataType::Array {
                                                bound: Option::Some(bound),
                                                optional,
                                                unique,
                                                base_type: Box::new(base),
                                            },
                                            p8,
                                        ),
                                    );
                                },
                                Option::None => {
                                    return Option::None;
                                },
                            }
                        },
                        Option::None => {
                            return Option::None;
                        },
                    }
                },
                Option::None => {
                    return Option::None;
                },
            }
        },
        Option::None => {},
    }
    match keyword(input, pos, "list") {
        Option::Some(p1) => {
            let mut cur = skip_space(input, p1);
            let mut bound: Option<BoundSpec> = Option::None;
            match parse_bound_spec(input, cur) {
                Option::Some((b, p2)) => {
                    bound = Option::Some(b);
                    cur = skip_space(input, p2);
                },
                Option::None => {},
            }
            match keyword(input, cur, "of") {
                Option::Some(p3) => {
                    let mut cur2 = skip_space(input, p3);
                    let mut unique = false;
                    match keyword(input, cur2, "unique") {
                        Option::Some(p4) => {
                            unique = true;
                            cur2 = skip_space(input, p4);
                        },
                        Option::None => {},
                    }
                    match parse_base_data_type(input, cur2) {
                        Option::Some((base, p5)) => {
                            return Option::Some(
                                (DataType::List { bound, unique, base_type: Box::new(base) }, p5),
                            );
                        },
                        Option::None => {
                            return Option::None;
                        },
                    }
                },
                Option::None => {
                    return Option::None;
                },
            }
        },
        Option::None => {},
    }
    match keyword(input, pos, "bag") {
        Option::Some(p1) => {
            let mut cur = skip_space(input, p1);
            let mut bound: Option<BoundSpec> = Option::None;
            match parse_bound_spec(input, cur) {
                Option::Some((b, p2)) => {
                    bound = Option::Some(b);
                    cur = skip_space(input, p2);
                },
                Option::None => {},
            }
            match keyword(input, cur, "of") {
                Option::Some(p3) => {
                    let cur2 = skip_space(input, p3);
                    match parse_base_data_type(input, cur2) {
                        Option::Some((base, p4)) => {
                            return Option::Some(
                                (DataType::Bag { bound, base_type: Box::new(base) }, p4),
                            );
                        },
                        Option::None => {
                            return Option::None;
                        },
                    }
                },
                Option::None => {
                    return Option::None;
                },
            }
        },
        Option::None => {},
    }
    match keyword(input, pos, "set") {
        Option::Some(p1) => {
            let mut cur = skip_space(input, p1);
            let mut bound: Option<BoundSpec> = Option::None;
            match parse_bound_spec(input, cur) {
                Option::Some((b, p2)) => {
                    bound = Option::Some(b);
                    cur = skip_space(input, p2);
                },
                Option::None => {},
            }
            match keyword(input, cur, "of") {
                Option::Some(p3) => {
                    let cur2 = skip_space(input, p3);
                    match parse_base_data_type(input, cur2) {
                        Option::Some((base, p4)) => {
                            return Option::Some(
                                (DataType::SetOf { bound, base_type: Box::new(base) }, p4),
                            );
                        },
                        Option::None => {
                            return Option::None;
                        },
                    }
                },
                Option::None => {
                    return Option::None;
                },
            }
        },
        Option::None => {},
    }
    Option::None
}

/// Reads a base data type: an aggregation, a simple type, or a reference
/// to a named type.
fn parse_base_data_type(input: &[u8], pos: usize) -> (r: Option<(DataType, usize)>)
    requires
        pos <= input@.len(),
    ensures
        match r {
            Option::Some((v, p)) => pos < p <= input@.len() && spec_base_data_type(
                input@,
                pos as int,
            ) == Option::Some((v@, p as int)),
            Option::None => (spec_base_data_type(input@, pos as int) is None),
        },
    decreases input@.len() - pos, 1int,
{
    match parse_aggregation_data_type(input, pos) {
        Option::Some((v, p)) => {
            return Option::Some((v, p));
        },
        Option::None => {},
    }
    match parse_simple_data_type(input, pos) {
        Option::Some((v, p)) => {
            return Option::Some((v, p));
        },
        Option::None => {},
    }
    match parse_ident(input, pos) {
        Option::Some((name, p)) => Option::Some((DataType::TypeRef { name }, p)),
        Option::None => Option::None,
    }
}

/// Reads a constructed type: an enumeration or a select.
#[verifier::loop_isolation(false)]
fn parse_constructed_data_type(input: &[u8], pos: usize) -> (r: Option<(DataType, usize)>)
    requires
        pos <= input@.len(),
    ensures
        match r {
            Option::Some((v, p)) => pos < p <= input@.len() && spec_constructed_data_type(
                input@,
                pos as int,
            ) == Option::Some((v@, p as int)),
            Option::None => (spec_constructed_data_type(input@, pos as int) is None),
        },
{
    let len = input.len();
    match keyword(input, pos, "enumeration") {
        Option::Some(p1) => {
            let p2 = skip_space(input, p1);
            match keyword(input, p2, "of") {
                Option::Some(p3) => {
                    let p4 = skip_space(input, p3);
                    match parse_name_list(input, p4) {
                        Option::Some((values, p5)) => {
                            return Option::Some((DataType::Enum { values }, p5));
                        },
                        Option::None => {
                            return Option::None;
                        },
                    }
                },
                Option::None => {
                    return Option::None;
                },
            }
        },
        Option::None => {},
    }
    match keyword(input, pos, "select") {
        Option::Some(p1) => {
            let p2 = skip_space(input, p1);
            match parse_name_list(input, p2) {
                Option::Some((types, p3)) => {
                    return Option::Some((DataType::Select { types }, p3));
                },
                Option::None => {
                    return Option::None;
                },
            }
        },
        Option::None => {},
    }
    Option::None
}

/// Reads a parenthesized, comma-separated, non-empty name list.
#[verifier::loop_isolation(false)]
fn parse_name_list(input: &[u8], pos: usize) -> (r: Option<(Vec<String>, usize)>)
    requires
        pos <= input@.len(),
    ensures
        match r {
            Option::Some((v, p)) => pos < p <= input@.len() && v@.len() >= 1 && spec_name_list(
                input@,
                pos as int,
            ) == Option::Some((v.deep_view(), p as int)),
            Option::None => (spec_name_list(input@, pos as int) is None),
        },
{
    let len = input.len();
    if !(pos < len && input[pos] == 40) {
        return Option::None;
    }
    let mut names: Vec<String> = Vec::new();
    let mut cur = skip_space(input, pos + 1);
    let ghost q = cur as int;
    loop
        invariant
            pos < cur <= len,
            len == input@.len(),
            spec_name_items(input@, q) matches Option::Some(w) ==> (spec_name_items(
                input@,
                cur as int,
            ) matches Option::Some(w2) && w.0 == names.deep_view() + w2.0 && w.1 == w2.1),
            (spec_name_items(input@, q) is None) ==> (spec_name_items(input@, cur as int)
                is None),
        decreases len - cur,
    {
        match parse_ident(input, cur) {
            Option::Some((name, p)) => {
                let ghost prev = names.deep_view();
                names.push(name);
                proof {
                    assert(names.deep_view() =~= prev.push(name@));
                }
                let after = skip_space(input, p);
                if after < len && input[after] == 44 {
                    let next = skip_space(input, after + 1);
                    if next > cur {
                        proof {
                            if spec_name_items(input@, next as int) is Some {
                                let w2 = spec_name_items(input@, next as int)->Some_0;
                                assert(spec_name_items(input@, cur as int) == Option::Some(
                                    (seq![name@] + w2.0, w2.1),
                                ));
                                assert(prev + (seq![name@] + w2.0) =~= names.deep_view() + w2.0);
                            }
                        }
                        cur = next;
                    } else {
                        return Option::None;
                    }
                } else if after < len && input[after] == 41 {
                    proof {
                        assert(spec_name_items(input@, cur as int) == Option::Some(
                            (seq![name@], after + 1),
                        ));
                        assert(prev + seq![name@] =~= names.deep_view());
                    }
                    return Option::Some((names, after + 1));
                } else {
                    return Option::None;
                }
            },
            Option::None => {
                return Option::None;
            },
        }
    }
}

/// Reads the underlying type of a type definition.
fn parse_underlying_type(input: &[u8], pos: usize) -> (r: Option<(DataType, usize)>)
    requires
        pos <= input@.len(),
    ensures
        match r {
            Option::Some((v, p)) => pos < p <= input@.len() && spec_underlying_type(
                input@,
                pos as int,
            ) == Option::Some((v@, p as int)),
            Option::None => (spec_underlying_type(input@, pos as int) is None),
        },
    decreases input@.len() - pos, 2int,
{
    match parse_constructed_data_type(input, pos) {
        Option::Some((v, p)) => {
            return Option::Some((v, p));
        },
        Option::None => {},
    }
    parse_base_data_type(input, pos)
}

/// Reads a generic parameter type.
fn parse_generic_type(input: &[u8], pos: usize) -> (r: Option<(DataType, usize)>)
    requires
        pos <= input@.len(),
    ensures
        match r {
            Option::Some((v, p)) => pos < p <= input@.len() && spec_generic_type(
                input@,
                pos as int,
            ) == Option::Some((v@, p as int)),
            Option::None => (spec_generic_type(input@, pos as int) is None),
        },
{
    let len = input.len();
    match keyword(input, pos, "generic") {
        Option::Some(p1) => {
            let p2 = skip_space(input, p1);
            if p2 < len && input[p2] == 58 {
                let p3 = skip_space(input, p2 + 1);
                match parse_ident(input, p3) {
                    Option::Some((label, p4)) => Option::Some(
                        (DataType::Generic { type_label: Option::Some(label) }, p4),
                    ),
                    Option::None => Option::None,
                }
            } else {
                Option::Some((DataType::Generic { type_label: Option::None }, p1))
            }
        },
        Option::None => Option::None,
    }
}

/// Reads an aggregate parameter type.
fn parse_aggregate_type(input: &[u8], pos: usize) -> (r: Option<(DataType, usize)>)
    requires
        pos <= input@.len(),
    ensures
        match r {
            Option::Some((v, p)) => pos < p <= input@.len() && spec_aggregate_type(
                input@,
                pos as int,
            ) == Option::Some((v@, p as int)),
            Option::None => (spec_aggregate_type(input@, pos as int) is None),
        },
    decreases input@.len() - pos, 1int,
{
    let len = input.len();
    match keyword(input, pos, "aggregate") {
        Option::Some(p1) => {
            let mut cur = p1;
            let mut label: Option<String> = Option::None;
            let p2 = skip_space(input, p1);
            if p2 < len && input[p2] == 58 {
                let p3 = skip_space(input, p2 + 1);
                match parse_ident(input, p3) {
                    Option::Some((l, p4)) => {
                        label = Option::Some(l);
                        cur = p4;
                    },
                    Option::None => {
                        return Option::None;
                    },
                }
            }
            let p5 = skip_space(input, cur);
            match keyword(input, p5, "of") {
                Option::Some(p6) => {
                    let p7 = skip_space(input, p6);
                    match parse_parameter_type(input, p7) {
                        Option::Some((base, p8)) => Option::Some(
                            (
                                DataType::Aggregate {
                                    type_label: label,
                                    base_type: Box::new(base),
                                },
                                p8,
                            ),
                        ),
                        Option::None => Option::None,
                    }
                },
                Option::None => Option::None,
            }
        },
        Option::None => Option::None,
    }
}

/// Reads a formal parameter or return type.
fn parse_parameter_type(input: &[u8], pos: usize) -> (r: Option<(DataType, usize)>)
    requires
        pos <= input@.len(),
    ensures
        match r {
            Option::Some((v, p)) => pos < p <= input@.len() && spec_parameter_type(
                input@,
                pos as int,
            ) == Option::Some((v@, p as int)),
            Option::None => (spec_parameter_type(input@, pos as int) is None),
        },
    decreases input@.len() - pos, 2int,
{
    match parse_aggregation_data_type(input, pos) {
        Option::Some((v, p)) => {
            return Option::Some((v, p));
        },
        Option::None => {},
    }
    match parse_simple_data_type(input, pos) {
        Option::Some((v, p)) => {
            return Option::Some((v, p));
        },
        Option::None => {},
    }
    match parse_generic_type(input, pos) {
        Option::Some((v, p)) => {
            return Option::Some((v, p));
        },
        Option::None => {},
    }
    match parse_aggregate_type(input, pos) {
        Option::Some((v, p)) => {
            return Option::Some((v, p));
        },
        Option::None => {},
    }
    match parse_ident(input, pos) {
        Option::Some((name, p)) => Option::Some((DataType::TypeRef { name }, p)),
        Option::None => Option::None,
    }
}


/// What consuming one supertype-constraint term yields: the position
/// after a `oneof(...)`, a parenthesized constraint, or a name.
pub open spec fn spec_super_term(s: Seq<u8>, pos: int) -> Option<int>
    decreases s.len() - pos, 0int,
{
    match spec_keyword(s, pos, "oneof".spec_bytes()) {
        Option::Some(p1) => {
            let p2 = spec_skip(s, p1);
            if !(p2 < s.len() && s[p2] == 40) {
                Option::None
            } else {
                let q = spec_skip(s, p2 + 1);
                if !(pos < q <= s.len()) {
                    Option::None
                } else {
                    spec_oneof_items(s, q)
                }
            }
        },
        Option::None => {
            if 0 <= pos < s.len() && s[pos] == 40 {
                let q = spec_skip(s, pos + 1);
                if !(pos < q <= s.len()) {
                    Option::None
                } else {
                    match spec_super_expr(s, q) {
                        Option::Some(p2) => {
                            let p3 = spec_skip(s, p2);
                            if p3 < s.len() && s[p3] == 41 {
                                Option::Some(p3 + 1)
                            } else {
                                Option::None
                            }
                        },
                        Option::None => Option::None,
                    }
                }
            } else {
                match spec_ident(s, pos) {
                    Option::Some((name, p)) => Option::Some(p),
                    Option::None => Option::None,
                }
            }
        },
    }
}

/// What consuming the comma-separated constraints of a `oneof` yields.
pub open spec fn spec_oneof_items(s: Seq<u8>, pos: int) -> Option<int>
    decreases s.len() - pos, 9int,
{
    match spec_super_expr(s, pos) {
        Option::None => Option::None,
        Option::Some(p) => {
            if !(pos < p <= s.len()) {
                Option::None
            } else {
                let after = spec_skip(s, p);
                if after < s.len() && s[after] == 44 {
                    let next = spec_skip(s, after + 1);
                    if !(pos < next <= s.len()) {
                        Option::None
                    } else {
                        spec_oneof_items(s, next)
                    }
                } else if after < s.len() && s[after] == 41 {
                    Option::Some(after + 1)
                } else {
                    Option::None
                }
            }
        },
    }
}

/// What consuming a supertype-constraint factor yields: terms joined by
/// `and`.
pub open spec fn spec_super_factor(s: Seq<u8>, pos: int) -> Option<int>
    decreases s.len() - pos, 1int,
{
    match spec_super_term(s, pos) {
        Option::Some(p) => if pos < p <= s.len() {
            spec_super_factor_more(s, p)
        } else {
            Option::None
        },
        Option::None => Option::None,
    }
}

pub open spec fn spec_super_factor_more(s: Seq<u8>, cur: int) -> Option<int>
    decreases s.len() - cur, 8int,
{
    let p1 = spec_skip(s, cur);
    match spec_keyword(s, p1, "and".spec_bytes()) {
        Option::None => Option::Some(cur),
        Option::Some(p2) => {
            let p3 = spec_skip(s, p2);
            if !(cur < p3 <= s.len()) {
                Option::None
            } else {
                match spec_super_term(s, p3) {
                    Option::Some(p4) => if cur < p4 <= s.len() {
                        spec_super_factor_more(s, p4)
                    } else {
                        Option::None
                    },
                    Option::None => Option::None,
                }
            }
        },
    }
}

/// What consuming a supertype-constraint expression yields: factors
/// joined by `andor`.
pub open spec fn spec_super_expr(s: Seq<u8>, pos: int) -> Option<int>
    decreases s.len() - pos, 2int,
{
    match spec_super_factor(s, pos) {
        Option::Some(p) => if pos < p <= s.len() {
            spec_super_expr_more(s, p)
        } else {
            Option::None
        },
        Option::None => Option::None,
    }
}

pub open spec fn spec_super_expr_more(s: Seq<u8>, cur: int) -> Option<int>
    decreases s.len() - cur, 8int,
{
    let p1 = spec_skip(s, cur);
    match spec_keyword(s, p1, "andor".spec_bytes()) {
        Option::None => Option::Some(cur),
        Option::Some(p2) => {
            let p3 = spec_skip(s, p2);
            if !(cur < p3 <= s.len()) {
                Option::None
            } else {
                match spec_super_factor(s, p3) {
                    Option::Some(p4) => if cur < p4 <= s.len() {
                        spec_super_expr_more(s, p4)
                    } else {
                        Option::None
                    },
                    Option::None => Option::None,
                }
            }
        },
    }
}

/// What consuming an `of (...)` subtype constraint yields.
pub open spec fn spec_subtype_constraint(s: Seq<u8>, pos: int) -> Option<int> {
    match spec_keyword(s, pos, "of".spec_bytes()) {
        Option::Some(p1) => {
            let p2 = spec_skip(s, p1);
            if !(p2 < s.len() && s[p2] == 40) {
                Option::None
            } else {
                let p3 = spec_skip(s, p2 + 1);
                if !(0 <= p3 <= s.len()) {
                    Option::None
                } else {
                    match spec_super_expr(s, p3) {
                        Option::Some(p4) => {
                            let p5 = spec_skip(s, p4);
                            if p5 < s.len() && s[p5] == 41 {
                                Option::Some(p5 + 1)
                            } else {
                                Option::None
                            }
                        },
                        Option::None => Option::None,
                    }
                }
            }
        },
        Option::None => Option::None,
    }
}

/// What reading the optional supertype header yields: the abstract flag
/// and the position after it.
pub open spec fn spec_supertype_decl(s: Seq<u8>, pos: int) -> Option<(bool, int)> {
    match spec_keyword(s, pos, "abstract".spec_bytes()) {
        Option::Some(p1) => {
            let p2 = spec_skip(s, p1);
            match spec_keyword(s, p2, "supertype".spec_bytes()) {
                Option::Some(p3) => {
                    let p4 = spec_skip(s, p3);
                    match spec_subtype_constraint(s, p4) {
                        Option::Some(p5) => Option::Some((true, p5)),
                        Option::None => Option::Some((true, p3)),
                    }
                },
                Option::None => Option::None,
            }
        },
        Option::None => match spec_keyword(s, pos, "supertype".spec_bytes()) {
            Option::Some(p1) => {
                let p2 = spec_skip(s, p1);
                match spec_subtype_constraint(s, p2) {
                    Option::Some(p3) => Option::Some((false, p3)),
                    Option::None => Option::None,
                }
            },
            Option::None => Option::None,
        },
    }
}

/// What reading the `subtype of (...)` clause yields: the declared
/// supertype names.
pub open spec fn spec_subtype_decl(s: Seq<u8>, pos: int) -> Option<(Seq<Seq<char>>, int)> {
    match spec_keyword(s, pos, "subtype".spec_bytes()) {
        Option::Some(p1) => {
            let p2 = spec_skip(s, p1);
            match spec_keyword(s, p2, "of".spec_bytes()) {
                Option::Some(p3) => {
                    let p4 = spec_skip(s, p3);
                    if !(0 <= p4 <= s.len()) {
                        Option::None
                    } else {
                        spec_name_list(s, p4)
                    }
                },
                Option::None => Option::None,
            }
        },
        Option::None => Option::None,
    }
}

/// Whether the position starts a keyword that ends a rule list.
pub open spec fn spec_clause_end(s: Seq<u8>, pos: int) -> bool {
    (spec_keyword(s, pos, "end_entity".spec_bytes()) is Some) || (spec_keyword(
        s,
        pos,
        "end_type".spec_bytes(),
    ) is Some)
}

/// Whether the position starts one of the entity body clauses.
pub open spec fn spec_starts_clause(s: Seq<u8>, pos: int) -> bool {
    (spec_keyword(s, pos, "inverse".spec_bytes()) is Some) || (spec_keyword(
        s,
        pos,
        "unique".spec_bytes(),
    ) is Some) || (spec_keyword(s, pos, "where".spec_bytes()) is Some) || (spec_keyword(
        s,
        pos,
        "derive".spec_bytes(),
    ) is Some)
}

/// What reading the explicit attribute lines of an entity body yields:
/// the flattened lines in source order, up to the first clause keyword or
/// an unparsable line.
pub open spec fn spec_attr_lines(s: Seq<u8>, pos: int) -> (Seq<AttributeV>, int)
    decreases s.len() - pos,
{
    if spec_clause_end(s, pos) || spec_starts_clause(s, pos) {
        (Seq::empty(), pos)
    } else {
        match spec_attribute_line(s, pos) {
            Option::Some((attrs, p)) => {
                if pos < p <= s.len() {
                    let r = spec_attr_lines(s, p);
                    (attrs + r.0, r.1)
                } else {
                    (Seq::empty(), pos)
                }
            },
            Option::None => (Seq::empty(), pos),
        }
    }
}

/// What reading an entity declaration's generation-relevant content
/// yields: its name, abstract flag, supertype names, and explicit
/// attribute lines, with the position after the attributes.  The clause
/// sections that follow are consumed structurally and carry no content
/// the analyzer reads.
pub open spec fn spec_entity_head(s: Seq<u8>, pos: int) -> Option<
    ((Seq<char>, bool, Seq<Seq<char>>, Seq<AttributeV>), int),
> {
    match spec_keyword(s, pos, "entity".spec_bytes()) {
        Option::None => Option::None,
        Option::Some(p1) => {
            let p2 = spec_skip(s, p1);
            match spec_ident(s, p2) {
                Option::None => Option::None,
                Option::Some((name, p3)) => {
                    let c0 = spec_skip(s, p3);
                    let sup = spec_supertype_decl(s, c0);
                    let is_abstract = sup is Some && sup->Some_0.0;
                    let c1 = if sup is Some {
                        spec_skip(s, sup->Some_0.1)
                    } else {
                        c0
                    };
                    let sub = spec_subtype_decl(s, c1);
                    let supertypes = if sub is Some {
                        sub->Some_0.0
                    } else {
                        Seq::empty()
                    };
                    let c2 = if sub is Some {
                        spec_skip(s, sub->Some_0.1)
                    } else {
                        c1
                    };
                    if !(c2 < s.len() && s[c2] == 59) {
                        Option::None
                    } else {
                        let c3 = spec_skip(s, c2 + 1);
                        if !(0 <= c3 <= s.len()) {
                            Option::None
                        } else {
                            let r = spec_attr_lines(s, c3);
                            Option::Some(((name, is_abstract, supertypes, r.0), r.1))
                        }
                    }
                },
            }
        },
    }
}

/// Consumes a supertype constraint expression structurally; its content
/// is not evaluated.
#[verifier::loop_isolation(false)]
fn consume_supertype_expr(input: &[u8], pos: usize) -> (r: Option<usize>)
    requires
        pos <= input@.len(),
    ensures
        match r {
            Option::Some(p) => pos < p <= input@.len() && spec_super_expr(input@, pos as int)
                == Option::Some(p as int),
            Option::None => (spec_super_expr(input@, pos as int) is None),
        },
    decreases input@.len() - pos, 2int,
{
    let len = input.len();
    let mut cur: usize;
    match consume_supertype_factor(input, pos) {
        Option::Some(p) => {
            cur = p;
        },
        Option::None => {
            return Option::None;
        },
    }
    loop
        invariant
            pos < cur <= len,
            spec_super_expr(input@, pos as int) == spec_super_expr_more(input@, cur as int),
        decreases len - cur,
    {
        let p1 = skip_space(input, cur);
        match keyword(input, p1, "andor") {
            Option::Some(p2) => {
                let p3 = skip_space(input, p2);
                match consume_supertype_factor(input, p3) {
                    Option::Some(p4) => {
                        if p4 > cur {
                            cur = p4;
                        } else {
                            return Option::None;
                        }
                    },
                    Option::None => {
                        return Option::None;
                    },
                }
            },
            Option::None => {
                break ;
            },
        }
    }
    Option::Some(cur)
}

#[verifier::loop_isolation(false)]
fn consume_supertype_factor(input: &[u8], pos: usize) -> (r: Option<usize>)
    requires
        pos <= input@.len(),
    ensures
        match r {
            Option::Some(p) => pos < p <= input@.len() && spec_super_factor(input@, pos as int)
                == Option::Some(p as int),
            Option::None => (spec_super_factor(input@, pos as int) is None),
        },
    decreases input@.len() - pos, 1int,
{
    let len = input.len();
    let mut cur: usize;
    match consume_supertype_term(input, pos) {
        Option::Some(p) => {
            cur = p;
        },
        Option::None => {
            return Option::None;
        },
    }
    loop
        invariant
            pos < cur <= len,
            spec_super_factor(input@, pos as int) == spec_super_factor_more(input@, cur as int),
        decreases len - cur,
    {
        let p1 = skip_space(input, cur);
        match keyword(input, p1, "and") {
            Option::Some(p2) => {
                let p3 = skip_space(input, p2);
                match consume_supertype_term(input, p3) {
                    Option::Some(p4) => {
                        if p4 > cur {
                            cur = p4;
                        } else {
                            return Option::None;
                        }
                    },
                    Option::None => {
                        return Option::None;
                    },
                }
            },
            Option::None => {
                break ;
            },
        }
    }
    Option::Some(cur)
}

#[verifier::loop_isolation(false)]
fn consume_supertype_term(input: &[u8], pos: usize) -> (r: Option<usize>)
    requires
        pos <= input@.len(),
    ensures
        match r {
            Option::Some(p) => pos < p <= input@.len() && spec_super_term(input@, pos as int)
                == Option::Some(p as int),
            Option::None => (spec_super_term(input@, pos as int) is None),
        },
    decreases input@.len() - pos, 0int,
{
    let len = input.len();
    match keyword(input, pos, "oneof") {
        Option::Some(p1) => {
            let p2 = skip_space(input, p1);
            if !(p2 < len && input[p2] == 40) {
                return Option::None;
            }
            let mut cur = skip_space(input, p2 + 1);
            loop
                invariant
                    pos < cur <= len,
                    spec_super_term(input@, pos as int) == spec_oneof_items(input@, cur as int),
                decreases len - cur,
            {
                match consume_supertype_expr(input, cur) {
                    Option::Some(p3) => {
                        let after = skip_space(input, p3);
                        if after < len && input[after] == 44 {
                            let next = skip_space(input, after + 1);
                            if next > cur {
                                cur = next;
                            } else {
                                return Option::None;
                            }
                        } else if after < len && input[after] == 41 {
                            return Option::Some(after + 1);
                        } else {
                            return Option::None;
                        }
                    },
                    Option::None => {
                        return Option::None;
                    },
                }
            }
        },
        Option::None => {},
    }
    if pos < len && input[pos] == 40 {
        let p1 = skip_space(input, pos + 1);
        match consume_supertype_expr(input, p1) {
            Option::Some(p2) => {
                let p3 = skip_space(input, p2);
                if p3 < len && input[p3] == 41 {
                    return Option::Some(p3 + 1);
                }
                return Option::None;
            },
            Option::None => {
                return Option::None;
            },
        }
    }
    match parse_ident(input, pos) {
        Option::Some((_, p)) => Option::Some(p),
        Option::None => Option::None,
    }
}

/// Reads the optional supertype header of an entity; only the abstract
/// flag carries information forward.
fn parse_supertype_declaration(input: &[u8], pos: usize) -> (r: Option<(bool, usize)>)
    requires
        pos <= input@.len(),
    ensures
        match r {
            Option::Some((a, p)) => pos < p <= input@.len() && spec_supertype_decl(
                input@,
                pos as int,
            ) == Option::Some((a, p as int)),
            Option::None => (spec_supertype_decl(input@, pos as int) is None),
        },
{
    let len = input.len();
    match keyword(input, pos, "abstract") {
        Option::Some(p1) => {
            let p2 = skip_space(input, p1);
            match keyword(input, p2, "supertype") {
                Option::Some(p3) => {
                    let p4 = skip_space(input, p3);
                    match consume_subtype_constraint(input, p4) {
                        Option::Some(p5) => {
                            return Option::Some((true, p5));
                        },
                        Option::None => {
                            return Option::Some((true, p3));
                        },
                    }
                },
                Option::None => {
                    return Option::None;
                },
            }
        },
        Option::None => {},
    }
    match keyword(input, pos, "supertype") {
        Option::Some(p1) => {
            let p2 = skip_space(input, p1);
            match consume_subtype_constraint(input, p2) {
                Option::Some(p3) => Option::Some((false, p3)),
                Option::None => Option::None,
            }
        },
        Option::None => Option::None,
    }
}

fn consume_subtype_constraint(input: &[u8], pos: usize) -> (r: Option<usize>)
    requires
        pos <= input@.len(),
    ensures
        match r {
            Option::Some(p) => pos < p <= input@.len() && spec_subtype_constraint(
                input@,
                pos as int,
            ) == Option::Some(p as int),
            Option::None => (spec_subtype_constraint(input@, pos as int) is None),
        },
{
    let len = input.len();
    match keyword(input, pos, "of") {
        Option::Some(p1) => {
            let p2 = skip_space(input, p1);
            if !(p2 < len && input[p2] == 40) {
                return Option::None;
            }
            let p3 = skip_space(input, p2 + 1);
            match consume_supertype_expr(input, p3) {
                Option::Some(p4) => {
                    let p5 = skip_space(input, p4);
                    if p5 < len && input[p5] == 41 {
                        Option::Some(p5 + 1)
                    } else {
                        Option::None
                    }
                },
                Option::None => Option::None,
            }
        },
        Option::None => Option::None,
    }
}

/// Reads the `subtype of (...)` clause: the declared supertype names.
fn parse_subtype_declaration(input: &[u8], pos: usize) -> (r: Option<(Vec<String>, usize)>)
    requires
        pos <= input@.len(),
    ensures
        match r {
            Option::Some((v, p)) => pos < p <= input@.len() && spec_subtype_decl(
                input@,
                pos as int,
            ) == Option::Some((v.deep_view(), p as int)),
            Option::None => (spec_subtype_decl(input@, pos as int) is None),
        },
{
    match keyword(input, pos, "subtype") {
        Option::Some(p1) => {
            let p2 = skip_space(input, p1);
            match keyword(input, p2, "of") {
                Option::Some(p3) => {
                    let p4 = skip_space(input, p3);
                    match parse_name_list(input, p4) {
                        Option::Some((names, p5)) => Option::Some((names, p5)),
                        Option::None => Option::None,
                    }
                },
                Option::None => Option::None,
            }
        },
        Option::None => Option::None,
    }
}


/// What reading the names of an attribute line yields: the declared
/// names through the colon, which must not start a `:=` marker.
pub open spec fn spec_attr_names(s: Seq<u8>, pos: int) -> Option<(Seq<Seq<char>>, int)>
    decreases s.len() - pos,
{
    match spec_ident(s, pos) {
        Option::None => Option::None,
        Option::Some((name, p)) => {
            if !(pos < p <= s.len()) {
                Option::None
            } else {
                let after = spec_skip(s, p);
                if after < s.len() && s[after] == 44 {
                    let next = spec_skip(s, after + 1);
                    if !(pos < next <= s.len()) {
                        Option::None
                    } else {
                        match spec_attr_names(s, next) {
                            Option::Some((rest, e)) => Option::Some((seq![name] + rest, e)),
                            Option::None => Option::None,
                        }
                    }
                } else if after < s.len() && s[after] == 58 && !(after + 1 < s.len() && s[after
                    + 1] == 61) {
                    Option::Some((seq![name], spec_skip(s, after + 1)))
                } else {
                    Option::None
                }
            }
        },
    }
}

/// What reading one attribute line yields: one attribute per declared
/// name, in source order, each carrying an equal copy of the parsed data
/// type and the shared optional flag.
pub open spec fn spec_attribute_line(s: Seq<u8>, pos: int) -> Option<(Seq<AttributeV>, int)> {
    match spec_attr_names(s, pos) {
        Option::None => Option::None,
        Option::Some((names, c0)) => {
            let opt = spec_keyword(s, c0, "optional".spec_bytes());
            let optional = opt is Some;
            let c1 = if optional {
                spec_skip(s, opt->Some_0)
            } else {
                c0
            };
            if !(0 <= c1 <= s.len()) {
                Option::None
            } else {
                match spec_base_data_type(s, c1) {
                    Option::None => Option::None,
                    Option::Some((dt, p)) => {
                        let after = spec_skip(s, p);
                        if !(after < s.len() && s[after] == 59) {
                            Option::None
                        } else {
                            let end = spec_skip(s, after + 1);
                            if end > pos {
                                Option::Some(
                                    (
                                        Seq::new(
                                            names.len(),
                                            |i: int|
                                                AttributeV {
                                                    name: if 0 <= i < names.len() {
                                                        names[i]
                                                    } else {
                                                        Seq::empty()
                                                    },
                                                    supertype: Option::None,
                                                    data_type: dt,
                                                    optional,
                                                },
                                        ),
                                        end,
                                    ),
                                )
                            } else {
                                Option::None
                            }
                        }
                    },
                }
            }
        },
    }
}

/// Reads one attribute line: names, a colon, an optional marker, a data
/// type, and a semicolon; one attribute per declared name.
#[verifier::loop_isolation(false)]
fn parse_attr_names(input: &[u8], pos: usize) -> (r: Option<(Vec<String>, usize)>)
    requires
        pos <= input@.len(),
    ensures
        match r {
            Option::Some((v, p)) => pos < p <= input@.len() && spec_attr_names(
                input@,
                pos as int,
            ) == Option::Some((v.deep_view(), p as int)),
            Option::None => (spec_attr_names(input@, pos as int) is None),
        },
{
    let len = input.len();
    let mut names: Vec<String> = Vec::new();
    let mut cur = pos;
    loop
        invariant
            pos <= cur <= len,
            len == input@.len(),
            spec_attr_names(input@, pos as int) matches Option::Some(w) ==> (spec_attr_names(
                input@,
                cur as int,
            ) matches Option::Some(w2) && w.0 == names.deep_view() + w2.0 && w.1 == w2.1),
            (spec_attr_names(input@, pos as int) is None) ==> (spec_attr_names(
                input@,
                cur as int,
            ) is None),
        decreases len - cur,
    {
        match parse_ident(input, cur) {
            Option::Some((name, p)) => {
                let ghost prev = names.deep_view();
                names.push(name);
                proof {
                    assert(names.deep_view() =~= prev.push(name@));
                }
                let after = skip_space(input, p);
                if after < len && input[after] == 44 {
                    let next = skip_space(input, after + 1);
                    if next > cur {
                        proof {
                            if spec_attr_names(input@, next as int) is Some {
                                let w2 = spec_attr_names(input@, next as int)->Some_0;
                                assert(spec_attr_names(input@, cur as int) == Option::Some(
                                    (seq![name@] + w2.0, w2.1),
                                ));
                                assert(prev + (seq![name@] + w2.0) =~= names.deep_view() + w2.0);
                            }
                        }
                        cur = next;
                    } else {
                        return Option::None;
                    }
                } else if after < len && input[after] == 58 && !(after + 1 < len && input[after
                    + 1] == 61) {
                    let body = skip_space(input, after + 1);
                    proof {
                        assert(spec_attr_names(input@, cur as int) == Option::Some(
                            (seq![name@], body as int),
                        ));
                        assert(prev + seq![name@] =~= names.deep_view());
                    }
                    return Option::Some((names, body));
                } else {
                    return Option::None;
                }
            },
            Option::None => {
                return Option::None;
            },
        }
    }
}

/// Reads one attribute line: names, a colon, an optional marker, a data
/// type, and a semicolon; one attribute per declared name, each carrying
/// an equal copy of the parsed data type and the shared optional flag.
#[verifier::loop_isolation(false)]
fn parse_attribute_line(input: &[u8], pos: usize) -> (r: Option<(Vec<Attribute>, usize)>)
    requires
        pos <= input@.len(),
    ensures
        match r {
            Option::Some((v, p)) => pos < p <= input@.len() && spec_attribute_line(
                input@,
                pos as int,
            ) == Option::Some((v.deep_view(), p as int)),
            Option::None => (spec_attribute_line(input@, pos as int) is None),
        },
{
    let len = input.len();
    let names: Vec<String>;
    let mut cur: usize;
    match parse_attr_names(input, pos) {
        Option::Some((ns, p)) => {
            names = ns;
            cur = p;
        },
        Option::None => {
            return Option::None;
        },
    }
    let mut optional = false;
    match keyword(input, cur, "optional") {
        Option::Some(p) => {
            optional = true;
            cur = skip_space(input, p);
        },
        Option::None => {},
    }
    match parse_base_data_type(input, cur) {
        Option::Some((data_type, p)) => {
            let after = skip_space(input, p);
            if !(after < len && input[after] == 59) {
                return Option::None;
            }
            let end = skip_space(input, after + 1);
            let mut attrs: Vec<Attribute> = Vec::new();
            let mut i: usize = 0;
            while i < names.len()
                invariant
                    i <= names.len(),
                    attrs.len() == i,
                    forall|k: int|
                        0 <= k < i ==> attrs.deep_view()[k] == (AttributeV {
                            name: names.deep_view()[k],
                            supertype: Option::None,
                            data_type: data_type@,
                            optional,
                        }),
                decreases names.len() - i,
            {
                let built = Attribute {
                    name: crate::express::clone_string(&names[i]),
                    supertype: Option::None,
                    data_type: crate::express::clone_data_type(&data_type),
                    optional,
                };
                proof {
                    assert(built@ == (AttributeV {
                        name: names.deep_view()[i as int],
                        supertype: Option::None,
                        data_type: data_type@,
                        optional,
                    }));
                }
                let ghost prevdv = attrs.deep_view();
                attrs.push(built);
                proof {
                    assert(attrs.deep_view() =~= prevdv.push(built@));
                }
                i = i + 1;
            }
            if end > pos {
                proof {
                    let w = spec_attribute_line(input@, pos as int);
                    assert(attrs.deep_view() =~= Seq::new(
                        names.deep_view().len(),
                        |k: int|
                            AttributeV {
                                name: if 0 <= k < names.deep_view().len() {
                                    names.deep_view()[k]
                                } else {
                                    Seq::empty()
                                },
                                supertype: Option::None,
                                data_type: data_type@,
                                optional,
                            },
                    ));
                }
                Option::Some((attrs, end))
            } else {
                Option::None
            }
        },
        Option::None => Option::None,
    }
}


/// What consuming one attribute reference yields.
pub open spec fn spec_attr_ref_end(s: Seq<u8>, pos: int) -> Option<int> {
    match spec_keyword(s, pos, "self".spec_bytes()) {
        Option::Some(p1) => {
            if p1 < s.len() && s[p1] == 92 {
                match spec_ident(s, p1 + 1) {
                    Option::Some((entity, p2)) => {
                        if p2 < s.len() && s[p2] == 46 {
                            match spec_ident(s, p2 + 1) {
                                Option::Some((name, p3)) => Option::Some(p3),
                                Option::None => Option::None,
                            }
                        } else {
                            Option::None
                        }
                    },
                    Option::None => Option::None,
                }
            } else {
                Option::None
            }
        },
        Option::None => match spec_ident(s, pos) {
            Option::Some((name, p)) => Option::Some(p),
            Option::None => Option::None,
        },
    }
}

/// What consuming the rules of a `where` clause yields: the position
/// after the last rule; `seen` records whether a rule was read yet.
pub open spec fn spec_where_items(s: Seq<u8>, cur: int, seen: bool) -> Option<int>
    decreases s.len() - cur,
{
    let body = match spec_ident(s, cur) {
        Option::Some((name, p)) => {
            let after = spec_skip(s, p);
            if after < s.len() && s[after] == 58 && !(after + 1 < s.len() && s[after + 1] == 61)
                && !(after + 1 < s.len() && s[after + 1] == 60) && !(after + 1 < s.len() && s[after
                + 1] == 58) {
                spec_skip(s, after + 1)
            } else {
                cur
            }
        },
        Option::None => cur,
    };
    if !(0 <= body <= s.len()) {
        Option::None
    } else {
        match spec_expression_end(s, body) {
            Option::Some(p) => {
                let after = spec_skip(s, p);
                if !(after < s.len() && s[after] == 59) {
                    Option::None
                } else {
                    let next = spec_skip(s, after + 1);
                    if next <= cur || next > s.len() {
                        Option::None
                    } else if spec_ident(s, next) is None {
                        Option::Some(next)
                    } else if spec_clause_end(s, next) {
                        Option::Some(next)
                    } else {
                        spec_where_items(s, next, true)
                    }
                }
            },
            Option::None => if !seen {
                Option::None
            } else {
                Option::Some(cur)
            },
        }
    }
}

/// What consuming a `where` clause yields.
pub open spec fn spec_where_end(s: Seq<u8>, pos: int) -> Option<int> {
    match spec_keyword(s, pos, "where".spec_bytes()) {
        Option::Some(p) => {
            let c = spec_skip(s, p);
            if 0 <= c <= s.len() {
                spec_where_items(s, c, false)
            } else {
                Option::None
            }
        },
        Option::None => Option::None,
    }
}

/// What consuming the rules of a `derive` clause yields.
pub open spec fn spec_derive_items(s: Seq<u8>, cur: int, seen: bool) -> Option<int>
    decreases s.len() - cur,
{
    match spec_ident(s, cur) {
        Option::None => if !seen {
            Option::None
        } else {
            Option::Some(cur)
        },
        Option::Some((name, p1)) => {
            let p2 = spec_skip(s, p1);
            if !(p2 < s.len() && s[p2] == 58) {
                if !seen {
                    Option::None
                } else {
                    Option::Some(cur)
                }
            } else {
                let p3 = spec_skip(s, p2 + 1);
                if !(0 <= p3 <= s.len()) {
                    Option::None
                } else {
                    match spec_base_data_type(s, p3) {
                        Option::None => Option::None,
                        Option::Some((dt, p4)) => {
                            let p5 = spec_skip(s, p4);
                            if !(p5 < s.len() && s.len() - p5 >= 2 && s[p5] == 58 && s[p5 + 1]
                                == 61) {
                                Option::None
                            } else {
                                let p6 = spec_skip(s, p5 + 2);
                                if !(0 <= p6 <= s.len()) {
                                    Option::None
                                } else {
                                    match spec_expression_end(s, p6) {
                                        Option::None => Option::None,
                                        Option::Some(p7) => {
                                            let p8 = spec_skip(s, p7);
                                            if !(p8 < s.len() && s[p8] == 59) {
                                                Option::None
                                            } else {
                                                let next = spec_skip(s, p8 + 1);
                                                if next <= cur || next > s.len() {
                                                    Option::None
                                                } else if spec_ident(s, next) is None {
                                                    Option::Some(next)
                                                } else if spec_clause_end(s, next)
                                                    || spec_starts_clause(s, next) {
                                                    Option::Some(next)
                                                } else {
                                                    spec_derive_items(s, next, true)
                                                }
                                            }
                                        },
                                    }
                                }
                            }
                        },
                    }
                }
            }
        },
    }
}

/// What consuming a `derive` clause yields.
pub open spec fn spec_derive_end(s: Seq<u8>, pos: int) -> Option<int> {
    match spec_keyword(s, pos, "derive".spec_bytes()) {
        Option::Some(p) => {
            let c = spec_skip(s, p);
            if 0 <= c <= s.len() {
                spec_derive_items(s, c, false)
            } else {
                Option::None
            }
        },
        Option::None => Option::None,
    }
}

/// The index of the first semicolon at or after the position, or the
/// input's end.
pub open spec fn spec_semi_idx(s: Seq<u8>, p: int) -> int
    decreases s.len() - p,
{
    if p < 0 || p >= s.len() {
        s.len() as int
    } else if s[p] == 59 {
        p
    } else {
        spec_semi_idx(s, p + 1)
    }
}

/// What consuming the lines of an `inverse` clause yields.
pub open spec fn spec_inverse_items(s: Seq<u8>, cur: int, seen: bool) -> Option<int>
    decreases s.len() - cur,
{
    if spec_clause_end(s, cur) || spec_starts_clause(s, cur) {
        if seen {
            Option::Some(cur)
        } else {
            Option::None
        }
    } else {
        let j = spec_semi_idx(s, cur);
        if j < s.len() && s[j] == 59 {
            let next = spec_skip(s, j + 1);
            if cur < next <= s.len() {
                spec_inverse_items(s, next, true)
            } else {
                if seen {
                    Option::Some(cur)
                } else {
                    Option::None
                }
            }
        } else {
            if seen {
                Option::Some(cur)
            } else {
                Option::None
            }
        }
    }
}

/// What consuming an `inverse` clause yields.
pub open spec fn spec_inverse_end(s: Seq<u8>, pos: int) -> Option<int> {
    match spec_keyword(s, pos, "inverse".spec_bytes()) {
        Option::Some(p) => {
            let c = spec_skip(s, p);
            if 0 <= c <= s.len() {
                spec_inverse_items(s, c, false)
            } else {
                Option::None
            }
        },
        Option::None => Option::None,
    }
}

/// What consuming the attribute references of one uniqueness rule yields:
/// the position after the rule.
pub open spec fn spec_uattrs_end(s: Seq<u8>, pos: int) -> Option<int>
    decreases s.len() - pos,
{
    match spec_attr_ref_end(s, pos) {
        Option::None => Option::None,
        Option::Some(p) => {
            if !(pos < p <= s.len()) {
                Option::None
            } else {
                let after = spec_skip(s, p);
                if after < s.len() && s[after] == 44 {
                    let next = spec_skip(s, after + 1);
                    if pos < next <= s.len() {
                        spec_uattrs_end(s, next)
                    } else {
                        Option::None
                    }
                } else if after < s.len() && s[after] == 59 {
                    Option::Some(spec_skip(s, after + 1))
                } else {
                    Option::Some(after)
                }
            }
        },
    }
}

/// What consuming the rules of a `unique` clause yields.
pub open spec fn spec_unique_items(s: Seq<u8>, cur: int, seen: bool) -> Option<int>
    decreases s.len() - cur,
{
    if spec_clause_end(s, cur) || spec_starts_clause(s, cur) {
        if seen {
            Option::Some(cur)
        } else {
            Option::None
        }
    } else {
        match spec_ident(s, cur) {
            Option::None => if seen {
                Option::Some(cur)
            } else {
                Option::None
            },
            Option::Some((name, p)) => {
                let after = spec_skip(s, p);
                let body = if after < s.len() && s[after] == 58 {
                    spec_skip(s, after + 1)
                } else {
                    cur
                };
                if !(0 <= body <= s.len()) {
                    Option::None
                } else {
                    match spec_uattrs_end(s, body) {
                        Option::None => Option::None,
                        Option::Some(inner) => if inner <= cur {
                            Option::Some(cur)
                        } else if inner > s.len() {
                            Option::None
                        } else {
                            spec_unique_items(s, inner, true)
                        },
                    }
                }
            },
        }
    }
}

/// What consuming a `unique` clause yields.
pub open spec fn spec_unique_end(s: Seq<u8>, pos: int) -> Option<int> {
    match spec_keyword(s, pos, "unique".spec_bytes()) {
        Option::Some(p) => {
            let c = spec_skip(s, p);
            if 0 <= c <= s.len() {
                spec_unique_items(s, c, false)
            } else {
                Option::None
            }
        },
        Option::None => Option::None,
    }
}

/// Reads a `where` clause: labelled domain rules kept structurally.
#[verifier::loop_isolation(false)]
fn parse_where_clause(input: &[u8], pos: usize) -> (r: Option<(Vec<DomainRule>, usize)>)
    requires
        pos <= input@.len(),
    ensures
        match r {
            Option::Some((v, p)) => pos < p <= input@.len() && spec_where_end(input@, pos as int)
                == Option::Some(p as int),
            Option::None => (spec_where_end(input@, pos as int) is None),
        },
{
    let len = input.len();
    let mut rules: Vec<DomainRule> = Vec::new();
    let mut cur: usize;
    match keyword(input, pos, "where") {
        Option::Some(p) => {
            cur = skip_space(input, p);
        },
        Option::None => {
            return Option::None;
        },
    }
    loop
        invariant
            pos < cur <= len,
            spec_where_end(input@, pos as int) == spec_where_items(
                input@,
                cur as int,
                rules@.len() > 0,
            ),
        decreases len - cur,
    {
        let mut label: Option<String> = Option::None;
        let mut body = cur;
        match parse_ident(input, cur) {
            Option::Some((name, p)) => {
                let after = skip_space(input, p);
                if after < len && input[after] == 58 && !(after + 1 < len && input[after + 1]
                    == 61) && !(after + 1 < len && input[after + 1] == 60) && !(after + 1 < len
                    && input[after + 1] == 58) {
                    label = Option::Some(name);
                    body = skip_space(input, after + 1);
                }
            },
            Option::None => {},
        }
        match parse_expression(input, body) {
            Option::Some((expr, p)) => {
                let after = skip_space(input, p);
                if !(after < len && input[after] == 59) {
                    return Option::None;
                }
                rules.push(DomainRule { label, expr });
                let next = skip_space(input, after + 1);
                if next <= cur {
                    return Option::None;
                }
                let mut ends = false;
                match parse_ident(input, next) {
                    Option::Some(_) => {},
                    Option::None => {
                        ends = true;
                    },
                }
                if !ends && is_clause_end(input, next) {
                    ends = true;
                }
                if ends {
                    return Option::Some((rules, next));
                }
                cur = next;
            },
            Option::None => {
                if rules.len() == 0 {
                    return Option::None;
                }
                return Option::Some((rules, cur));
            },
        }
    }
}

/// Whether the position starts a keyword that ends a rule list.
fn is_clause_end(input: &[u8], pos: usize) -> (r: bool)
    requires
        pos <= input@.len(),
    ensures
        r == spec_clause_end(input@, pos as int),
{
    match keyword(input, pos, "end_entity") {
        Option::Some(_) => true,
        Option::None => {
            match keyword(input, pos, "end_type") {
                Option::Some(_) => true,
                Option::None => false,
            }
        },
    }
}

/// Reads a `derive` clause: derived attributes kept structurally.
#[verifier::loop_isolation(false)]
fn parse_derive_clause(input: &[u8], pos: usize) -> (r: Option<(Vec<DerivedAttribute>, usize)>)
    requires
        pos <= input@.len(),
    ensures
        match r {
            Option::Some((v, p)) => pos < p <= input@.len() && spec_derive_end(input@, pos as int)
                == Option::Some(p as int),
            Option::None => (spec_derive_end(input@, pos as int) is None),
        },
{
    let len = input.len();
    let mut derives: Vec<DerivedAttribute> = Vec::new();
    let mut cur: usize;
    match keyword(input, pos, "derive") {
        Option::Some(p) => {
            cur = skip_space(input, p);
        },
        Option::None => {
            return Option::None;
        },
    }
    loop
        invariant
            pos < cur <= len,
            spec_derive_end(input@, pos as int) == spec_derive_items(
                input@,
                cur as int,
                derives@.len() > 0,
            ),
        decreases len - cur,
    {
        match parse_ident(input, cur) {
            Option::Some((name, p1)) => {
                let p2 = skip_space(input, p1);
                if !(p2 < len && input[p2] == 58) {
                    if derives.len() == 0 {
                        return Option::None;
                    }
                    return Option::Some((derives, cur));
                }
                let p3 = skip_space(input, p2 + 1);
                match parse_base_data_type(input, p3) {
                    Option::Some((data_type, p4)) => {
                        let p5 = skip_space(input, p4);
                        if !(p5 < len && len - p5 >= 2 && input[p5] == 58 && input[p5 + 1] == 61) {
                            return Option::None;
                        }
                        let p6 = skip_space(input, p5 + 2);
                        match parse_expression(input, p6) {
                            Option::Some((expr, p7)) => {
                                let p8 = skip_space(input, p7);
                                if !(p8 < len && input[p8] == 59) {
                                    return Option::None;
                                }
                                derives.push(DerivedAttribute { name, data_type, expr });
                                let next = skip_space(input, p8 + 1);
                                if next <= cur {
                                    return Option::None;
                                }
                                let mut ends = false;
                                match parse_ident(input, next) {
                                    Option::Some(_) => {},
                                    Option::None => {
                                        ends = true;
                                    },
                                }
                                if !ends && (is_clause_end(input, next) || starts_clause(
                                    input,
                                    next,
                                )) {
                                    ends = true;
                                }
                                if ends {
                                    return Option::Some((derives, next));
                                }
                                cur = next;
                            },
                            Option::None => {
                                return Option::None;
                            },
                        }
                    },
                    Option::None => {
                        return Option::None;
                    },
                }
            },
            Option::None => {
                if derives.len() == 0 {
                    return Option::None;
                }
                return Option::Some((derives, cur));
            },
        }
    }
}

/// Whether the position starts one of the entity body clauses.
fn starts_clause(input: &[u8], pos: usize) -> (r: bool)
    requires
        pos <= input@.len(),
    ensures
        r == spec_starts_clause(input@, pos as int),
{
    match keyword(input, pos, "inverse") {
        Option::Some(_) => {
            return true;
        },
        Option::None => {},
    }
    match keyword(input, pos, "unique") {
        Option::Some(_) => {
            return true;
        },
        Option::None => {},
    }
    match keyword(input, pos, "where") {
        Option::Some(_) => {
            return true;
        },
        Option::None => {},
    }
    match keyword(input, pos, "derive") {
        Option::Some(_) => {
            return true;
        },
        Option::None => {},
    }
    false
}

/// Consumes an `inverse` clause structurally; its lines end at semicolons
/// and carry nothing the analyzer reads.
#[verifier::loop_isolation(false)]
fn consume_inverse_clause(input: &[u8], pos: usize) -> (r: Option<usize>)
    requires
        pos <= input@.len(),
    ensures
        match r {
            Option::Some(p) => pos < p <= input@.len() && spec_inverse_end(input@, pos as int)
                == Option::Some(p as int),
            Option::None => (spec_inverse_end(input@, pos as int) is None),
        },
{
    let len = input.len();
    let mut cur: usize;
    match keyword(input, pos, "inverse") {
        Option::Some(p) => {
            cur = skip_space(input, p);
        },
        Option::None => {
            return Option::None;
        },
    }
    let mut seen: bool = false;
    loop
        invariant
            pos < cur <= len,
            spec_inverse_end(input@, pos as int) == spec_inverse_items(input@, cur as int, seen),
        decreases len - cur,
    {
        if is_clause_end(input, cur) || starts_clause(input, cur) {
            if seen {
                return Option::Some(cur);
            }
            return Option::None;
        }
        let mut j = cur;
        while j < len && input[j] != 59
            invariant
                cur <= j <= len,
                spec_semi_idx(input@, cur as int) == spec_semi_idx(input@, j as int),
            decreases len - j,
        {
            j = j + 1;
        }
        proof {
            assert(spec_semi_idx(input@, j as int) == if j < input@.len() {
                j as int
            } else {
                input@.len() as int
            });
        }
        if j < len && input[j] == 59 {
            let next = skip_space(input, j + 1);
            if next > cur {
                cur = next;
                seen = true;
                continue ;
            }
        }
        if seen {
            return Option::Some(cur);
        }
        return Option::None;
    }
}

/// Reads a `unique` clause: labelled uniqueness rules over attribute
/// references.
#[verifier::loop_isolation(false)]
fn parse_unique_clause(input: &[u8], pos: usize) -> (r: Option<(Vec<UniqueRule>, usize)>)
    requires
        pos <= input@.len(),
    ensures
        match r {
            Option::Some((v, p)) => pos < p <= input@.len() && spec_unique_end(input@, pos as int)
                == Option::Some(p as int),
            Option::None => (spec_unique_end(input@, pos as int) is None),
        },
{
    let len = input.len();
    let mut rules: Vec<UniqueRule> = Vec::new();
    let mut cur: usize;
    match keyword(input, pos, "unique") {
        Option::Some(p) => {
            cur = skip_space(input, p);
        },
        Option::None => {
            return Option::None;
        },
    }
    loop
        invariant
            pos < cur <= len,
            spec_unique_end(input@, pos as int) == spec_unique_items(
                input@,
                cur as int,
                rules@.len() > 0,
            ),
        decreases len - cur,
    {
        if is_clause_end(input, cur) || starts_clause(input, cur) {
            if rules.len() == 0 {
                return Option::None;
            }
            return Option::Some((rules, cur));
        }
        let mut label: Option<String> = Option::None;
        let mut body = cur;
        match parse_ident(input, cur) {
            Option::Some((name, p)) => {
                let after = skip_space(input, p);
                if after < len && input[after] == 58 {
                    label = Option::Some(name);
                    body = skip_space(input, after + 1);
                }
            },
            Option::None => {
                if rules.len() == 0 {
                    return Option::None;
                }
                return Option::Some((rules, cur));
            },
        }
        let mut attributes: Vec<AttributeReference> = Vec::new();
        let mut inner = body;
        let ghost b0 = body as int;
        loop
            invariant
                pos <= inner <= len,
                cur <= len,
                spec_uattrs_end(input@, b0) == spec_uattrs_end(input@, inner as int),
            decreases len - inner,
        {
            match parse_attribute_ref(input, inner) {
                Option::Some((ar, p)) => {
                    attributes.push(ar);
                    let after = skip_space(input, p);
                    if after < len && input[after] == 44 {
                        let next = skip_space(input, after + 1);
                        if next > inner {
                            inner = next;
                        } else {
                            return Option::None;
                        }
                    } else if after < len && input[after] == 59 {
                        let e = skip_space(input, after + 1);
                        proof {
                            assert(spec_uattrs_end(input@, b0) == Option::Some(e as int));
                        }
                        inner = e;
                        break ;
                    } else {
                        proof {
                            assert(spec_uattrs_end(input@, b0) == Option::Some(after as int));
                        }
                        inner = after;
                        break ;
                    }
                },
                Option::None => {
                    return Option::None;
                },
            }
        }
        rules.push(UniqueRule { label, attributes });
        if inner <= cur {
            return Option::Some((rules, cur));
        }
        cur = inner;
    }
}

/// Reads one attribute reference, possibly qualified by an entity name.
fn parse_attribute_ref(input: &[u8], pos: usize) -> (r: Option<(AttributeReference, usize)>)
    requires
        pos <= input@.len(),
    ensures
        match r {
            Option::Some((v, p)) => pos < p <= input@.len() && spec_attr_ref_end(
                input@,
                pos as int,
            ) == Option::Some(p as int),
            Option::None => (spec_attr_ref_end(input@, pos as int) is None),
        },
{
    let len = input.len();
    match keyword(input, pos, "self") {
        Option::Some(p1) => {
            if p1 < len && input[p1] == 92 {
                match parse_ident(input, p1 + 1) {
                    Option::Some((entity, p2)) => {
                        if p2 < len && input[p2] == 46 {
                            match parse_ident(input, p2 + 1) {
                                Option::Some((name, p3)) => {
                                    return Option::Some(
                                        (
                                            AttributeReference {
                                                name,
                                                entity: Option::Some(entity),
                                            },
                                            p3,
                                        ),
                                    );
                                },
                                Option::None => {
                                    return Option::None;
                                },
                            }
                        }
                        return Option::None;
                    },
                    Option::None => {
                        return Option::None;
                    },
                }
            }
            return Option::None;
        },
        Option::None => {},
    }
    match parse_ident(input, pos) {
        Option::Some((name, p)) => Option::Some(
            (AttributeReference { name, entity: Option::None }, p),
        ),
        Option::None => Option::None,
    }
}


/// What reading a type definition's generation-relevant head yields: its
/// name and underlying type, with the position after the terminating
/// semicolon.  A where clause that follows is consumed structurally.
pub open spec fn spec_typedef_head(s: Seq<u8>, pos: int) -> Option<
    ((Seq<char>, DataTypeV), int),
> {
    match spec_keyword(s, pos, "type".spec_bytes()) {
        Option::None => Option::None,
        Option::Some(p1) => {
            let p2 = spec_skip(s, p1);
            match spec_ident(s, p2) {
                Option::None => Option::None,
                Option::Some((name, p3)) => {
                    let p4 = spec_skip(s, p3);
                    if !(p4 < s.len() && s[p4] == 61) {
                        Option::None
                    } else {
                        let p5 = spec_skip(s, p4 + 1);
                        if !(0 <= p5 <= s.len()) {
                            Option::None
                        } else {
                            match spec_underlying_type(s, p5) {
                                Option::None => Option::None,
                                Option::Some((dt, p6)) => {
                                    let p7 = spec_skip(s, p6);
                                    if p7 < s.len() && s[p7] == 59 {
                                        Option::Some(((name, dt), spec_skip(s, p7 + 1)))
                                    } else {
                                        Option::None
                                    }
                                },
                            }
                        }
                    }
                },
            }
        },
    }
}

/// Reads one `type ... end_type;` declaration.
#[verifier::loop_isolation(false)]
fn parse_named_type(input: &[u8], pos: usize) -> (r: Option<(Declaration, usize)>)
    requires
        pos <= input@.len(),
    ensures
        match r {
            Option::Some((v, p)) => pos < p <= input@.len() && v is TypeDef && (spec_typedef_full(
                input@,
                pos as int,
            ) matches Option::Some(h) && v@ == DeclarationV::TypeDef(
                TypeDefV { name: h.0.0, underlying_type: h.0.1 },
            ) && h.1 == p as int),
            Option::None => (spec_typedef_full(input@, pos as int) is None),
        },
{
    let len = input.len();
    match keyword(input, pos, "type") {
        Option::Some(p1) => {
            let p2 = skip_space(input, p1);
            match parse_ident(input, p2) {
                Option::Some((name, p3)) => {
                    let p4 = skip_space(input, p3);
                    if !(p4 < len && input[p4] == 61) {
                        return Option::None;
                    }
                    let p5 = skip_space(input, p4 + 1);
                    match parse_underlying_type(input, p5) {
                        Option::Some((underlying_type, p6)) => {
                            let p7 = skip_space(input, p6);
                            if !(p7 < len && input[p7] == 59) {
                                return Option::None;
                            }
                            let mut cur = skip_space(input, p7 + 1);
                            let mut domain_rules: Vec<DomainRule> = Vec::new();
                            match parse_where_clause(input, cur) {
                                Option::Some((rules, p8)) => {
                                    domain_rules = rules;
                                    if p8 > cur {
                                        cur = p8;
                                    }
                                },
                                Option::None => {},
                            }
                            match keyword(input, cur, "end_type") {
                                Option::Some(p9) => {
                                    let p10 = skip_space(input, p9);
                                    if p10 < len && input[p10] == 59 {
                                        return Option::Some(
                                            (
                                                Declaration::TypeDef(
                                                    TypeDef { name, underlying_type, domain_rules },
                                                ),
                                                skip_space(input, p10 + 1),
                                            ),
                                        );
                                    }
                                    return Option::None;
                                },
                                Option::None => {
                                    return Option::None;
                                },
                            }
                        },
                        Option::None => {
                            return Option::None;
                        },
                    }
                },
                Option::None => {
                    return Option::None;
                },
            }
        },
        Option::None => Option::None,
    }
}

/// Reads an entity declaration's generation-relevant head: the name,
/// the abstract flag, the declared supertype names, and the explicit
/// attribute lines.
#[verifier::loop_isolation(false)]
#[verifier::rlimit(60)]
fn parse_entity_head(input: &[u8], pos: usize) -> (r: Option<
    (String, bool, Vec<String>, Vec<Attribute>, usize),
>)
    requires
        pos <= input@.len(),
    ensures
        match r {
            Option::Some((name, is_abstract, supertypes, attributes, p)) => pos < p
                <= input@.len() && spec_entity_head(input@, pos as int) == Option::Some(
                ((name@, is_abstract, supertypes.deep_view(), attributes.deep_view()), p as int),
            ),
            Option::None => (spec_entity_head(input@, pos as int) is None),
        },
{
    let len = input.len();
    let name: String;
    let mut cur: usize;
    match keyword(input, pos, "entity") {
        Option::Some(p1) => {
            let p2 = skip_space(input, p1);
            match parse_ident(input, p2) {
                Option::Some((n, p3)) => {
                    name = n;
                    cur = skip_space(input, p3);
                },
                Option::None => {
                    return Option::None;
                },
            }
        },
        Option::None => {
            return Option::None;
        },
    }
    let mut is_abstract = false;
    match parse_supertype_declaration(input, cur) {
        Option::Some((a, p)) => {
            is_abstract = a;
            cur = skip_space(input, p);
        },
        Option::None => {},
    }
    let mut supertypes: Vec<String> = Vec::new();
    match parse_subtype_declaration(input, cur) {
        Option::Some((names, p)) => {
            supertypes = names;
            cur = skip_space(input, p);
        },
        Option::None => {
            proof {
                assert(supertypes.deep_view() =~= Seq::<Seq<char>>::empty());
            }
        },
    }
    if !(cur < len && input[cur] == 59) {
        return Option::None;
    }
    cur = skip_space(input, cur + 1);
    let ghost c3 = cur as int;
    let mut attributes: Vec<Attribute> = Vec::new();
    loop
        invariant
            pos < cur <= len,
            spec_attr_lines(input@, c3).0 == attributes.deep_view() + spec_attr_lines(
                input@,
                cur as int,
            ).0,
            spec_attr_lines(input@, c3).1 == spec_attr_lines(input@, cur as int).1,
        decreases len - cur,
    {
        if is_clause_end(input, cur) || starts_clause(input, cur) {
            proof {
                assert(spec_attr_lines(input@, cur as int) == (Seq::<AttributeV>::empty(),
                cur as int));
                assert(attributes.deep_view() + Seq::<AttributeV>::empty()
                    =~= attributes.deep_view());
            }
            break ;
        }
        match parse_attribute_line(input, cur) {
            Option::Some((mut attrs, p)) => {
                let ghost prev = attributes.deep_view();
                let ghost addv = attrs.deep_view();
                attributes.append(&mut attrs);
                proof {
                    assert(attributes.deep_view() =~= prev + addv);
                }
                if p > cur {
                    proof {
                        let r2 = spec_attr_lines(input@, p as int);
                        assert(spec_attr_lines(input@, cur as int) == (addv + r2.0, r2.1));
                        assert(prev + (addv + r2.0) =~= attributes.deep_view() + r2.0);
                    }
                    cur = p;
                } else {
                    return Option::None;
                }
            },
            Option::None => {
                proof {
                    assert(spec_attr_lines(input@, cur as int) == (Seq::<AttributeV>::empty(),
                    cur as int));
                    assert(attributes.deep_view() + Seq::<AttributeV>::empty()
                        =~= attributes.deep_view());
                }
                break ;
            },
        }
    }
    Option::Some((name, is_abstract, supertypes, attributes, cur))
}

/// Reads one `entity ... end_entity;` declaration.  The returned entity's
/// generation-relevant content is exactly what the head assigns; the
/// derive, inverse, unique, and where clauses that follow are consumed
/// structurally.
#[verifier::loop_isolation(false)]
#[verifier::rlimit(60)]
fn parse_entity(input: &[u8], pos: usize) -> (r: Option<(Declaration, usize)>)
    requires
        pos <= input@.len(),
    ensures
        match r {
            Option::Some((v, p)) => pos < p <= input@.len() && v is Entity && (spec_entity_full(
                input@,
                pos as int,
            ) matches Option::Some(h) && v@ == DeclarationV::Entity(
                EntityV {
                    name: h.0.0,
                    is_abstract: h.0.1,
                    supertypes: h.0.2,
                    attributes: h.0.3,
                },
            ) && h.1 == p as int),
            Option::None => (spec_entity_full(input@, pos as int) is None),
        },
{
    let len = input.len();
    let name: String;
    let is_abstract: bool;
    let supertypes: Vec<String>;
    let attributes: Vec<Attribute>;
    let mut cur: usize;
    match parse_entity_head(input, pos) {
        Option::Some((n, a, sup, attrs, p)) => {
            name = n;
            is_abstract = a;
            supertypes = sup;
            attributes = attrs;
            cur = p;
        },
        Option::None => {
            return Option::None;
        },
    }
    let mut derives: Vec<DerivedAttribute> = Vec::new();
    match parse_derive_clause(input, cur) {
        Option::Some((d, p)) => {
            derives = d;
            if p > cur {
                cur = p;
            }
        },
        Option::None => {},
    }
    match consume_inverse_clause(input, cur) {
        Option::Some(p) => {
            if p > cur {
                cur = p;
            }
        },
        Option::None => {},
    }
    let mut unique_rules: Vec<UniqueRule> = Vec::new();
    match parse_unique_clause(input, cur) {
        Option::Some((u, p)) => {
            unique_rules = u;
            if p > cur {
                cur = p;
            }
        },
        Option::None => {},
    }
    let mut domain_rules: Vec<DomainRule> = Vec::new();
    match parse_where_clause(input, cur) {
        Option::Some((w, p)) => {
            domain_rules = w;
            if p > cur {
                cur = p;
            }
        },
        Option::None => {},
    }
    match keyword(input, cur, "end_entity") {
        Option::Some(p1) => {
            let p2 = skip_space(input, p1);
            if p2 < len && input[p2] == 59 {
                let end = skip_space(input, p2 + 1);
                let decl = Declaration::Entity(
                    Entity {
                        name,
                        is_abstract,
                        supertypes,
                        attributes,
                        derives,
                        domain_rules,
                        unique_rules,
                    },
                );
                Option::Some((decl, end))
            } else {
                Option::None
            }
        },
        Option::None => Option::None,
    }
}


/// The index of the first semicolon at or after the position, or nothing
/// when the input ends first or a byte outside ASCII intervenes.
pub open spec fn spec_stmt_semi(s: Seq<u8>, p: int) -> Option<int>
    decreases s.len() - p,
{
    if p < 0 || p >= s.len() {
        Option::None
    } else if s[p] == 59 {
        Option::Some(p)
    } else if s[p] >= 128 {
        Option::None
    } else {
        spec_stmt_semi(s, p + 1)
    }
}

/// What consuming one function-body statement yields: the position after
/// its semicolon; the `end_function` keyword ends the statement list.
pub open spec fn spec_statement_end(s: Seq<u8>, pos: int) -> Option<int> {
    if spec_keyword(s, pos, "end_function".spec_bytes()) is Some {
        Option::None
    } else {
        match spec_stmt_semi(s, pos) {
            Option::Some(j) => Option::Some(spec_skip(s, j + 1)),
            Option::None => Option::None,
        }
    }
}

/// What reading a generic parameter type yields.
pub open spec fn spec_generic_type(s: Seq<u8>, pos: int) -> Option<(DataTypeV, int)> {
    match spec_keyword(s, pos, "generic".spec_bytes()) {
        Option::Some(p1) => {
            let p2 = spec_skip(s, p1);
            if p2 < s.len() && s[p2] == 58 {
                let p3 = spec_skip(s, p2 + 1);
                match spec_ident(s, p3) {
                    Option::Some((label, p4)) => Option::Some(
                        (DataTypeV::Generic { type_label: Option::Some(label) }, p4),
                    ),
                    Option::None => Option::None,
                }
            } else {
                Option::Some((DataTypeV::Generic { type_label: Option::None }, p1))
            }
        },
        Option::None => Option::None,
    }
}

/// What reading an aggregate parameter type yields.
pub open spec fn spec_aggregate_type(s: Seq<u8>, pos: int) -> Option<(DataTypeV, int)>
    decreases s.len() - pos, 1int,
{
    match spec_keyword(s, pos, "aggregate".spec_bytes()) {
        Option::Some(p1) => {
            let lbl = if p1 < s.len() && spec_skip(s, p1) < s.len() && s[spec_skip(s, p1)] == 58 {
                match spec_ident(s, spec_skip(s, spec_skip(s, p1) + 1)) {
                    Option::Some((l, p4)) => Option::Some((Option::Some(l), p4)),
                    Option::None => Option::None,
                }
            } else {
                Option::Some((Option::<Seq<char>>::None, p1))
            };
            match lbl {
                Option::None => Option::None,
                Option::Some((label, c)) => {
                    let p5 = spec_skip(s, c);
                    match spec_keyword(s, p5, "of".spec_bytes()) {
                        Option::Some(p6) => {
                            let p7 = spec_skip(s, p6);
                            if !(pos < p7 <= s.len()) {
                                Option::None
                            } else {
                                match spec_parameter_type(s, p7) {
                                    Option::Some((base, p8)) => Option::Some(
                                        (
                                            DataTypeV::Aggregate {
                                                type_label: label,
                                                base_type: Box::new(base),
                                            },
                                            p8,
                                        ),
                                    ),
                                    Option::None => Option::None,
                                }
                            }
                        },
                        Option::None => Option::None,
                    }
                },
            }
        },
        Option::None => Option::None,
    }
}

/// What reading a formal parameter or return type yields.
pub open spec fn spec_parameter_type(s: Seq<u8>, pos: int) -> Option<(DataTypeV, int)>
    decreases s.len() - pos, 2int,
{
    match spec_aggregation_data_type(s, pos) {
        Option::Some(r) => Option::Some(r),
        Option::None => match spec_simple_data_type(s, pos) {
            Option::Some(r) => Option::Some(r),
            Option::None => match spec_generic_type(s, pos) {
                Option::Some(r) => Option::Some(r),
                Option::None => match spec_aggregate_type(s, pos) {
                    Option::Some(r) => Option::Some(r),
                    Option::None => match spec_ident(s, pos) {
                        Option::Some((name, p)) => Option::Some(
                            (DataTypeV::TypeRef { name }, p),
                        ),
                        Option::None => Option::None,
                    },
                },
            },
        },
    }
}

/// What reading the names of one formal-parameter group yields: the
/// declared names through the colon.
pub open spec fn spec_fparam_names(s: Seq<u8>, pos: int) -> Option<int>
    decreases s.len() - pos,
{
    match spec_ident(s, pos) {
        Option::None => Option::None,
        Option::Some((name, p)) => {
            if !(pos < p <= s.len()) {
                Option::None
            } else {
                let after = spec_skip(s, p);
                if after < s.len() && s[after] == 44 {
                    let next = spec_skip(s, after + 1);
                    if pos < next <= s.len() {
                        spec_fparam_names(s, next)
                    } else {
                        Option::None
                    }
                } else if after < s.len() && s[after] == 58 {
                    Option::Some(spec_skip(s, after + 1))
                } else {
                    Option::None
                }
            }
        },
    }
}

/// What reading the formal-parameter groups yields, through the closing
/// parenthesis.
pub open spec fn spec_fparams(s: Seq<u8>, pos: int) -> Option<int>
    decreases s.len() - pos,
{
    match spec_fparam_names(s, pos) {
        Option::None => Option::None,
        Option::Some(n2) => {
            if !(0 <= n2 <= s.len()) {
                Option::None
            } else {
                match spec_parameter_type(s, n2) {
                    Option::None => Option::None,
                    Option::Some((dt, p)) => {
                        let after = spec_skip(s, p);
                        if after < s.len() && s[after] == 59 {
                            let next = spec_skip(s, after + 1);
                            if pos < next <= s.len() {
                                spec_fparams(s, next)
                            } else {
                                Option::None
                            }
                        } else if after < s.len() && s[after] == 41 {
                            Option::Some(spec_skip(s, after + 1))
                        } else {
                            Option::None
                        }
                    },
                }
            }
        },
    }
}

/// What consuming the statements of a function body yields: the position
/// after the last statement.
pub open spec fn spec_stmts_end(s: Seq<u8>, cur: int) -> Option<int>
    decreases s.len() - cur,
{
    match spec_statement_end(s, cur) {
        Option::Some(p) => if cur < p <= s.len() {
            spec_stmts_end(s, p)
        } else {
            Option::None
        },
        Option::None => Option::Some(cur),
    }
}

/// What consuming one `function ... end_function;` declaration yields:
/// the position after it.  Function content is kept structurally and
/// plays no part in generation.
pub open spec fn spec_function_end(s: Seq<u8>, pos: int) -> Option<int> {
    match spec_keyword(s, pos, "function".spec_bytes()) {
        Option::None => Option::None,
        Option::Some(p1) => {
            let p2 = spec_skip(s, p1);
            match spec_ident(s, p2) {
                Option::None => Option::None,
                Option::Some((name, p3)) => {
                    let c0 = spec_skip(s, p3);
                    let params = if c0 < s.len() && s[c0] == 40 {
                        let q = spec_skip(s, c0 + 1);
                        if !(0 <= q <= s.len()) {
                            Option::None
                        } else {
                            spec_fparams(s, q)
                        }
                    } else {
                        Option::Some(c0)
                    };
                    match params {
                        Option::None => Option::None,
                        Option::Some(c1) => {
                            if !(c1 < s.len() && s[c1] == 58) {
                                Option::None
                            } else {
                                let c2 = spec_skip(s, c1 + 1);
                                if !(0 <= c2 <= s.len()) {
                                    Option::None
                                } else {
                                    match spec_parameter_type(s, c2) {
                                        Option::None => Option::None,
                                        Option::Some((dt, p4)) => {
                                            let c3 = spec_skip(s, p4);
                                            if !(c3 < s.len() && s[c3] == 59) {
                                                Option::None
                                            } else {
                                                let c4 = spec_skip(s, c3 + 1);
                                                if !(0 <= c4 <= s.len()) {
                                                    Option::None
                                                } else {
                                                    match spec_stmts_end(s, c4) {
                                                        Option::None => Option::None,
                                                        Option::Some(c5) => match spec_keyword(
                                                            s,
                                                            c5,
                                                            "end_function".spec_bytes(),
                                                        ) {
                                                            Option::None => Option::None,
                                                            Option::Some(p5) => {
                                                                let p6 = spec_skip(s, p5);
                                                                if p6 < s.len() && s[p6] == 59 {
                                                                    Option::Some(
                                                                        spec_skip(s, p6 + 1),
                                                                    )
                                                                } else {
                                                                    Option::None
                                                                }
                                                            },
                                                        },
                                                    }
                                                }
                                            }
                                        },
                                    }
                                }
                            }
                        },
                    }
                },
            }
        },
    }
}

/// Reads one statement of a function body, kept as unparsed text.
#[verifier::loop_isolation(false)]
fn parse_statement(input: &[u8], pos: usize) -> (r: Option<(Statement, usize)>)
    requires
        pos <= input@.len(),
    ensures
        match r {
            Option::Some((v, p)) => pos < p <= input@.len() && spec_statement_end(
                input@,
                pos as int,
            ) == Option::Some(p as int),
            Option::None => (spec_statement_end(input@, pos as int) is None),
        },
{
    let len = input.len();
    match keyword(input, pos, "end_function") {
        Option::Some(_) => {
            return Option::None;
        },
        Option::None => {},
    }
    let mut j = pos;
    while j < len && input[j] != 59
        invariant
            pos <= j <= len,
            spec_stmt_semi(input@, pos as int) == spec_stmt_semi(input@, j as int),
            forall|k: int| pos <= k < j ==> input@[k] < 128 && input@[k] != 59,
        decreases len - j,
    {
        if input[j] >= 128 {
            return Option::None;
        }
        j = j + 1;
    }
    if !(j < len && input[j] == 59) {
        return Option::None;
    }
    let bytes = take_bytes(input, pos, j);
    proof {
        assert(forall|k: int| 0 <= k < bytes@.len() ==> bytes@[k] < 128);
    }
    let text = bytes_to_string(bytes);
    Option::Some((Statement { text }, skip_space(input, j + 1)))
}

/// Reads the names of one formal-parameter group, through the colon.
#[verifier::loop_isolation(false)]
fn parse_fparam_names(input: &[u8], pos: usize) -> (r: Option<(Vec<String>, usize)>)
    requires
        pos <= input@.len(),
    ensures
        match r {
            Option::Some((v, p)) => pos < p <= input@.len() && spec_fparam_names(
                input@,
                pos as int,
            ) == Option::Some(p as int),
            Option::None => (spec_fparam_names(input@, pos as int) is None),
        },
{
    let len = input.len();
    let mut names: Vec<String> = Vec::new();
    let mut cur = pos;
    loop
        invariant
            pos <= cur <= len,
            spec_fparam_names(input@, pos as int) == spec_fparam_names(input@, cur as int),
        decreases len - cur,
    {
        match parse_ident(input, cur) {
            Option::Some((name, p)) => {
                names.push(name);
                let after = skip_space(input, p);
                if after < len && input[after] == 44 {
                    let next = skip_space(input, after + 1);
                    if next > cur {
                        cur = next;
                    } else {
                        return Option::None;
                    }
                } else if after < len && input[after] == 58 {
                    return Option::Some((names, skip_space(input, after + 1)));
                } else {
                    return Option::None;
                }
            },
            Option::None => {
                return Option::None;
            },
        }
    }
}

/// Reads the formal-parameter groups, through the closing parenthesis.
#[verifier::loop_isolation(false)]
fn parse_fparams(input: &[u8], pos: usize) -> (r: Option<(Vec<Parameter>, usize)>)
    requires
        pos <= input@.len(),
    ensures
        match r {
            Option::Some((v, p)) => pos <= p <= input@.len() && spec_fparams(input@, pos as int)
                == Option::Some(p as int),
            Option::None => (spec_fparams(input@, pos as int) is None),
        },
{
    let len = input.len();
    let mut parameters: Vec<Parameter> = Vec::new();
    let mut inner = pos;
    loop
        invariant
            pos <= inner <= len,
            spec_fparams(input@, pos as int) == spec_fparams(input@, inner as int),
        decreases len - inner,
    {
        let names: Vec<String>;
        let n2: usize;
        match parse_fparam_names(input, inner) {
            Option::Some((ns, p)) => {
                names = ns;
                n2 = p;
            },
            Option::None => {
                return Option::None;
            },
        }
        match parse_parameter_type(input, n2) {
            Option::Some((dt, p)) => {
                let mut i: usize = 0;
                while i < names.len()
                    invariant
                        i <= names.len(),
                    decreases names.len() - i,
                {
                    parameters.push(
                        Parameter {
                            name: crate::express::clone_string(&names[i]),
                            data_type: crate::express::clone_data_type(&dt),
                        },
                    );
                    i = i + 1;
                }
                let after = skip_space(input, p);
                if after < len && input[after] == 59 {
                    let next = skip_space(input, after + 1);
                    if next > inner {
                        inner = next;
                    } else {
                        return Option::None;
                    }
                } else if after < len && input[after] == 41 {
                    return Option::Some((parameters, skip_space(input, after + 1)));
                } else {
                    return Option::None;
                }
            },
            Option::None => {
                return Option::None;
            },
        }
    }
}

/// Reads one `function ... end_function;` declaration; the body is kept
/// as statement text and plays no part in generation.
#[verifier::loop_isolation(false)]
fn parse_function(input: &[u8], pos: usize) -> (r: Option<(Declaration, usize)>)
    requires
        pos <= input@.len(),
    ensures
        match r {
            Option::Some((v, p)) => pos < p <= input@.len() && v is Function && v@
                == DeclarationV::Function && spec_function_end(input@, pos as int)
                == Option::Some(p as int),
            Option::None => (spec_function_end(input@, pos as int) is None),
        },
{
    let len = input.len();
    let name: String;
    let mut cur: usize;
    match keyword(input, pos, "function") {
        Option::Some(p1) => {
            let p2 = skip_space(input, p1);
            match parse_ident(input, p2) {
                Option::Some((n, p3)) => {
                    name = n;
                    cur = skip_space(input, p3);
                },
                Option::None => {
                    return Option::None;
                },
            }
        },
        Option::None => {
            return Option::None;
        },
    }
    let mut parameters: Vec<Parameter> = Vec::new();
    if cur < len && input[cur] == 40 {
        let q = skip_space(input, cur + 1);
        match parse_fparams(input, q) {
            Option::Some((ps, p)) => {
                parameters = ps;
                cur = p;
            },
            Option::None => {
                return Option::None;
            },
        }
    }
    if !(cur < len && input[cur] == 58) {
        return Option::None;
    }
    cur = skip_space(input, cur + 1);
    let return_type: DataType;
    match parse_parameter_type(input, cur) {
        Option::Some((dt, p)) => {
            return_type = dt;
            cur = skip_space(input, p);
        },
        Option::None => {
            return Option::None;
        },
    }
    if !(cur < len && input[cur] == 59) {
        return Option::None;
    }
    cur = skip_space(input, cur + 1);
    let ghost c4 = cur as int;
    let mut statements: Vec<Statement> = Vec::new();
    loop
        invariant
            pos < cur <= len,
            spec_stmts_end(input@, c4) == spec_stmts_end(input@, cur as int),
        decreases len - cur,
    {
        match parse_statement(input, cur) {
            Option::Some((st, p)) => {
                statements.push(st);
                if p > cur {
                    cur = p;
                } else {
                    return Option::None;
                }
            },
            Option::None => {
                break ;
            },
        }
    }
    proof {
        assert(spec_stmts_end(input@, c4) == Option::Some(cur as int));
    }
    match keyword(input, cur, "end_function") {
        Option::Some(p1) => {
            let p2 = skip_space(input, p1);
            if p2 < len && input[p2] == 59 {
                Option::Some(
                    (
                        Declaration::Function(
                            Function { name, return_type, parameters, statements },
                        ),
                        skip_space(input, p2 + 1),
                    ),
                )
            } else {
                Option::None
            }
        },
        Option::None => Option::None,
    }
}


/// The generation-relevant image of a constants block: each constant's
/// name and declared type; initializer expressions are structural only.
pub open spec fn constants_view(cs: Seq<Constant>) -> Seq<(Seq<char>, DataTypeV)> {
    Seq::new(
        cs.len(),
        |i: int|
            if 0 <= i < cs.len() {
                (cs[i].name@, cs[i].data_type@)
            } else {
                (Seq::<char>::empty(), DataTypeV::Number)
            },
    )
}

/// What reading the entries of a constants block yields: each constant's
/// name and type, through `end_constant;`.
pub open spec fn spec_const_items(s: Seq<u8>, cur: int) -> Option<
    (Seq<(Seq<char>, DataTypeV)>, int),
>
    decreases s.len() - cur,
{
    match spec_keyword(s, cur, "end_constant".spec_bytes()) {
        Option::Some(p1) => {
            let p2 = spec_skip(s, p1);
            if p2 < s.len() && s[p2] == 59 {
                Option::Some((Seq::empty(), spec_skip(s, p2 + 1)))
            } else {
                Option::None
            }
        },
        Option::None => match spec_ident(s, cur) {
            Option::None => Option::None,
            Option::Some((name, p1)) => {
                let p2 = spec_skip(s, p1);
                if !(p2 < s.len() && s[p2] == 58) {
                    Option::None
                } else {
                    let p3 = spec_skip(s, p2 + 1);
                    if !(0 <= p3 <= s.len()) {
                        Option::None
                    } else {
                        match spec_base_data_type(s, p3) {
                            Option::None => Option::None,
                            Option::Some((dt, p4)) => {
                                let p5 = spec_skip(s, p4);
                                if !(p5 < s.len() && s.len() - p5 >= 2 && s[p5] == 58 && s[p5 + 1]
                                    == 61) {
                                    Option::None
                                } else {
                                    let p6 = spec_skip(s, p5 + 2);
                                    if !(0 <= p6 <= s.len()) {
                                        Option::None
                                    } else {
                                        match spec_expression_end(s, p6) {
                                            Option::None => Option::None,
                                            Option::Some(p7) => {
                                                let p8 = spec_skip(s, p7);
                                                if !(p8 < s.len() && s[p8] == 59) {
                                                    Option::None
                                                } else {
                                                    let next = spec_skip(s, p8 + 1);
                                                    if !(cur < next <= s.len()) {
                                                        Option::None
                                                    } else {
                                                        match spec_const_items(s, next) {
                                                            Option::Some((rest, e)) => Option::Some(
                                                                (seq![(name, dt)] + rest, e),
                                                            ),
                                                            Option::None => Option::None,
                                                        }
                                                    }
                                                }
                                            },
                                        }
                                    }
                                }
                            },
                        }
                    }
                }
            },
        },
    }
}

/// What reading the optional constants block yields.
pub open spec fn spec_constants_end(s: Seq<u8>, pos: int) -> Option<
    (Seq<(Seq<char>, DataTypeV)>, int),
> {
    match spec_keyword(s, pos, "constant".spec_bytes()) {
        Option::Some(p) => {
            let c = spec_skip(s, p);
            if 0 <= c <= s.len() {
                spec_const_items(s, c)
            } else {
                Option::None
            }
        },
        Option::None => Option::None,
    }
}

/// What reading a whole type definition yields: its head through the
/// optional where clause and `end_type;`.
pub open spec fn spec_typedef_full(s: Seq<u8>, pos: int) -> Option<
    ((Seq<char>, DataTypeV), int),
> {
    match spec_typedef_head(s, pos) {
        Option::None => Option::None,
        Option::Some((h, c)) => {
            let c2 = match spec_where_end(s, c) {
                Option::Some(p) => if p > c {
                    p
                } else {
                    c
                },
                Option::None => c,
            };
            if !(0 <= c2 <= s.len()) {
                Option::None
            } else {
                match spec_keyword(s, c2, "end_type".spec_bytes()) {
                    Option::None => Option::None,
                    Option::Some(p9) => {
                        let p10 = spec_skip(s, p9);
                        if p10 < s.len() && s[p10] == 59 {
                            Option::Some((h, spec_skip(s, p10 + 1)))
                        } else {
                            Option::None
                        }
                    },
                }
            }
        },
    }
}

/// What reading a whole entity declaration yields: its head through the
/// clause sections and `end_entity;`.
pub open spec fn spec_entity_full(s: Seq<u8>, pos: int) -> Option<
    ((Seq<char>, bool, Seq<Seq<char>>, Seq<AttributeV>), int),
> {
    match spec_entity_head(s, pos) {
        Option::None => Option::None,
        Option::Some((h, c)) => {
            let c1 = match spec_derive_end(s, c) {
                Option::Some(p) => if p > c {
                    p
                } else {
                    c
                },
                Option::None => c,
            };
            let c2 = match spec_inverse_end(s, c1) {
                Option::Some(p) => if p > c1 {
                    p
                } else {
                    c1
                },
                Option::None => c1,
            };
            let c3 = match spec_unique_end(s, c2) {
                Option::Some(p) => if p > c2 {
                    p
                } else {
                    c2
                },
                Option::None => c2,
            };
            let c4 = match spec_where_end(s, c3) {
                Option::Some(p) => if p > c3 {
                    p
                } else {
                    c3
                },
                Option::None => c3,
            };
            if !(0 <= c4 <= s.len()) {
                Option::None
            } else {
                match spec_keyword(s, c4, "end_entity".spec_bytes()) {
                    Option::None => Option::None,
                    Option::Some(p1) => {
                        let p2 = spec_skip(s, p1);
                        if p2 < s.len() && s[p2] == 59 {
                            Option::Some((h, spec_skip(s, p2 + 1)))
                        } else {
                            Option::None
                        }
                    },
                }
            }
        },
    }
}

/// What reading one declaration yields: a type definition, an entity, or
/// a function, tried in that order.
pub open spec fn spec_declaration(s: Seq<u8>, pos: int) -> Option<(DeclarationV, int)> {
    match spec_typedef_full(s, pos) {
        Option::Some((h, p)) => Option::Some(
            (DeclarationV::TypeDef(TypeDefV { name: h.0, underlying_type: h.1 }), p),
        ),
        Option::None => match spec_entity_full(s, pos) {
            Option::Some((h, p)) => Option::Some(
                (
                    DeclarationV::Entity(
                        EntityV {
                            name: h.0,
                            is_abstract: h.1,
                            supertypes: h.2,
                            attributes: h.3,
                        },
                    ),
                    p,
                ),
            ),
            Option::None => match spec_function_end(s, pos) {
                Option::Some(p) => Option::Some((DeclarationV::Function, p)),
                Option::None => Option::None,
            },
        },
    }
}

/// What reading the declarations yields, through `end_schema;`: all
/// declarations in textual order.
pub open spec fn spec_schema_items(s: Seq<u8>, cur: int) -> Option<(Seq<DeclarationV>, int)>
    decreases s.len() - cur,
{
    match spec_keyword(s, cur, "end_schema".spec_bytes()) {
        Option::Some(p1) => {
            let p2 = spec_skip(s, p1);
            if p2 < s.len() && s[p2] == 59 {
                Option::Some((Seq::empty(), p2 + 1))
            } else {
                Option::None
            }
        },
        Option::None => match spec_declaration(s, cur) {
            Option::None => Option::None,
            Option::Some((d, p)) => {
                if !(cur < p <= s.len()) {
                    Option::None
                } else {
                    match spec_schema_items(s, p) {
                        Option::Some((rest, e)) => Option::Some((seq![d] + rest, e)),
                        Option::None => Option::None,
                    }
                }
            },
        },
    }
}

/// What parsing a whole schema yields: its name, the constants block's
/// names and types, and every declaration in textual order, or nothing
/// when the input deviates anywhere.
pub open spec fn spec_schema(s: Seq<u8>) -> Option<
    (Seq<char>, Seq<(Seq<char>, DataTypeV)>, Seq<DeclarationV>),
> {
    let c0 = spec_skip(s, 0);
    match spec_keyword(s, c0, "schema".spec_bytes()) {
        Option::None => Option::None,
        Option::Some(p) => {
            let c1 = spec_skip(s, p);
            match spec_ident(s, c1) {
                Option::None => Option::None,
                Option::Some((name, p2)) => {
                    let c2 = spec_skip(s, p2);
                    if !(c2 < s.len() && s[c2] == 59) {
                        Option::None
                    } else {
                        let c3 = spec_skip(s, c2 + 1);
                        let con = spec_constants_end(s, c3);
                        let consts = if con is Some {
                            con->Some_0.0
                        } else {
                            Seq::empty()
                        };
                        let c4 = if con is Some && con->Some_0.1 > c3 {
                            con->Some_0.1
                        } else {
                            c3
                        };
                        if !(0 <= c4 <= s.len()) {
                            Option::None
                        } else {
                            match spec_schema_items(s, c4) {
                                Option::None => Option::None,
                                Option::Some((ds, e)) => if ds.len() == 0 {
                                    Option::None
                                } else {
                                    Option::Some((name, consts, ds))
                                },
                            }
                        }
                    }
                },
            }
        },
    }
}

/// Reads the optional constants block.
#[verifier::loop_isolation(false)]
fn parse_constants(input: &[u8], pos: usize) -> (r: Option<(Vec<Constant>, usize)>)
    requires
        pos <= input@.len(),
    ensures
        match r {
            Option::Some((v, p)) => pos < p <= input@.len() && spec_constants_end(
                input@,
                pos as int,
            ) == Option::Some((constants_view(v@), p as int)),
            Option::None => (spec_constants_end(input@, pos as int) is None),
        },
{
    let len = input.len();
    let mut constants: Vec<Constant> = Vec::new();
    let mut cur: usize;
    match keyword(input, pos, "constant") {
        Option::Some(p) => {
            cur = skip_space(input, p);
        },
        Option::None => {
            return Option::None;
        },
    }
    loop
        invariant
            pos < cur <= len,
            spec_constants_end(input@, pos as int) matches Option::Some(w) ==> (spec_const_items(
                input@,
                cur as int,
            ) matches Option::Some(w2) && w.0 == constants_view(constants@) + w2.0 && w.1 == w2.1),
            (spec_constants_end(input@, pos as int) is None) ==> (spec_const_items(
                input@,
                cur as int,
            ) is None),
        decreases len - cur,
    {
        match keyword(input, cur, "end_constant") {
            Option::Some(p1) => {
                let p2 = skip_space(input, p1);
                if p2 < len && input[p2] == 59 {
                    let e = skip_space(input, p2 + 1);
                    proof {
                        assert(spec_const_items(input@, cur as int) == Option::Some(
                            (Seq::<(Seq<char>, DataTypeV)>::empty(), e as int),
                        ));
                        if spec_constants_end(input@, pos as int) is Some {
                            let w = spec_constants_end(input@, pos as int)->Some_0;
                            assert(constants_view(constants@) + Seq::<(
                                Seq<char>,
                                DataTypeV,
                            )>::empty() =~= constants_view(constants@));
                        }
                    }
                    return Option::Some((constants, e));
                }
                return Option::None;
            },
            Option::None => {},
        }
        match parse_ident(input, cur) {
            Option::Some((name, p1)) => {
                let p2 = skip_space(input, p1);
                if !(p2 < len && input[p2] == 58) {
                    return Option::None;
                }
                let p3 = skip_space(input, p2 + 1);
                match parse_base_data_type(input, p3) {
                    Option::Some((data_type, p4)) => {
                        let p5 = skip_space(input, p4);
                        if !(p5 < len && len - p5 >= 2 && input[p5] == 58 && input[p5 + 1] == 61) {
                            return Option::None;
                        }
                        let p6 = skip_space(input, p5 + 2);
                        match parse_expression(input, p6) {
                            Option::Some((expr, p7)) => {
                                let p8 = skip_space(input, p7);
                                if !(p8 < len && input[p8] == 59) {
                                    return Option::None;
                                }
                                let ghost prevcv = constants_view(constants@);
                                let ghost namev = name@;
                                let ghost dtv = data_type@;
                                constants.push(Constant { name, data_type, expr });
                                proof {
                                    assert(constants_view(constants@) =~= prevcv.push(
                                        (namev, dtv),
                                    ));
                                }
                                let next = skip_space(input, p8 + 1);
                                if next > cur {
                                    proof {
                                        if spec_const_items(input@, next as int) is Some {
                                            let w2 = spec_const_items(input@, next as int)->Some_0;
                                            assert(spec_const_items(input@, cur as int)
                                                == Option::Some(
                                                (seq![(namev, dtv)] + w2.0, w2.1),
                                            ));
                                            assert(prevcv + (seq![(namev, dtv)] + w2.0)
                                                =~= constants_view(constants@) + w2.0);
                                        }
                                    }
                                    cur = next;
                                } else {
                                    return Option::None;
                                }
                            },
                            Option::None => {
                                return Option::None;
                            },
                        }
                    },
                    Option::None => {
                        return Option::None;
                    },
                }
            },
            Option::None => {
                return Option::None;
            },
        }
    }
}


/// Parses a whole schema: the schema header, an optional constants block,
/// one or more declarations, and the end marker.  The result is exactly
/// what the grammar assigns to the input: the declared name, the constant
/// block's names and types, and every declaration in textual order.  A
/// structural failure anywhere aborts the parse with the position
/// reached; no partial schema is produced.  The input is read as ASCII: a
/// string literal holding a byte outside ASCII is a parse error.
#[verifier::loop_isolation(false)]
#[verifier::rlimit(60)]
pub fn schema(input: &[u8]) -> (r: Result<Schema, ParseError>)
    ensures
        match r {
            Result::Ok(s) => s.declarations@.len() >= 1 && (spec_schema(input@)
                matches Option::Some(t) && s.name@ == t.0 && constants_view(s.constants@) == t.1
                && s@.declarations == t.2),
            Result::Err(e) => (spec_schema(input@) is None) && e.position <= input@.len(),
        },
{
    let len = input.len();
    let mut cur = skip_space(input, 0);
    match keyword(input, cur, "schema") {
        Option::Some(p) => {
            cur = skip_space(input, p);
        },
        Option::None => {
            return Result::Err(ParseError { position: cur });
        },
    }
    let name: String;
    match parse_ident(input, cur) {
        Option::Some((n, p)) => {
            name = n;
            cur = skip_space(input, p);
        },
        Option::None => {
            return Result::Err(ParseError { position: cur });
        },
    }
    if !(cur < len && input[cur] == 59) {
        return Result::Err(ParseError { position: cur });
    }
    cur = skip_space(input, cur + 1);
    let mut constants: Vec<Constant> = Vec::new();
    match parse_constants(input, cur) {
        Option::Some((c, p)) => {
            constants = c;
            if p > cur {
                cur = p;
            }
        },
        Option::None => {
            proof {
                assert(constants_view(constants@) =~= Seq::<(Seq<char>, DataTypeV)>::empty());
            }
        },
    }
    let ghost c4 = cur as int;
    let mut declarations: Vec<Declaration> = Vec::new();
    loop
        invariant
            cur <= len,
            spec_schema_items(input@, c4) matches Option::Some(w) ==> (spec_schema_items(
                input@,
                cur as int,
            ) matches Option::Some(w2) && w.0 == declarations.deep_view() + w2.0 && w.1 == w2.1),
            (spec_schema_items(input@, c4) is None) ==> (spec_schema_items(input@, cur as int)
                is None),
        decreases len - cur,
    {
        match keyword(input, cur, "end_schema") {
            Option::Some(p1) => {
                let p2 = skip_space(input, p1);
                if p2 < len && input[p2] == 59 {
                    proof {
                        assert(spec_schema_items(input@, cur as int) == Option::Some(
                            (Seq::<DeclarationV>::empty(), p2 + 1),
                        ));
                        if spec_schema_items(input@, c4) is Some {
                            assert(declarations.deep_view() + Seq::<DeclarationV>::empty()
                                =~= declarations.deep_view());
                        }
                    }
                    if declarations.len() == 0 {
                        return Result::Err(ParseError { position: cur });
                    }
                    let sch = Schema { name, constants, declarations };
                    proof {
                        assert(sch@.declarations =~= sch.declarations.deep_view());
                    }
                    return Result::Ok(sch);
                }
                return Result::Err(ParseError { position: p2 });
            },
            Option::None => {},
        }
        match parse_named_type(input, cur) {
            Option::Some((d, p)) => {
                proof {
                    assert(spec_declaration(input@, cur as int) == Option::Some((d@, p as int)));
                }
                let ghost prev = declarations.deep_view();
                declarations.push(d);
                proof {
                    assert(declarations.deep_view() =~= prev.push(d@));
                    if spec_schema_items(input@, p as int) is Some {
                        let w2 = spec_schema_items(input@, p as int)->Some_0;
                        assert(spec_schema_items(input@, cur as int) == Option::Some(
                            (seq![d@] + w2.0, w2.1),
                        ));
                        assert(prev + (seq![d@] + w2.0) =~= declarations.deep_view() + w2.0);
                    }
                }
                cur = p;
            },
            Option::None => {
                match parse_entity(input, cur) {
                    Option::Some((d, p)) => {
                        proof {
                            assert(spec_declaration(input@, cur as int) == Option::Some(
                                (d@, p as int),
                            ));
                        }
                        let ghost prev = declarations.deep_view();
                        declarations.push(d);
                        proof {
                            assert(declarations.deep_view() =~= prev.push(d@));
                            if spec_schema_items(input@, p as int) is Some {
                                let w2 = spec_schema_items(input@, p as int)->Some_0;
                                assert(spec_schema_items(input@, cur as int) == Option::Some(
                                    (seq![d@] + w2.0, w2.1),
                                ));
                                assert(prev + (seq![d@] + w2.0) =~= declarations.deep_view()
                                    + w2.0);
                            }
                        }
                        cur = p;
                    },
                    Option::None => {
                        match parse_function(input, cur) {
                            Option::Some((d, p)) => {
                                proof {
                                    assert(spec_declaration(input@, cur as int) == Option::Some(
                                        (d@, p as int),
                                    ));
                                }
                                let ghost prev = declarations.deep_view();
                                declarations.push(d);
                                proof {
                                    assert(declarations.deep_view() =~= prev.push(d@));
                                    if spec_schema_items(input@, p as int) is Some {
                                        let w2 = spec_schema_items(input@, p as int)->Some_0;
                                        assert(spec_schema_items(input@, cur as int)
                                            == Option::Some((seq![d@] + w2.0, w2.1)));
                                        assert(prev + (seq![d@] + w2.0)
                                            =~= declarations.deep_view() + w2.0);
                                    }
                                }
                                cur = p;
                            },
                            Option::None => {
                                return Result::Err(ParseError { position: cur });
                            },
                        }
                    },
                }
            },
        }
    }
}

} // verus!

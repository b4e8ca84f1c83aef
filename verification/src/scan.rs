use vstd::prelude::*;

verus! {

/// The characters of an ASCII byte sequence.
pub open spec fn ascii_chars(s: Seq<u8>) -> Seq<char> {
    s.map_values(|b: u8| b as char)
}

pub open spec fn is_digit_byte(b: u8) -> bool {
    48 <= b <= 57
}

pub open spec fn is_alpha_byte(b: u8) -> bool {
    (65 <= b <= 90) || (97 <= b <= 122)
}

pub open spec fn is_ident_tail_byte(b: u8) -> bool {
    is_alpha_byte(b) || is_digit_byte(b) || b == 95
}

pub open spec fn is_space_byte(b: u8) -> bool {
    b == 32 || b == 9 || b == 10 || b == 13 || b == 0
}

pub open spec fn is_hex_byte(b: u8) -> bool {
    is_digit_byte(b) || (65 <= b <= 70) || (97 <= b <= 102)
}

pub fn digit_byte(b: u8) -> (r: bool)
    ensures
        r == is_digit_byte(b),
{
    48 <= b && b <= 57
}

pub fn alpha_byte(b: u8) -> (r: bool)
    ensures
        r == is_alpha_byte(b),
{
    (65 <= b && b <= 90) || (97 <= b && b <= 122)
}

pub fn ident_tail_byte(b: u8) -> (r: bool)
    ensures
        r == is_ident_tail_byte(b),
{
    alpha_byte(b) || digit_byte(b) || b == 95
}

pub fn space_byte(b: u8) -> (r: bool)
    ensures
        r == is_space_byte(b),
{
    b == 32 || b == 9 || b == 10 || b == 13 || b == 0
}

pub fn hex_byte(b: u8) -> (r: bool)
    ensures
        r == is_hex_byte(b),
{
    digit_byte(b) || (65 <= b && b <= 70) || (97 <= b && b <= 102)
}

/// Copies the bytes of a half-open range out of the input.
pub fn take_bytes(input: &[u8], from: usize, to: usize) -> (r: Vec<u8>)
    requires
        from <= to <= input@.len(),
    ensures
        r@ == input@.subrange(from as int, to as int),
{
    let mut out: Vec<u8> = Vec::new();
    let mut i: usize = from;
    while i < to
        invariant
            from <= i <= to <= input@.len(),
            out@ == input@.subrange(from as int, i as int),
        decreases to - i,
    {
        let ghost prev = out@;
        out.push(input[i]);
        proof {
            assert(out@ =~= input@.subrange(from as int, i + 1));
        }
        i = i + 1;
    }
    out
}

/// Relies on `String::from_utf8` of std: ASCII bytes decode to exactly
/// their own characters.
#[verifier::external_body]
pub fn bytes_to_string(v: Vec<u8>) -> (r: String)
    requires
        forall|i: int| 0 <= i < v@.len() ==> v@[i] < 128,
    ensures
        r@ == ascii_chars(v@),
{
    String::from_utf8(v).unwrap_or_default()
}

/// The value of a run of decimal digit bytes.
pub open spec fn dec_val(s: Seq<u8>) -> int
    decreases s.len(),
{
    if s.len() == 0 {
        0
    } else {
        dec_val(s.drop_last()) * 10 + (s.last() - 48)
    }
}

pub open spec fn pow10(k: nat) -> int
    decreases k,
{
    if k == 0 {
        1
    } else {
        10 * pow10((k - 1) as nat)
    }
}

pub proof fn lemma_pow10_mono(a: nat, b: nat)
    requires
        a <= b,
    ensures
        pow10(a) <= pow10(b),
        pow10(a) >= 1,
    decreases b,
{
    if b == 0 {
    } else if a == b {
        lemma_pow10_mono((a - 1) as nat, (b - 1) as nat)
    } else {
        lemma_pow10_mono(a, (b - 1) as nat);
    }
}

/// Reads a run of up to 18 decimal digits starting at `pos`; the bound
/// keeps every accepted value well inside the 64-bit range.
#[verifier::loop_isolation(false)]
pub fn scan_digits(input: &[u8], pos: usize) -> (r: Option<(u64, usize)>)
    requires
        pos <= input@.len(),
    ensures
        match r {
            Option::Some((v, p)) => pos < p <= input@.len() && p - pos <= 18 && v
                < 1000000000000000000 && v as int == dec_val(
                input@.subrange(pos as int, p as int),
            ) && (p == input@.len()
                || !is_digit_byte(input@[p as int])) && (forall|k: int|
                pos <= k < p ==> is_digit_byte(input@[k])) && spec_digits(input@, pos as int)
                == Option::Some((v as int, p as int)),
            Option::None => (spec_digits(input@, pos as int) is None),
        },
{
    let len = input.len();
    if pos >= len || !digit_byte(input[pos]) {
        return Option::None;
    }
    let mut i: usize = pos;
    let mut acc: u64 = 0;
    proof {
        assert(input@.subrange(pos as int, pos as int) =~= Seq::<u8>::empty());
        lemma_pow10_mono(0, 0);
    }
    while i < len && digit_byte(input[i])
        invariant
            pos <= i <= len,
            len == input@.len(),
            i - pos <= 18,
            acc as int == dec_val(input@.subrange(pos as int, i as int)),
            (acc as int) < pow10((i - pos) as nat),
            forall|k: int| pos <= k < i ==> is_digit_byte(input@[k]),
            spec_digits_end(input@, pos as int) == spec_digits_end(input@, i as int),
        decreases len - i,
    {
        if i - pos >= 18 {
            proof {
                assert(forall|k: int| pos <= k < i ==> is_digit_byte(input@[k]));
                assert(spec_digits_end(input@, i as int) == spec_digits_end(input@, i + 1));
                lemma_digits_end_bounds(input@, i + 1);
                assert(spec_digits_end(input@, i as int) >= i + 1);
            }
            return Option::None;
        }
        let d = input[i] - 48;
        proof {
            lemma_pow10_mono((i - pos) as nat, 17);
            assert(pow10(17) == 100000000000000000) by {
                reveal_with_fuel(pow10, 20);
            }
            assert((acc as int) * 10 + d < pow10((i - pos + 1) as nat)) by (nonlinear_arith)
                requires
                    (acc as int) < pow10((i - pos) as nat),
                    d < 10,
                    pow10((i - pos + 1) as nat) == 10 * pow10((i - pos) as nat),
            ;
            assert(acc as int * 10 + d <= pow10(17) * 10 - 1) by (nonlinear_arith)
                requires
                    acc as int <= pow10(17) - 1,
                    d <= 9,
            ;
            assert(input@.subrange(pos as int, i + 1).drop_last() =~= input@.subrange(
                pos as int,
                i as int,
            ));
            assert(input@.subrange(pos as int, i + 1).last() == input@[i as int]);
        }
        acc = acc * 10 + (d as u64);
        i = i + 1;
    }
    proof {
        lemma_pow10_mono((i - pos) as nat, 18);
        assert(pow10(18) == 1000000000000000000) by {
            reveal_with_fuel(pow10, 20);
        }
    }
    Option::Some((acc, i))
}

/// The end of the digit run starting at the position.
pub open spec fn spec_digits_end(s: Seq<u8>, p: int) -> int
    decreases s.len() - p,
{
    if p < 0 || p >= s.len() {
        p
    } else if is_digit_byte(s[p]) {
        spec_digits_end(s, p + 1)
    } else {
        p
    }
}

pub proof fn lemma_digits_end_bounds(s: Seq<u8>, p: int)
    requires
        0 <= p <= s.len(),
    ensures
        p <= spec_digits_end(s, p) <= s.len(),
    decreases s.len() - p,
{
    if p < s.len() && is_digit_byte(s[p]) {
        lemma_digits_end_bounds(s, p + 1);
    }
}

/// What reading a digit run yields: its value and end, or nothing when no
/// digit stands at the position or the run is longer than 18 digits.
pub open spec fn spec_digits(s: Seq<u8>, pos: int) -> Option<(int, int)> {
    if 0 <= pos < s.len() && is_digit_byte(s[pos]) {
        let e = spec_digits_end(s, pos);
        if e - pos > 18 {
            Option::None
        } else {
            Option::Some((dec_val(s.subrange(pos, e)), e))
        }
    } else {
        Option::None
    }
}

/// What reading an optionally signed integer token yields.
pub open spec fn spec_integer(s: Seq<u8>, pos: int) -> Option<(int, int)> {
    if !(0 <= pos < s.len()) {
        Option::None
    } else {
        let d = if s[pos] == 43 || s[pos] == 45 {
            pos + 1
        } else {
            pos
        };
        match spec_digits(s, d) {
            Option::Some((v, p)) => Option::Some(
                (
                    if s[pos] == 45 {
                        -v
                    } else {
                        v
                    },
                    p,
                ),
            ),
            Option::None => Option::None,
        }
    }
}

} // verus!

//! ASCII text helpers: turning byte buffers into strings, rendering
//! and parsing decimal numbers, and ordering strings.
use vstd::prelude::*;

verus! {

/// Relies on `String::from_utf8`: a buffer of ASCII bytes decodes to
/// the string with one `char` per byte.
#[verifier::external_body]
pub fn ascii_to_string(b: Vec<u8>) -> (r: String)
    requires
        forall|i: int| 0 <= i < b@.len() ==> b@[i] < 128,
    ensures
        r@.len() == b@.len(),
        forall|i: int| 0 <= i < b@.len() ==> r@[i] == b@[i] as char,
{
    String::from_utf8(b).unwrap_or_default()
}

/// Decimal digits of `n`, most significant first, as ASCII bytes.
pub open spec fn spec_decimal_bytes(n: nat) -> Seq<u8>
    decreases n,
{
    if n < 10 {
        seq![(48 + n) as u8]
    } else {
        spec_decimal_bytes(n / 10).push((48 + (n % 10)) as u8)
    }
}

/// Decimal digits of `n`, most significant first, as characters.
pub open spec fn spec_decimal_chars(n: nat) -> Seq<char> {
    spec_decimal_bytes(n).map_values(|b: u8| b as char)
}

/// Every byte of a decimal rendering is an ASCII digit.
pub proof fn lemma_decimal_bytes_ascii(n: nat)
    ensures
        forall|i: int|
            0 <= i < spec_decimal_bytes(n).len() ==> 48 <= #[trigger] spec_decimal_bytes(n)[i]
                <= 57,
    decreases n,
{
    if n >= 10 {
        lemma_decimal_bytes_ascii(n / 10);
        assert forall|i: int|
            0 <= i < spec_decimal_bytes(n).len() implies 48 <= #[trigger] spec_decimal_bytes(
            n,
        )[i] <= 57 by {
            if i < spec_decimal_bytes(n / 10).len() {
                assert(spec_decimal_bytes(n)[i] == spec_decimal_bytes(n / 10)[i]);
            }
        }
    }
}

/// Append the decimal digits of `n` to `out`.
pub fn push_decimal_bytes(n: u64, out: &mut Vec<u8>)
    ensures
        final(out)@ == old(out)@ + spec_decimal_bytes(n as nat),
    decreases n,
{
    if n < 10 {
        out.push(48 + n as u8);
        proof {
            assert(out@ =~= old(out)@ + spec_decimal_bytes(n as nat));
        }
    } else {
        push_decimal_bytes(n / 10, out);
        out.push(48 + (n % 10) as u8);
        proof {
            assert(out@ =~= old(out)@ + spec_decimal_bytes(n as nat));
        }
    }
}

/// `n`, written in decimal.
pub fn u64_to_string(n: u64) -> (r: String)
    ensures
        r@ == spec_decimal_chars(n as nat),
{
    let mut bytes: Vec<u8> = Vec::new();
    push_decimal_bytes(n, &mut bytes);
    proof {
        lemma_decimal_bytes_ascii(n as nat);
    }
    let r = ascii_to_string(bytes);
    proof {
        assert(r@ =~= spec_decimal_chars(n as nat));
    }
    r
}

/// Rendering and parsing agree: the decimal text of `n` reads back
/// as `n`.
pub proof fn lemma_decimal_round_trip(n: nat)
    requires
        n <= u64::MAX,
    ensures
        spec_all_digits(spec_decimal_chars(n)),
        spec_digits_val(spec_decimal_chars(n)) == n,
    decreases n,
{
    lemma_decimal_bytes_ascii(n);
    let chars = spec_decimal_chars(n);
    assert forall|i: int| 0 <= i < chars.len() implies spec_is_digit(#[trigger] chars[i]) by {
        assert(chars[i] == spec_decimal_bytes(n)[i] as char);
    }
    if n < 10 {
        assert(chars =~= seq![(48 + n) as u8 as char]);
        assert(chars.drop_last() =~= Seq::<char>::empty());
        assert(spec_digits_val(Seq::<char>::empty()) == 0);
        assert(spec_digits_val(chars) == 0 * 10 + (chars.last() as u32 - 48) as nat);
    } else {
        lemma_decimal_round_trip(n / 10);
        assert(chars.drop_last() =~= spec_decimal_chars(n / 10));
        assert(chars.last() == (48 + (n % 10)) as u8 as char);
        assert(spec_digits_val(chars) == spec_digits_val(spec_decimal_chars(n / 10)) * 10 + (
        chars.last() as u32 - 48) as nat);
    }
}

/// Is `c` an ASCII decimal digit?
pub open spec fn spec_is_digit(c: char) -> bool {
    48 <= c as u32 <= 57
}

/// A non-empty run of ASCII decimal digits.
pub open spec fn spec_all_digits(s: Seq<char>) -> bool {
    s.len() > 0 && forall|i: int| 0 <= i < s.len() ==> spec_is_digit(#[trigger] s[i])
}

/// Numeric value of a digit run, leading zeros allowed.
pub open spec fn spec_digits_val(s: Seq<char>) -> nat
    decreases s.len(),
{
    if s.len() == 0 {
        0
    } else {
        spec_digits_val(s.drop_last()) * 10 + (s.last() as u32 - 48) as nat
    }
}

/// The digits a parse reads: everything after an optional `+`.
pub open spec fn spec_parse_body(s: Seq<char>) -> Seq<char> {
    if s.len() > 0 && s[0] == '+' {
        s.skip(1)
    } else {
        s
    }
}

/// Does `s` read as an unsigned 64-bit decimal number?
pub open spec fn spec_parses_u64(s: Seq<char>) -> bool {
    spec_all_digits(spec_parse_body(s)) && spec_digits_val(spec_parse_body(s)) <= u64::MAX
}

/// The number `s` reads as.
pub open spec fn spec_parsed_u64(s: Seq<char>) -> nat {
    spec_digits_val(spec_parse_body(s))
}

/// Parse an unsigned decimal number the way `u64::from_str` reads it:
/// an optional leading `+`, then at least one digit, rejecting
/// anything else and any value above `u64::MAX`.
pub fn parse_u64(s: &str) -> (r: Option<u64>)
    ensures
        r is Some <==> spec_parses_u64(s@),
        r matches Some(v) ==> v == spec_parsed_u64(s@),
{
    let len = s.unicode_len();
    let start: usize = if len > 0 && s.get_char(0) == '+' {
        1
    } else {
        0
    };
    let ghost body = spec_parse_body(s@);
    proof {
        assert(body =~= s@.skip(start as int));
    }
    if len == start {
        return None;
    }
    let mut val: u64 = 0;
    let mut overflow: bool = false;
    let mut i: usize = start;
    while i < len
        invariant
            start <= i <= len,
            len == s@.len(),
            start == 0 || start == 1,
            body == s@.skip(start as int),
            body == spec_parse_body(s@),
            forall|j: int| start <= j < i ==> spec_is_digit(#[trigger] s@[j]),
            !overflow ==> val == spec_digits_val(s@.skip(start as int).take(i - start)),
            overflow ==> spec_digits_val(s@.skip(start as int).take(i - start)) > u64::MAX,
        decreases len - i,
    {
        let c = s.get_char(i);
        let u = c as u32;
        if u < 48 || u > 57 {
            proof {
                assert(body.len() == len - start);
                assert(body[i - start] == s@[i as int]);
                assert(!spec_is_digit(body[i - start]));
                assert(!spec_all_digits(body));
            }
            return None;
        }
        let d = (u - 48) as u64;
        proof {
            assert(s@.skip(start as int).take(i - start + 1).drop_last() =~= s@.skip(
                start as int,
            ).take(i - start));
            assert(s@.skip(start as int).take(i - start + 1).last() == s@[i as int]);
        }
        let limit = u64::MAX / 10;
        if overflow {
            proof {
                let prev = spec_digits_val(s@.skip(start as int).take(i - start));
                assert(prev * 10 + (s@[i as int] as u32 - 48) > u64::MAX);
            }
        } else if val > limit || (val == limit && d > u64::MAX % 10) {
            overflow = true;
        } else {
            val = val * 10 + d;
        }
        i += 1;
    }
    proof {
        assert(s@.skip(start as int).take(len - start) =~= s@.skip(start as int));
    }
    if overflow {
        None
    } else {
        Some(val)
    }
}

/// Are two strings the same text?
pub fn str_eq(a: &str, b: &str) -> (r: bool)
    ensures
        r == (a@ == b@),
{
    let a_len = a.unicode_len();
    let b_len = b.unicode_len();
    if a_len != b_len {
        return false;
    }
    let mut i: usize = 0;
    while i < a_len
        invariant
            i <= a_len,
            a_len == a@.len(),
            a_len == b@.len(),
            forall|j: int| 0 <= j < i ==> a@[j] == b@[j],
        decreases a_len - i,
    {
        if a.get_char(i) != b.get_char(i) {
            return false;
        }
        i += 1;
    }
    proof {
        assert(a@ =~= b@);
    }
    true
}

/// Lexicographic order on character sequences, by scalar value; the
/// order `str` comparison uses.
pub open spec fn spec_lex_le(a: Seq<char>, b: Seq<char>) -> bool
    decreases a.len(),
{
    if a.len() == 0 {
        true
    } else if b.len() == 0 {
        false
    } else if (a[0] as u32) < (b[0] as u32) {
        true
    } else if (a[0] as u32) > (b[0] as u32) {
        false
    } else {
        spec_lex_le(a.skip(1), b.skip(1))
    }
}

/// The order is total: of any two texts, one sorts at or before the
/// other. (With `a` and `b` the same text, both directions hold.)
pub proof fn lemma_lex_le_total(a: Seq<char>, b: Seq<char>)
    ensures
        spec_lex_le(a, b) || spec_lex_le(b, a),
    decreases a.len(),
{
    if a.len() > 0 && b.len() > 0 {
        if (a[0] as u32) == (b[0] as u32) {
            lemma_lex_le_total(a.skip(1), b.skip(1));
        }
    }
}

/// The order is transitive.
pub proof fn lemma_lex_le_trans(a: Seq<char>, b: Seq<char>, c: Seq<char>)
    requires
        spec_lex_le(a, b),
        spec_lex_le(b, c),
    ensures
        spec_lex_le(a, c),
    decreases a.len(),
{
    if a.len() > 0 && b.len() > 0 && c.len() > 0 {
        if (a[0] as u32) == (b[0] as u32) && (b[0] as u32) == (c[0] as u32) {
            lemma_lex_le_trans(a.skip(1), b.skip(1), c.skip(1));
        }
    }
}

/// Does `a` sort at or before `b`?
pub fn str_le(a: &str, b: &str) -> (r: bool)
    ensures
        r == spec_lex_le(a@, b@),
{
    let a_len = a.unicode_len();
    let b_len = b.unicode_len();
    let mut i: usize = 0;
    proof {
        assert(a@.skip(0) =~= a@);
        assert(b@.skip(0) =~= b@);
    }
    loop
        invariant
            i <= a_len,
            i <= b_len,
            a_len == a@.len(),
            b_len == b@.len(),
            spec_lex_le(a@, b@) == spec_lex_le(a@.skip(i as int), b@.skip(i as int)),
        decreases a_len - i,
    {
        if i == a_len {
            proof {
                assert(a@.skip(i as int).len() == 0);
            }
            return true;
        }
        if i == b_len {
            return false;
        }
        let ca = a.get_char(i) as u32;
        let cb = b.get_char(i) as u32;
        proof {
            assert(a@.skip(i as int)[0] == a@[i as int]);
            assert(b@.skip(i as int)[0] == b@[i as int]);
            assert(a@.skip(i as int).skip(1) =~= a@.skip(i + 1));
            assert(b@.skip(i as int).skip(1) =~= b@.skip(i + 1));
        }
        if ca < cb {
            return true;
        }
        if ca > cb {
            return false;
        }
        i += 1;
    }
}

} // verus!

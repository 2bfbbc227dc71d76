//! Text renderings: lowercase hexadecimal of bytes, decimal of integers,
//! and byte strings assembled piece by piece.
use vstd::prelude::*;

verus! {

/// The UTF-8 bytes of a string slice (its `as_bytes`).
pub open spec fn str_bytes(s: &str) -> Seq<u8> {
    vstd::utf8::encode_utf8(s@)
}

/// The lowercase hexadecimal digit of a value below 16.
pub open spec fn hex_digit(n: nat) -> char {
    if n < 10 {
        (48 + n) as char
    } else {
        (87 + n) as char
    }
}

/// Two lowercase hexadecimal digits per byte, most significant digit first.
pub open spec fn hex_chars(b: Seq<u8>) -> Seq<char>
    decreases b.len(),
{
    if b.len() == 0 {
        Seq::empty()
    } else {
        hex_chars(b.drop_last()) + seq![hex_digit(b.last() as nat / 16), hex_digit(b.last() as nat % 16)]
    }
}

/// The decimal digits of n, most significant first, without leading zeros.
pub open spec fn decimal_chars(n: nat) -> Seq<char>
    decreases n,
{
    if n < 10 {
        seq![(48 + n) as char]
    } else {
        decimal_chars(n / 10) + seq![(48 + n % 10) as char]
    }
}

/// "true" or "false".
pub open spec fn bool_chars(b: bool) -> Seq<char> {
    if b {
        "true"@
    } else {
        "false"@
    }
}

/// The value of a lowercase hexadecimal digit, or -1 for any other character.
pub open spec fn hex_value(c: char) -> int {
    if '0' as int <= c as int && c as int <= '9' as int {
        c as int - '0' as int
    } else if 'a' as int <= c as int && c as int <= 'f' as int {
        c as int - 'a' as int + 10
    } else {
        -1
    }
}

/// The value of a string of decimal digits, most significant first.
pub open spec fn decimal_value(s: Seq<char>) -> int
    decreases s.len(),
{
    if s.len() == 0 {
        0
    } else {
        decimal_value(s.drop_last()) * 10 + (s.last() as int - '0' as int)
    }
}

/// Every value below 16 is rendered as a lowercase hexadecimal digit that
/// reads back as that value.
pub proof fn lemma_hex_digit_reads_back(n: nat)
    requires
        n < 16,
    ensures
        hex_value(hex_digit(n)) == n,
        hex_value(hex_digit(n)) >= 0,
{
}

/// Hexadecimal rendering gives two lowercase digits per byte, high nibble
/// first, and the pair reads back as the byte.
pub proof fn lemma_hex_chars_read_back(b: Seq<u8>)
    ensures
        hex_chars(b).len() == 2 * b.len(),
        forall|i: int|
            0 <= i < b.len() ==> hex_value(#[trigger] hex_chars(b)[2 * i]) * 16 + hex_value(
                hex_chars(b)[2 * i + 1],
            ) == b[i] as int,
        forall|j: int| 0 <= j < hex_chars(b).len() ==> 0 <= #[trigger] hex_value(hex_chars(b)[j]) < 16,
    decreases b.len(),
{
    if b.len() > 0 {
        let pre = b.drop_last();
        lemma_hex_chars_read_back(pre);
        let x = b.last() as nat;
        lemma_hex_digit_reads_back(x / 16);
        lemma_hex_digit_reads_back(x % 16);
        let hc = hex_chars(b);
        assert(hc == hex_chars(pre) + seq![hex_digit(x / 16), hex_digit(x % 16)]);
        assert forall|i: int| 0 <= i < b.len() implies hex_value(#[trigger] hc[2 * i]) * 16
            + hex_value(hc[2 * i + 1]) == b[i] as int by {
            if i < pre.len() {
                assert(hc[2 * i] == hex_chars(pre)[2 * i]);
                assert(hc[2 * i + 1] == hex_chars(pre)[2 * i + 1]);
                assert(pre[i] == b[i]);
            } else {
                assert(hc[2 * i] == hex_digit(x / 16));
                assert(hc[2 * i + 1] == hex_digit(x % 16));
            }
        }
        assert forall|j: int| 0 <= j < hc.len() implies 0 <= #[trigger] hex_value(hc[j]) < 16 by {
            if j < hex_chars(pre).len() {
                assert(hc[j] == hex_chars(pre)[j]);
            }
        }
    }
}

/// Decimal rendering uses only the digits 0-9 and reads back as the number.
pub proof fn lemma_decimal_chars_read_back(n: nat)
    ensures
        decimal_value(decimal_chars(n)) == n,
        forall|j: int|
            0 <= j < decimal_chars(n).len() ==> '0' as int <= #[trigger] decimal_chars(n)[j] as int
                <= '9' as int,
        decimal_chars(n).len() >= 1,
        n > 0 ==> decimal_chars(n)[0] != '0',
    decreases n,
{
    if n >= 10 {
        lemma_decimal_chars_read_back(n / 10);
        let s = decimal_chars(n);
        let pre = decimal_chars(n / 10);
        assert(s.drop_last() =~= pre);
        assert forall|j: int| 0 <= j < s.len() implies '0' as int <= #[trigger] s[j] as int
            <= '9' as int by {
            if j < pre.len() {
                assert(s[j] == pre[j]);
            }
        }
        assert(pre[0] == s[0]);
        vstd::arithmetic::div_mod::lemma_fundamental_div_mod(n as int, 10);
        assert(s.last() == ((48 + n % 10) as char));
        assert(s.last() as int == 48 + n % 10);
        assert(decimal_value(s) == decimal_value(pre) * 10 + (s.last() as int - '0' as int));
        assert(decimal_value(pre) == n / 10);
        assert(10 * (n / 10) + n % 10 == n);
        assert(decimal_value(s) == n);
    } else {
        let s = decimal_chars(n);
        assert(s.drop_last() =~= Seq::<char>::empty());
        assert(s.last() as int == 48 + n);
        assert(decimal_value(s.drop_last()) == 0);
        assert(decimal_value(s) == n);
    }
}

/// `String::push`: appends one character.
#[verifier::external_body]
fn string_push(s: &mut String, c: char)
    ensures
        final(s)@ == old(s)@.push(c),
{
    s.push(c)
}

/// The hexadecimal digit of a value below 16.
fn hex_digit_char(n: u8) -> (c: char)
    requires
        n < 16,
    ensures
        c == hex_digit(n as nat),
{
    if n < 10 {
        (48 + n) as char
    } else {
        (87 + n) as char
    }
}

/// Append the lowercase hexadecimal rendering of `b` to `s`.
pub fn push_hex(s: &mut String, b: &[u8])
    ensures
        final(s)@ == old(s)@ + hex_chars(b@),
{
    let mut i: usize = 0;
    while i < b.len()
        invariant
            i <= b@.len(),
            s@ == old(s)@ + hex_chars(b@.subrange(0, i as int)),
        decreases b@.len() - i,
    {
        let x = b[i];
        string_push(s, hex_digit_char(x / 16));
        string_push(s, hex_digit_char(x % 16));
        proof {
            let pre = b@.subrange(0, i + 1);
            assert(pre.drop_last() =~= b@.subrange(0, i as int));
            assert(pre.last() == x);
        }
        i += 1;
    }
    assert(b@.subrange(0, b@.len() as int) =~= b@);
}

/// The lowercase hexadecimal rendering of `b`, two digits per byte.
pub fn hex(b: &[u8]) -> (s: String)
    ensures
        s@ == hex_chars(b@),
{
    let mut s = String::new();
    push_hex(&mut s, b);
    s
}

/// Append the decimal rendering of n to `s`.
pub fn push_decimal(s: &mut String, n: u128)
    ensures
        final(s)@ == old(s)@ + decimal_chars(n as nat),
    decreases n,
{
    if n >= 10 {
        push_decimal(s, n / 10);
    }
    let d = (n % 10) as u8;
    string_push(s, (48 + d) as char);
}

/// Append "true" or "false" to `s`.
pub fn push_bool(s: &mut String, b: bool)
    ensures
        final(s)@ == old(s)@ + bool_chars(b),
{
    if b {
        s.append("true");
    } else {
        s.append("false");
    }
}

/// Append the bytes of `b` to `out`.
pub fn append_bytes(out: &mut Vec<u8>, b: &[u8])
    ensures
        final(out)@ == old(out)@ + b@,
{
    let mut i: usize = 0;
    while i < b.len()
        invariant
            i <= b@.len(),
            out@ == old(out)@ + b@.subrange(0, i as int),
        decreases b@.len() - i,
    {
        out.push(b[i]);
        assert(b@.subrange(0, i + 1) =~= b@.subrange(0, i as int).push(b@[i as int]));
        i += 1;
    }
    assert(b@.subrange(0, b@.len() as int) =~= b@);
}

} // verus!

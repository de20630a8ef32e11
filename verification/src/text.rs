//! Text encodings used by the escrow: positional notation for identifiers and
//! amounts, and the shape of a destination address.

use vstd::prelude::*;
use vstd::string::*;

verus! {

/// The character that stands for the digit `d`, for `d` below sixteen:
/// `0` to `9`, then `a` to `f`.
pub open spec fn digit_char(d: nat) -> char {
    if d < 10 {
        (48 + d) as char
    } else {
        (87 + d) as char
    }
}

/// Hexadecimal notation of `n`, most significant digit first, lower case,
/// without leading zeros (zero itself is written `0`).
pub open spec fn hex_digits(n: nat) -> Seq<char>
    decreases n,
{
    if n < 16 {
        seq![digit_char(n)]
    } else {
        hex_digits(n / 16).push(digit_char(n % 16))
    }
}

/// Decimal notation of `n`, most significant digit first, without leading zeros.
pub open spec fn decimal_digits(n: nat) -> Seq<char>
    decreases n,
{
    if n < 10 {
        seq![digit_char(n)]
    } else {
        decimal_digits(n / 10).push(digit_char(n % 10))
    }
}

/// `s` with zeros put in front until it is at least `width` characters long.
pub open spec fn zero_padded(s: Seq<char>, width: nat) -> Seq<char> {
    if s.len() >= width {
        s
    } else {
        Seq::new((width - s.len()) as nat, |i: int| '0') + s
    }
}

/// The five characters every trigger identifier starts with.
pub open spec fn id_prefix() -> Seq<char> {
    seq!['t', 'r', 'i', 'g', '_']
}

/// The identifier of the trigger with sequence number `counter`: the prefix,
/// then the number in hexadecimal, at least eight digits wide.
pub open spec fn trigger_id_text(counter: nat) -> Seq<char> {
    id_prefix() + zero_padded(hex_digits(counter), 8)
}

/// Whether `c` is a hexadecimal digit, in either case.
pub open spec fn is_hex_char(c: char) -> bool {
    ('0' <= c <= '9') || ('a' <= c <= 'f') || ('A' <= c <= 'F')
}

/// Whether `s` is an address of an EVM-style network: `0x` and then exactly
/// forty hexadecimal digits.
pub open spec fn is_evm_address(s: Seq<char>) -> bool {
    &&& s.len() == 42
    &&& s[0] == '0'
    &&& s[1] == 'x'
    &&& forall|i: int| 2 <= i < 42 ==> is_hex_char(#[trigger] s[i])
}

/// Whether `c` is one of the sixteen digit characters `0` to `9`, `a` to `f`.
pub open spec fn is_digit_char(c: char) -> bool {
    ('0' <= c <= '9') || ('a' <= c <= 'f')
}

/// The number that the digit character `c` stands for.
pub open spec fn digit_value(c: char) -> nat {
    if c <= '9' {
        (c as nat - 48) as nat
    } else {
        (c as nat - 87) as nat
    }
}

/// The number that `s` denotes when read as hexadecimal digits, most
/// significant first.
pub open spec fn hex_value(s: Seq<char>) -> nat
    decreases s.len(),
{
    if s.len() == 0 {
        0
    } else {
        16 * hex_value(s.drop_last()) + digit_value(s.last())
    }
}

/// Whether `s` has the shape of a trigger identifier: the prefix, then at
/// least eight digit characters.
pub open spec fn is_trigger_id(s: Seq<char>) -> bool {
    &&& s.len() >= 13
    &&& s.subrange(0, 5) == id_prefix()
    &&& forall|i: int| 5 <= i < s.len() ==> is_digit_char(#[trigger] s[i])
}

/// A run of `count` zeros.
pub open spec fn zeros(count: nat) -> Seq<char> {
    Seq::new(count, |i: int| '0')
}

/// Each digit below sixteen has a digit character of its own, which stands
/// for that digit.
pub proof fn lemma_digit_char(d: nat)
    requires
        d < 16,
    ensures
        is_digit_char(digit_char(d)),
        digit_value(digit_char(d)) == d,
{
}

/// Hexadecimal notation uses digit characters only.
pub proof fn lemma_hex_digits_shape(n: nat)
    ensures
        hex_digits(n).len() >= 1,
        forall|i: int| 0 <= i < hex_digits(n).len() ==> is_digit_char(#[trigger] hex_digits(n)[i]),
    decreases n,
{
    if n < 16 {
        lemma_digit_char(n);
    } else {
        lemma_hex_digits_shape(n / 16);
        lemma_digit_char(n % 16);
    }
}

/// Reading the hexadecimal notation of a number gives the number back.
pub proof fn lemma_hex_value_of_digits(n: nat)
    ensures
        hex_value(hex_digits(n)) == n,
    decreases n,
{
    if n < 16 {
        lemma_digit_char(n);
        let s = hex_digits(n);
        assert(s.drop_last() =~= Seq::<char>::empty());
        assert(hex_value(s.drop_last()) == 0);
    } else {
        lemma_hex_value_of_digits(n / 16);
        lemma_digit_char(n % 16);
        let s = hex_digits(n);
        assert(s.drop_last() =~= hex_digits(n / 16));
        assert(s.last() == digit_char(n % 16));
    }
}

/// Zeros in front do not change the number that digits denote.
pub proof fn lemma_hex_value_leading_zeros(count: nat, s: Seq<char>)
    ensures
        hex_value(zeros(count) + s) == hex_value(s),
    decreases s.len(), count,
{
    let all = zeros(count) + s;
    if s.len() > 0 {
        assert(all.drop_last() =~= zeros(count) + s.drop_last());
        assert(all.last() == s.last());
        lemma_hex_value_leading_zeros(count, s.drop_last());
    } else if count > 0 {
        assert(all.drop_last() =~= zeros((count - 1) as nat) + s);
        assert(all.last() == '0');
        lemma_hex_value_leading_zeros((count - 1) as nat, s);
    } else {
        assert(all =~= s);
    }
}

/// An identifier has the shape of one, and its digits denote its number.
pub proof fn lemma_trigger_id_shape(counter: nat)
    ensures
        is_trigger_id(trigger_id_text(counter)),
        hex_value(trigger_id_text(counter).skip(5)) == counter,
{
    let digits = hex_digits(counter);
    let padded = zero_padded(digits, 8);
    let id = trigger_id_text(counter);
    lemma_hex_digits_shape(counter);
    lemma_hex_value_of_digits(counter);
    if digits.len() < 8 {
        lemma_hex_value_leading_zeros((8 - digits.len()) as nat, digits);
        assert(padded == zeros((8 - digits.len()) as nat) + digits);
    }
    assert(id.skip(5) =~= padded);
    assert(id.subrange(0, 5) =~= id_prefix());
    assert forall|i: int| 5 <= i < id.len() implies is_digit_char(#[trigger] id[i]) by {
        assert(id[i] == padded[i - 5]);
        if digits.len() < 8 {
            let lead = 8 - digits.len();
            if i - 5 >= lead {
                assert(padded[i - 5] == digits[i - 5 - lead]);
            }
        }
    }
}

/// Identifiers are never reused: two sequence numbers with the same
/// identifier are the same number.
pub proof fn lemma_trigger_id_unique(a: nat, b: nat)
    requires
        trigger_id_text(a) == trigger_id_text(b),
    ensures
        a == b,
{
    lemma_trigger_id_shape(a);
    lemma_trigger_id_shape(b);
}

/// Appends the character of the digit `d`.
fn push_digit(out: &mut String, d: u8)
    requires
        d < 16,
    ensures
        final(out)@ == old(out)@.push(digit_char(d as nat)),
{
    let table = "0123456789abcdef";
    proof {
        reveal_strlit("0123456789abcdef");
    }
    assert(is_ascii(table));
    let from: usize = d as usize;
    let piece = table.substring_ascii(from, from + 1);
    assert(piece@ =~= seq![digit_char(d as nat)]);
    out.append(piece);
    assert(out@ =~= old(out)@.push(digit_char(d as nat)));
}

/// Appends `n` in hexadecimal.
fn push_hex(out: &mut String, n: u64)
    ensures
        final(out)@ == old(out)@ + hex_digits(n as nat),
    decreases n,
{
    if n >= 16 {
        push_hex(out, n / 16);
    }
    push_digit(out, (n % 16) as u8);
    assert(out@ =~= old(out)@ + hex_digits(n as nat));
}

/// Appends `n` in decimal.
fn push_decimal(out: &mut String, n: u128)
    ensures
        final(out)@ == old(out)@ + decimal_digits(n as nat),
    decreases n,
{
    if n >= 10 {
        push_decimal(out, n / 10);
    }
    push_digit(out, (n % 10) as u8);
    assert(out@ =~= old(out)@ + decimal_digits(n as nat));
}

/// How many hexadecimal digits `n` has.
fn hex_width(n: u64) -> (width: usize)
    ensures
        width == hex_digits(n as nat).len(),
        1 <= width <= 16,
{
    let mut rest: u64 = n;
    let mut width: usize = 1;
    proof {
        reveal_with_fuel(pow16, 17);
        assert(pow16(16) == 0x1_0000_0000_0000_0000);
        lemma_hex_width_bound(n as nat, 16);
    }
    while rest >= 16
        invariant
            1 <= width,
            width + hex_digits(rest as nat).len() == hex_digits(n as nat).len() + 1,
            hex_digits(n as nat).len() <= 16,
        decreases rest,
    {
        rest = rest / 16;
        width = width + 1;
    }
    width
}

/// A number below sixteen to the power `k` has at most `k` hexadecimal digits.
pub proof fn lemma_hex_width_bound(n: nat, k: nat)
    requires
        k >= 1,
        n < pow16(k),
    ensures
        1 <= hex_digits(n).len() <= k,
    decreases n,
{
    reveal_with_fuel(pow16, 2);
    if n >= 16 {
        assert(k >= 2);
        assert(pow16(k) == 16 * pow16((k - 1) as nat));
        lemma_hex_width_bound(n / 16, (k - 1) as nat);
    }
}

/// Sixteen to the power `k`.
pub open spec fn pow16(k: nat) -> nat
    decreases k,
{
    if k == 0 {
        1
    } else {
        16 * pow16((k - 1) as nat)
    }
}

/// Writes the identifier of the trigger with sequence number `counter`.
pub fn format_trigger_id(counter: u64) -> (id: String)
    ensures
        id@ == trigger_id_text(counter as nat),
{
    proof {
        reveal_strlit("trig_");
    }
    let mut id = String::from_str("trig_");
    assert(id@ =~= id_prefix());
    let width = hex_width(counter);
    let mut k: usize = width;
    while k < 8
        invariant
            width <= 8 ==> width <= k <= 8,
            width > 8 ==> k == width,
            id@ =~= id_prefix() + Seq::new((k - width) as nat, |i: int| '0'),
        decreases 8 - k,
    {
        let ghost before = id@;
        proof {
            reveal_strlit("0");
        }
        id.append("0");
        k = k + 1;
        assert(id@ =~= before.push('0'));
        assert(id@ =~= id_prefix() + Seq::new((k - width) as nat, |i: int| '0'));
    }
    push_hex(&mut id, counter);
    assert(id@ =~= trigger_id_text(counter as nat));
    id
}

/// The sequence number that a text of the shape of a trigger identifier
/// names, where it is one that a counter can hold.
pub open spec fn named_counter(s: Seq<char>) -> Option<u64> {
    if is_trigger_id(s) && hex_value(s.skip(5)) <= u64::MAX {
        Some(hex_value(s.skip(5)) as u64)
    } else {
        None
    }
}

/// Reads the sequence number out of a trigger identifier. A text that does
/// not have the shape of an identifier names none, nor does one whose number
/// is beyond the counter's range. Zeros in front are read over, so that the
/// text need not be the identifier that `format_trigger_id` writes for the
/// number.
pub fn parse_trigger_id(id: &str) -> (counter: Option<u64>)
    ensures
        counter == named_counter(id@),
{
    broadcast use is_ascii_spec_bytes;

    if !id.is_ascii() {
        assert(!is_trigger_id(id@)) by {
            if is_trigger_id(id@) {
                assert forall|k: int| 0 <= k < id@.len() implies '\0' <= #[trigger] id@[k]
                    <= '\u{7f}' by {
                    if k < 5 {
                        assert(id@[k] == id@.subrange(0, 5)[k]);
                    } else {
                        assert(is_digit_char(id@[k]));
                    }
                }
            }
        }
        return None;
    }
    let bytes = id.as_bytes();
    if bytes.len() < 13 {
        return None;
    }
    if bytes[0] != 116u8 || bytes[1] != 114u8 || bytes[2] != 105u8 || bytes[3] != 103u8
        || bytes[4] != 95u8 {
        assert(!is_trigger_id(id@)) by {
            if is_trigger_id(id@) {
                assert(id@[0] == id@.subrange(0, 5)[0]);
                assert(id@[1] == id@.subrange(0, 5)[1]);
                assert(id@[2] == id@.subrange(0, 5)[2]);
                assert(id@[3] == id@.subrange(0, 5)[3]);
                assert(id@[4] == id@.subrange(0, 5)[4]);
            }
        }
        return None;
    }
    assert(id@.subrange(0, 5) =~= id_prefix());
    let mut value: u64 = 0;
    let mut beyond = false;
    let mut i: usize = 5;
    assert(id@.subrange(5, 5) =~= Seq::<char>::empty());
    while i < bytes.len()
        invariant
            5 <= i <= bytes@.len(),
            bytes@.len() == id@.len(),
            bytes@ == id.spec_bytes(),
            is_ascii(id),
            forall|k: int| 5 <= k < i ==> is_digit_char(#[trigger] id@[k]),
            !beyond ==> value == hex_value(id@.subrange(5, i as int)),
            beyond ==> hex_value(id@.subrange(5, i as int)) > u64::MAX,
        decreases bytes@.len() - i,
    {
        let b = bytes[i];
        assert(b == id@[i as int] as u8);
        let digit: u64 = if 48 <= b && b <= 57 {
            (b - 48) as u64
        } else if 97 <= b && b <= 102 {
            (b - 87) as u64
        } else {
            assert(!is_digit_char(id@[i as int]));
            return None;
        };
        assert(is_digit_char(id@[i as int]));
        assert(digit == digit_value(id@[i as int]));
        proof {
            let longer = id@.subrange(5, i + 1);
            assert(longer.drop_last() =~= id@.subrange(5, i as int));
            assert(longer.last() == id@[i as int]);
        }
        if beyond || value > (u64::MAX - digit) / 16 {
            beyond = true;
        } else {
            value = value * 16 + digit;
        }
        i = i + 1;
    }
    assert(id@.subrange(5, i as int) =~= id@.skip(5));
    if beyond {
        None
    } else {
        Some(value)
    }
}

/// Writes `n` in decimal.
pub fn decimal_string(n: u128) -> (s: String)
    ensures
        s@ == decimal_digits(n as nat),
{
    let mut s = String::new();
    push_decimal(&mut s, n);
    assert(s@ =~= decimal_digits(n as nat));
    s
}

/// Tells whether `address` has the shape of an EVM address.
pub fn is_valid_address(address: &str) -> (ok: bool)
    ensures
        ok == is_evm_address(address@),
{
    broadcast use is_ascii_spec_bytes;

    if !address.is_ascii() {
        return false;
    }
    let bytes = address.as_bytes();
    if bytes.len() != 42 {
        return false;
    }
    if bytes[0] != 48u8 || bytes[1] != 120u8 {
        return false;
    }
    let mut i: usize = 2;
    while i < 42
        invariant
            2 <= i <= 42,
            bytes@.len() == 42,
            address@.len() == 42,
            bytes@ == address.spec_bytes(),
            is_ascii(address),
            forall|j: int| 2 <= j < i ==> is_hex_char(#[trigger] address@[j]),
        decreases 42 - i,
    {
        let b = bytes[i];
        let hex = (48 <= b && b <= 57) || (97 <= b && b <= 102) || (65 <= b && b <= 70);
        assert(b == address@[i as int] as u8);
        if !hex {
            assert(!is_hex_char(address@[i as int]));
            return false;
        }
        i = i + 1;
    }
    true
}

} // verus!

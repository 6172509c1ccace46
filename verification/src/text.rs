//! Small text encoders used by the lock naming and the messages:
//! decimal numbers and lowercase hexadecimal bytes.

use vstd::prelude::*;

verus! {

/// The bytes of an ASCII word: each character taken as one byte.
pub open spec fn word(text: Seq<char>) -> Seq<u8> {
    text.map_values(|c: char| c as u8)
}

/// The bytes of an ASCII word.
pub fn word_bytes(text: &str) -> (bytes: Vec<u8>)
    ensures
        bytes@ == word(text@),
{
    let length = text.unicode_len();
    let mut bytes: Vec<u8> = Vec::new();
    let mut i: usize = 0;
    while i < length
        invariant
            length == text@.len(),
            i <= length,
            bytes@ == word(text@.take(i as int)),
        decreases length - i,
    {
        bytes.push(text.get_char(i) as u8);
        i = i + 1;
        assert(bytes@ =~= word(text@.take(i as int)));
    }
    assert(text@.take(length as int) =~= text@);
    bytes
}

/// The character of a decimal digit.
pub open spec fn decimal_digit(d: nat) -> char {
    if d == 0 { '0' }
    else if d == 1 { '1' }
    else if d == 2 { '2' }
    else if d == 3 { '3' }
    else if d == 4 { '4' }
    else if d == 5 { '5' }
    else if d == 6 { '6' }
    else if d == 7 { '7' }
    else if d == 8 { '8' }
    else { '9' }
}

/// The character of a hexadecimal digit, lowercase.
pub open spec fn hex_digit(d: nat) -> char {
    if d < 10 { decimal_digit(d) }
    else if d == 10 { 'a' }
    else if d == 11 { 'b' }
    else if d == 12 { 'c' }
    else if d == 13 { 'd' }
    else if d == 14 { 'e' }
    else { 'f' }
}

/// The decimal notation of a natural number: most significant digit first, no leading zeros.
pub open spec fn decimal(n: nat) -> Seq<char>
    decreases n,
{
    if n < 10 {
        seq![decimal_digit(n)]
    } else {
        decimal(n / 10).push(decimal_digit(n % 10))
    }
}

/// The number that decimal digits denote, most significant first.
pub open spec fn decimal_value(digits: Seq<char>) -> int
    decreases digits.len(),
{
    if digits.len() == 0 {
        0
    } else {
        10 * decimal_value(digits.drop_last()) + ((digits.last() as int) - ('0' as int))
    }
}

proof fn lemma_digit_value(d: nat)
    requires
        d < 10,
    ensures
        (decimal_digit(d) as int) - ('0' as int) == d,
        '0' <= decimal_digit(d) <= '9',
{
}

/// The decimal notation of a number is a non-empty run of digits `0`..`9`
/// that reads back as the number itself; so different numbers have different
/// notations.
pub proof fn lemma_decimal_reads_back(n: nat)
    ensures
        decimal(n).len() >= 1,
        forall|i: int| 0 <= i < decimal(n).len() ==> '0' <= #[trigger] decimal(n)[i] <= '9',
        decimal_value(decimal(n)) == n,
    decreases n,
{
    lemma_digit_value(n % 10);
    if n < 10 {
        assert(n % 10 == n);
        assert(decimal(n).drop_last() =~= Seq::<char>::empty());
        assert(decimal(n).last() == decimal_digit(n));
        assert(decimal_value(decimal(n)) == 10 * decimal_value(Seq::<char>::empty()) + ((decimal_digit(n) as int) - ('0' as int)));
    } else {
        lemma_decimal_reads_back(n / 10);
        let d = decimal(n);
        assert(d == decimal(n / 10).push(decimal_digit(n % 10)));
        assert(d.drop_last() =~= decimal(n / 10));
        assert(d.last() == decimal_digit(n % 10));
        assert(decimal_value(d) == 10 * decimal_value(decimal(n / 10)) + ((decimal_digit(n % 10) as int) - ('0' as int)));
        assert(10 * (n / 10) + n % 10 == n);
        assert forall|i: int| 0 <= i < d.len() implies '0' <= #[trigger] d[i] <= '9' by {
            if i < d.len() - 1 {
                assert(d[i] == decimal(n / 10)[i]);
            }
        }
    }
}

/// Different numbers have different decimal notations.
pub proof fn lemma_decimal_injective(a: nat, b: nat)
    requires
        a != b,
    ensures
        decimal(a) != decimal(b),
{
    lemma_decimal_reads_back(a);
    lemma_decimal_reads_back(b);
}

/// The hexadecimal text of some bytes: at position `2i` the high nibble of
/// byte `i`, at `2i + 1` its low nibble, each as one of `0123456789abcdef`.
pub proof fn lemma_hex_positions(bytes: Seq<u8>)
    ensures
        hex(bytes).len() == 2 * bytes.len(),
        forall|i: int| #![trigger bytes[i]] 0 <= i < bytes.len() ==> {
            &&& hex(bytes)[2 * i] == "0123456789abcdef"@[(bytes[i] / 16) as int]
            &&& hex(bytes)[2 * i + 1] == "0123456789abcdef"@[(bytes[i] % 16) as int]
        },
    decreases bytes.len(),
{
    reveal_strlit("0123456789abcdef");
    if bytes.len() > 0 {
        let front = bytes.drop_last();
        lemma_hex_positions(front);
        let h = hex(bytes);
        assert forall|i: int| #![trigger bytes[i]] 0 <= i < bytes.len() implies {
            &&& h[2 * i] == "0123456789abcdef"@[(bytes[i] / 16) as int]
            &&& h[2 * i + 1] == "0123456789abcdef"@[(bytes[i] % 16) as int]
        } by {
            if i < front.len() {
                assert(front[i] == bytes[i]);
                assert(h[2 * i] == hex(front)[2 * i]);
                assert(h[2 * i + 1] == hex(front)[2 * i + 1]);
            }
        }
    }
}

/// The decimal notation of an integer, with a leading `-` when it is negative.
pub open spec fn signed_decimal(n: int) -> Seq<char> {
    if n < 0 {
        seq!['-'] + decimal((-n) as nat)
    } else {
        decimal(n as nat)
    }
}

/// Each byte as two lowercase hexadecimal digits, high nibble first.
pub open spec fn hex(bytes: Seq<u8>) -> Seq<char>
    decreases bytes.len(),
{
    if bytes.len() == 0 {
        seq![]
    } else {
        let last = bytes.last();
        hex(bytes.drop_last()) + seq![hex_digit((last / 16) as nat), hex_digit((last % 16) as nat)]
    }
}

/// The text of one hexadecimal digit.
fn hex_digit_str(d: u8) -> (s: &'static str)
    requires
        d < 16,
    ensures
        s@ == seq![hex_digit(d as nat)],
{
    if d == 0 {
        proof { reveal_strlit("0"); }
        "0"
    } else if d == 1 {
        proof { reveal_strlit("1"); }
        "1"
    } else if d == 2 {
        proof { reveal_strlit("2"); }
        "2"
    } else if d == 3 {
        proof { reveal_strlit("3"); }
        "3"
    } else if d == 4 {
        proof { reveal_strlit("4"); }
        "4"
    } else if d == 5 {
        proof { reveal_strlit("5"); }
        "5"
    } else if d == 6 {
        proof { reveal_strlit("6"); }
        "6"
    } else if d == 7 {
        proof { reveal_strlit("7"); }
        "7"
    } else if d == 8 {
        proof { reveal_strlit("8"); }
        "8"
    } else if d == 9 {
        proof { reveal_strlit("9"); }
        "9"
    } else if d == 10 {
        proof { reveal_strlit("a"); }
        "a"
    } else if d == 11 {
        proof { reveal_strlit("b"); }
        "b"
    } else if d == 12 {
        proof { reveal_strlit("c"); }
        "c"
    } else if d == 13 {
        proof { reveal_strlit("d"); }
        "d"
    } else if d == 14 {
        proof { reveal_strlit("e"); }
        "e"
    } else {
        proof { reveal_strlit("f"); }
        "f"
    }
}

/// Appends the decimal notation of `n` to `out`.
pub fn push_decimal(out: &mut String, n: u64)
    ensures
        final(out)@ == old(out)@ + decimal(n as nat),
    decreases n,
{
    if n >= 10 {
        push_decimal(out, n / 10);
    }
    let digit = (n % 10) as u8;
    out.append(hex_digit_str(digit));
    assert(out@ =~= old(out)@ + decimal(n as nat)) by {
        if n >= 10 {
            assert(decimal(n as nat) == decimal((n / 10) as nat).push(decimal_digit((n % 10) as nat)));
        }
    }
}

/// Appends the decimal notation of a signed number to `out`.
pub fn push_signed_decimal(out: &mut String, n: i64)
    ensures
        final(out)@ == old(out)@ + signed_decimal(n as int),
{
    if n < 0 {
        proof { reveal_strlit("-"); }
        out.append("-");
        let magnitude: u64 = if n == i64::MIN {
            9223372036854775808u64
        } else {
            (-n) as u64
        };
        push_decimal(out, magnitude);
        assert(final(out)@ =~= old(out)@ + signed_decimal(n as int));
    } else {
        push_decimal(out, n as u64);
    }
}

/// Appends each byte of `bytes` to `out` as two lowercase hexadecimal digits.
pub fn push_hex(out: &mut String, bytes: &[u8])
    ensures
        final(out)@ == old(out)@ + hex(bytes@),
{
    let ghost start = out@;
    let mut i: usize = 0;
    assert(bytes@.take(0) =~= Seq::<u8>::empty());
    while i < bytes.len()
        invariant
            i <= bytes@.len(),
            out@ == start + hex(bytes@.take(i as int)),
        decreases bytes@.len() - i,
    {
        let byte = bytes[i];
        out.append(hex_digit_str(byte / 16));
        out.append(hex_digit_str(byte % 16));
        proof {
            let taken = bytes@.take(i + 1);
            assert(taken.drop_last() =~= bytes@.take(i as int));
            assert(taken.last() == byte);
        }
        i = i + 1;
        assert(out@ =~= start + hex(bytes@.take(i as int)));
    }
    assert(bytes@.take(bytes@.len() as int) =~= bytes@);
}

} // verus!

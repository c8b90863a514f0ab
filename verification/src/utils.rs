//! Display helpers for binary data, and the token of user messages.

use vstd::prelude::*;

verus! {

/// A token that the user attaches to a message to recognise the events about it.
pub type Token = u64;

/// The character of a digit below 16: `0`-`9`, then `a`-`f`.
pub open spec fn digit_char(n: nat) -> char {
    if n < 10 {
        (48 + n) as char
    } else {
        (87 + n) as char
    }
}

/// A byte in decimal, without leading zeros.
pub open spec fn decimal(b: u8) -> Seq<char> {
    if b >= 100 {
        seq![digit_char((b / 100) as nat), digit_char(((b / 10) % 10) as nat), digit_char((b % 10) as nat)]
    } else if b >= 10 {
        seq![digit_char((b / 10) as nat), digit_char((b % 10) as nat)]
    } else {
        seq![digit_char(b as nat)]
    }
}

/// A byte as two lowercase hexadecimal digits.
pub open spec fn hex2(b: u8) -> Seq<char> {
    seq![digit_char((b / 16) as nat), digit_char((b % 16) as nat)]
}

/// The bytes in decimal, separated by `", "`.
pub open spec fn decimal_list(s: Seq<u8>) -> Seq<char>
    decreases s.len(),
{
    if s.len() == 0 {
        Seq::empty()
    } else if s.len() == 1 {
        decimal(s[0])
    } else {
        decimal_list(s.drop_last()) + ", "@ + decimal(s.last())
    }
}

/// How binary data is displayed: short data (under 8 bytes) as its list of decimal bytes,
/// longer data as its first four and last four bytes in hexadecimal.
pub open spec fn bin_data_text(s: Seq<u8>) -> Seq<char> {
    if s.len() < 8 {
        "[ ["@ + decimal_list(s) + "] ]"@
    } else {
        let n = s.len() as int;
        "[ "@ + hex2(s[0]) + " "@ + hex2(s[1]) + " "@ + hex2(s[2]) + " "@ + hex2(s[3]) + ".."@ + hex2(
            s[n - 4],
        ) + " "@ + hex2(s[n - 3]) + " "@ + hex2(s[n - 2]) + " "@ + hex2(s[n - 1]) + " ]"@
    }
}

/// The one-character string of a digit below 16.
pub(crate) fn digit_str(n: u8) -> (r: &'static str)
    requires
        n < 16,
    ensures
        r@ == seq![digit_char(n as nat)],
{
    proof {
        reveal_strlit("0");
        reveal_strlit("1");
        reveal_strlit("2");
        reveal_strlit("3");
        reveal_strlit("4");
        reveal_strlit("5");
        reveal_strlit("6");
        reveal_strlit("7");
        reveal_strlit("8");
        reveal_strlit("9");
        reveal_strlit("a");
        reveal_strlit("b");
        reveal_strlit("c");
        reveal_strlit("d");
        reveal_strlit("e");
        reveal_strlit("f");
    }
    match n {
        0 => "0",
        1 => "1",
        2 => "2",
        3 => "3",
        4 => "4",
        5 => "5",
        6 => "6",
        7 => "7",
        8 => "8",
        9 => "9",
        10 => "a",
        11 => "b",
        12 => "c",
        13 => "d",
        14 => "e",
        _ => "f",
    }
}

/// Appends a byte in decimal.
fn push_decimal(out: &mut String, b: u8)
    ensures
        final(out)@ == old(out)@ + decimal(b),
{
    if b >= 100 {
        out.append(digit_str(b / 100));
        out.append(digit_str((b / 10) % 10));
        out.append(digit_str(b % 10));
    } else if b >= 10 {
        out.append(digit_str(b / 10));
        out.append(digit_str(b % 10));
    } else {
        out.append(digit_str(b));
    }
}

/// Appends a byte as two hexadecimal digits.
fn push_hex2(out: &mut String, b: u8)
    ensures
        final(out)@ == old(out)@ + hex2(b),
{
    out.append(digit_str(b / 16));
    out.append(digit_str(b % 16));
}

/// A `u64` as sixteen lowercase hexadecimal digits, most significant first.
pub open spec fn hex16(x: u64) -> Seq<char> {
    hex2((x >> 56u64) as u8) + hex2((x >> 48u64) as u8) + hex2((x >> 40u64) as u8) + hex2(
        (x >> 32u64) as u8,
    ) + hex2((x >> 24u64) as u8) + hex2((x >> 16u64) as u8) + hex2((x >> 8u64) as u8) + hex2(
        x as u8,
    )
}

/// Appends a `u64` as sixteen hexadecimal digits.
pub fn push_hex16(out: &mut String, x: u64)
    ensures
        final(out)@ == old(out)@ + hex16(x),
{
    let ghost start = out@;
    push_hex2(out, (x >> 56u64) as u8);
    push_hex2(out, (x >> 48u64) as u8);
    push_hex2(out, (x >> 40u64) as u8);
    push_hex2(out, (x >> 32u64) as u8);
    push_hex2(out, (x >> 24u64) as u8);
    push_hex2(out, (x >> 16u64) as u8);
    push_hex2(out, (x >> 8u64) as u8);
    push_hex2(out, x as u8);
    assert(out@ =~= start + hex16(x));
}

/// Converts binary data to a displayable format.
pub fn bin_data_format(data: &[u8]) -> (r: String)
    ensures
        r@ == bin_data_text(data@),
{
    let len = data.len();
    let mut out = String::new();
    if len < 8 {
        proof {
            reveal_strlit("[ [");
            reveal_strlit(", ");
            reveal_strlit("] ]");
        }
        out.append("[ [");
        let mut i: usize = 0;
        while i < len
            invariant
                i <= len,
                len == data@.len(),
                out@ == "[ ["@ + decimal_list(data@.subrange(0, i as int)),
            decreases len - i,
        {
            let ghost before = out@;
            if i > 0 {
                out.append(", ");
            }
            push_decimal(&mut out, data[i]);
            proof {
                let s = data@.subrange(0, i + 1);
                assert(s.drop_last() =~= data@.subrange(0, i as int));
                assert(s.last() == data@[i as int]);
                if i == 0 {
                    assert(data@.subrange(0, 0) =~= Seq::<u8>::empty());
                }
            }
            i = i + 1;
        }
        out.append("] ]");
        assert(data@.subrange(0, len as int) =~= data@);
        out
    } else {
        proof {
            reveal_strlit("[ ");
            reveal_strlit(" ");
            reveal_strlit("..");
            reveal_strlit(" ]");
        }
        out.append("[ ");
        push_hex2(&mut out, data[0]);
        out.append(" ");
        push_hex2(&mut out, data[1]);
        out.append(" ");
        push_hex2(&mut out, data[2]);
        out.append(" ");
        push_hex2(&mut out, data[3]);
        out.append("..");
        push_hex2(&mut out, data[len - 4]);
        out.append(" ");
        push_hex2(&mut out, data[len - 3]);
        out.append(" ");
        push_hex2(&mut out, data[len - 2]);
        out.append(" ");
        push_hex2(&mut out, data[len - 1]);
        out.append(" ]");
        out
    }
}

/// A number in decimal, without leading zeros.
pub open spec fn dec_text(n: nat) -> Seq<char>
    decreases n,
{
    if n < 10 {
        seq![digit_char(n)]
    } else {
        dec_text(n / 10) + seq![digit_char(n % 10)]
    }
}

/// A number in lowercase hexadecimal, without leading zeros.
pub open spec fn hex_text(n: nat) -> Seq<char>
    decreases n,
{
    if n < 16 {
        seq![digit_char(n)]
    } else {
        hex_text(n / 16) + seq![digit_char(n % 16)]
    }
}

/// Appends a number in decimal.
pub fn push_dec(out: &mut String, x: u64)
    ensures
        final(out)@ == old(out)@ + dec_text(x as nat),
    decreases x,
{
    let ghost start = out@;
    if x >= 10 {
        push_dec(out, x / 10);
    }
    out.append(digit_str((x % 10) as u8));
    proof {
        if x >= 10 {
            assert(out@ =~= start + (dec_text((x / 10) as nat) + seq![digit_char((x % 10) as nat)]));
        } else {
            assert(out@ =~= start + seq![digit_char(x as nat)]);
        }
    }
}

/// Appends a number in hexadecimal.
pub fn push_hex(out: &mut String, x: u64)
    ensures
        final(out)@ == old(out)@ + hex_text(x as nat),
    decreases x,
{
    let ghost start = out@;
    if x >= 16 {
        push_hex(out, x / 16);
    }
    out.append(digit_str((x % 16) as u8));
    proof {
        if x >= 16 {
            assert(out@ =~= start + (hex_text((x / 16) as nat) + seq![digit_char((x % 16) as nat)]));
        } else {
            assert(out@ =~= start + seq![digit_char(x as nat)]);
        }
    }
}

} // verus!

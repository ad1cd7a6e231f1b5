//! Lowercase hexadecimal text, the form in which object ids are written.
use vstd::prelude::*;

verus! {

/// The digit that stands for `n`, for `n` below 16.
pub open spec fn digit(n: int) -> u8 {
    if n < 10 {
        (0x30 + n) as u8
    } else {
        (0x61 + n - 10) as u8
    }
}

/// Whether `c` is one of `0`..`9`, `a`..`f`.
pub open spec fn is_digit(c: u8) -> bool {
    (0x30 <= c <= 0x39) || (0x61 <= c <= 0x66)
}

/// The number that the digit `c` stands for.
pub open spec fn value(c: u8) -> int {
    if c <= 0x39 {
        c - 0x30
    } else {
        c - 0x61 + 10
    }
}

/// Whether every byte of `text` is a lowercase hexadecimal digit.
pub open spec fn is_hex(text: Seq<u8>) -> bool {
    forall|i: int| 0 <= i < text.len() ==> is_digit(#[trigger] text[i])
}

/// The text of `bytes`: two digits for each byte, the high half first.
pub open spec fn text_of(bytes: Seq<u8>) -> Seq<u8> {
    Seq::new(
        2 * bytes.len(),
        |i: int|
            if i % 2 == 0 {
                digit(bytes[i / 2] as int / 16)
            } else {
                digit(bytes[i / 2] as int % 16)
            },
    )
}

/// The bytes that `text` stands for, where it is hexadecimal and of even length.
pub open spec fn bytes_of(text: Seq<u8>) -> Seq<u8> {
    Seq::new(
        text.len() / 2,
        |i: int| (value(text[2 * i]) * 16 + value(text[2 * i + 1])) as u8,
    )
}

/// What is written can be read: the text of any bytes is hexadecimal, of
/// twice their length, and stands for them.
pub proof fn text_of_is_read_back(bytes: Seq<u8>)
    ensures
        text_of(bytes).len() == 2 * bytes.len(),
        is_hex(text_of(bytes)),
        bytes_of(text_of(bytes)) == bytes,
{
    let text = text_of(bytes);
    assert forall|i: int| 0 <= i < text.len() implies is_digit(#[trigger] text[i]) by {
        let b = bytes[i / 2] as int;
        assert(0 <= b / 16 < 16 && 0 <= b % 16 < 16);
    }
    assert forall|i: int| 0 <= i < bytes.len() implies bytes_of(text)[i] == bytes[i] by {
        let b = bytes[i] as int;
        assert((2 * i) % 2 == 0 && (2 * i) / 2 == i);
        assert((2 * i + 1) % 2 == 1 && (2 * i + 1) / 2 == i);
        assert(0 <= b / 16 < 16 && 0 <= b % 16 < 16);
        assert(value(digit(b / 16)) == b / 16);
        assert(value(digit(b % 16)) == b % 16);
        assert((b / 16) * 16 + b % 16 == b);
    }
    assert(bytes_of(text) =~= bytes);
}

/// What is read is what would be written: hexadecimal text of even length is
/// the text of the bytes it stands for.
pub proof fn bytes_of_is_written_back(text: Seq<u8>)
    requires
        is_hex(text),
        text.len() % 2 == 0,
    ensures
        bytes_of(text).len() * 2 == text.len(),
        text_of(bytes_of(text)) == text,
{
    let bytes = bytes_of(text);
    assert forall|i: int| 0 <= i < text.len() implies text_of(bytes)[i] == text[i] by {
        let k = i / 2;
        let hi = value(text[2 * k]);
        let lo = value(text[2 * k + 1]);
        assert(is_digit(text[2 * k]) && is_digit(text[2 * k + 1]));
        assert(0 <= hi < 16 && 0 <= lo < 16);
        assert(bytes[k] as int == hi * 16 + lo);
        assert((hi * 16 + lo) / 16 == hi && (hi * 16 + lo) % 16 == lo);
        assert(digit(hi) == text[2 * k] && digit(lo) == text[2 * k + 1]);
        if i % 2 == 0 {
            assert(i == 2 * k);
        } else {
            assert(i == 2 * k + 1);
        }
    }
    assert(text_of(bytes) =~= text);
}

/// The digit for a number below 16.
fn digit_of(n: u8) -> (c: u8)
    requires
        n < 16,
    ensures
        c == digit(n as int),
{
    if n < 10 {
        0x30 + n
    } else {
        0x61 + (n - 10)
    }
}

/// The number behind a digit, or `None` for any other byte.
fn value_of(c: u8) -> (n: Option<u8>)
    ensures
        n is Some <==> is_digit(c),
        n matches Some(v) ==> v == value(c) && v < 16,
{
    if 0x30 <= c && c <= 0x39 {
        Some(c - 0x30)
    } else if 0x61 <= c && c <= 0x66 {
        Some(c - 0x61 + 10)
    } else {
        None
    }
}

/// Appends the hexadecimal text of `bytes` to `out`.
pub fn write(bytes: &Vec<u8>, out: &mut Vec<u8>)
    ensures
        final(out)@ == old(out)@ + text_of(bytes@),
{
    let ghost before = out@;
    let mut i: usize = 0;
    while i < bytes.len()
        invariant
            i <= bytes.len(),
            out@.len() == before.len() + 2 * i,
            out@.subrange(0, before.len() as int) == before,
            forall|k: int| 0 <= k < 2 * i ==> out@[before.len() + k] == text_of(bytes@)[k],
        decreases bytes.len() - i,
    {
        let b = bytes[i];
        let ghost prior = out@;
        out.push(digit_of(b / 16));
        out.push(digit_of(b % 16));
        proof {
            assert((2 * i) % 2 == 0 && (2 * i) / 2 == i);
            assert((2 * i + 1) % 2 == 1 && (2 * i + 1) / 2 == i);
            assert(out@.subrange(0, before.len() as int) == prior.subrange(
                0,
                before.len() as int,
            ));
            assert forall|k: int| 0 <= k < 2 * (i + 1) implies out@[before.len() + k] == text_of(
                bytes@,
            )[k] by {
                if k < 2 * i {
                    assert(out@[before.len() + k] == prior[before.len() + k]);
                }
            }
        }
        i += 1;
    }
    assert(out@ =~= before + text_of(bytes@));
}

/// Reads the bytes that `text[from..to]` stands for, or `None` where that
/// part is not hexadecimal text of even length.
pub fn read(text: &Vec<u8>, from: usize, to: usize) -> (bytes: Option<Vec<u8>>)
    requires
        from <= to <= text.len(),
    ensures
        bytes is Some <==> (to - from) % 2 == 0 && is_hex(text@.subrange(from as int, to as int)),
        bytes matches Some(b) ==> b@ == bytes_of(text@.subrange(from as int, to as int)),
{
    let ghost part = text@.subrange(from as int, to as int);
    if (to - from) % 2 != 0 {
        return None;
    }
    let n = (to - from) / 2;
    let mut out: Vec<u8> = Vec::new();
    let mut i: usize = 0;
    while i < n
        invariant
            from <= to <= text.len(),
            part == text@.subrange(from as int, to as int),
            to - from == 2 * n,
            i <= n,
            out@.len() == i,
            forall|k: int| 0 <= k < 2 * i ==> is_digit(#[trigger] part[k]),
            forall|k: int| 0 <= k < i ==> out@[k] == bytes_of(part)[k],
        decreases n - i,
    {
        let hi = value_of(text[from + 2 * i]);
        let lo = value_of(text[from + 2 * i + 1]);
        assert(part[2 * i] == text@[from + 2 * i]);
        assert(part[2 * i + 1] == text@[from + 2 * i + 1]);
        match (hi, lo) {
            (Some(h), Some(l)) => {
                out.push(h * 16 + l);
            },
            _ => {
                assert(!is_digit(part[2 * i]) || !is_digit(part[2 * i + 1]));
                return None;
            },
        }
        i += 1;
    }
    assert(out@ =~= bytes_of(part));
    Some(out)
}

} // verus!

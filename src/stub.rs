//! Byte content of the placeholder ("stub") files that stand in for large files.
//! Text is handled as ASCII bytes: 10 is a line feed, 32 a space, 46 a point.
use vstd::prelude::*;
use vstd::utf8::encode_utf8;
use vstd::string::StrSliceExecFns;

verus! {

pub const KIB: u64 = 1024;

pub const MIB: u64 = 1048576;

pub const GIB: u64 = 1073741824;

/// ASCII code of the decimal digit `d`.
pub open spec fn digit(d: nat) -> u8 {
    (d + 48) as u8
}

/// Decimal rendering of `n`, most significant digit first, without leading zeros.
pub open spec fn decimal(n: nat) -> Seq<u8>
    decreases n,
{
    if n < 10 {
        seq![digit(n)]
    } else {
        decimal(n / 10).push(digit(n % 10))
    }
}

/// `num / den` rounded to a whole number, ties going to the even neighbour.
pub open spec fn div_round_even(num: nat, den: nat) -> nat
    recommends
        den > 0,
{
    let q = num / den;
    let r = num % den;
    if 2 * r > den || (2 * r == den && q % 2 == 1) {
        q + 1
    } else {
        q
    }
}

/// `len / unit` written with exactly two fractional digits, correctly rounded.
pub open spec fn two_decimals(len: nat, unit: nat) -> Seq<u8> {
    let h = div_round_even(len * 100, unit);
    decimal(h / 100) + seq![46, digit((h % 100) / 10), digit(h % 10)]
}

/// Human-readable size: bytes below 1 KiB, else KiB, MiB or GiB with two decimals.
pub open spec fn human_size_spec(len: nat) -> Seq<u8> {
    if len < KIB {
        decimal(len) + seq![32, 66]  // " B"
    } else if len < MIB {
        two_decimals(len, KIB as nat) + seq![32, 75, 105, 66]  // " KiB"
    } else if len < GIB {
        two_decimals(len, MIB as nat) + seq![32, 77, 105, 66]  // " MiB"
    } else {
        two_decimals(len, GIB as nat) + seq![32, 71, 105, 66]  // " GiB"
    }
}

/// `"size:       "`
pub open spec fn size_label() -> Seq<u8> {
    seq![115, 105, 122, 101, 58, 32, 32, 32, 32, 32, 32, 32]
}

/// `"human_size: "`
pub open spec fn human_size_label() -> Seq<u8> {
    seq![104, 117, 109, 97, 110, 95, 115, 105, 122, 101, 58, 32]
}

/// The full stub: the magic line, an empty line, the exact size and the
/// human-readable size, each line ending in `\n`.
pub open spec fn stub_spec(magic: Seq<u8>, len: nat) -> Seq<u8> {
    magic + seq![10, 10] + size_label() + decimal(len) + seq![10] + human_size_label()
        + human_size_spec(len) + seq![10]
}

/// Whether `b` is the ASCII code of a decimal digit.
pub open spec fn is_digit(b: u8) -> bool {
    48 <= b <= 57
}

/// The unit that the thresholds select for a size of at least 1 KiB,
/// with the space before it.
pub open spec fn unit_suffix(len: nat) -> Seq<u8> {
    if len < MIB {
        seq![32, 75, 105, 66]  // " KiB"
    } else if len < GIB {
        seq![32, 77, 105, 66]  // " MiB"
    } else {
        seq![32, 71, 105, 66]  // " GiB"
    }
}

proof fn lemma_decimal_digits(n: nat)
    ensures
        decimal(n).len() >= 1,
        forall|i: int| 0 <= i < decimal(n).len() ==> is_digit(#[trigger] decimal(n)[i]),
    decreases n,
{
    if n >= 10 {
        lemma_decimal_digits(n / 10);
    }
}

/// A size below 1 KiB is a whole number of bytes. From 1 KiB on, it is a
/// whole part of one or more digits, a point, exactly two digits, and the
/// unit that the thresholds select.
pub proof fn lemma_human_size_form(len: nat)
    ensures
        len < KIB ==> human_size_spec(len) == decimal(len) + seq![32u8, 66u8],
        len >= KIB ==> ({
            let t = human_size_spec(len);
            let w = (t.len() - 7) as int;
            &&& t.len() >= 8
            &&& t.subrange(t.len() - 4, t.len() as int) == unit_suffix(len)
            &&& t[w] == 46
            &&& is_digit(t[w + 1]) && is_digit(t[w + 2])
            &&& forall|i: int| 0 <= i < w ==> is_digit(#[trigger] t[i])
        }),
{
    if len >= KIB {
        let unit: nat = if len < MIB {
            KIB as nat
        } else if len < GIB {
            MIB as nat
        } else {
            GIB as nat
        };
        let h = div_round_even(len * 100, unit);
        lemma_decimal_digits(h / 100);
        let d = decimal(h / 100);
        let t = human_size_spec(len);
        assert(t == d + seq![46, digit((h % 100) / 10), digit(h % 10)] + unit_suffix(len));
        assert(t.subrange(t.len() - 4, t.len() as int) =~= unit_suffix(len));
        assert forall|i: int| 0 <= i < t.len() - 7 implies is_digit(#[trigger] t[i]) by {
            assert(t[i] == d[i]);
        }
    }
}

fn push_decimal(out: &mut Vec<u8>, n: u64)
    ensures
        final(out)@ == old(out)@ + decimal(n as nat),
    decreases n,
{
    if n >= 10 {
        push_decimal(out, n / 10);
    }
    out.push((n % 10) as u8 + 48);
    assert(final(out)@ =~= old(out)@ + decimal(n as nat));
}

fn push_all(out: &mut Vec<u8>, bytes: &[u8])
    ensures
        final(out)@ == old(out)@ + bytes@,
{
    let mut i: usize = 0;
    while i < bytes.len()
        invariant
            i <= bytes@.len(),
            out@ == old(out)@ + bytes@.subrange(0, i as int),
        decreases bytes@.len() - i,
    {
        out.push(bytes[i]);
        i = i + 1;
        assert(out@ =~= old(out)@ + bytes@.subrange(0, i as int));
    }
    assert(bytes@.subrange(0, i as int) =~= bytes@);
}

fn push_two_decimals(out: &mut Vec<u8>, len: u64, unit: u64)
    requires
        unit == KIB || unit == MIB || unit == GIB,
    ensures
        final(out)@ == old(out)@ + two_decimals(len as nat, unit as nat),
{
    let num: u128 = len as u128 * 100;
    let q: u128 = num / unit as u128;
    let r: u128 = num % unit as u128;
    let h: u128 = if 2 * r > unit as u128 || (2 * r == unit as u128 && q % 2 == 1) {
        q + 1
    } else {
        q
    };
    assert(h == div_round_even(len as nat * 100, unit as nat));
    assert(h <= u64::MAX) by (nonlinear_arith)
        requires
            h <= q + 1,
            q == num / unit as u128,
            num == len as u128 * 100,
            unit >= 1024,
            len <= u64::MAX,
    ;
    let h: u64 = h as u64;
    push_decimal(out, h / 100);
    out.push(46);  // '.'
    out.push(((h % 100) / 10) as u8 + 48);
    out.push((h % 10) as u8 + 48);
    assert(final(out)@ =~= old(out)@ + two_decimals(len as nat, unit as nat));
}

/// Appends the human-readable form of `len` bytes to `out`.
fn push_human_size(out: &mut Vec<u8>, len: u64)
    ensures
        final(out)@ == old(out)@ + human_size_spec(len as nat),
{
    let start = Ghost(out@);
    if len < KIB {
        push_decimal(out, len);
        push_all(out, &[32, 66]);  // " B"
    } else if len < MIB {
        push_two_decimals(out, len, KIB);
        push_all(out, &[32, 75, 105, 66]);  // " KiB"
    } else if len < GIB {
        push_two_decimals(out, len, MIB);
        push_all(out, &[32, 77, 105, 66]);  // " MiB"
    } else {
        push_two_decimals(out, len, GIB);
        push_all(out, &[32, 71, 105, 66]);  // " GiB"
    }
    assert(out@ =~= start@ + human_size_spec(len as nat));
}

/// The human-readable size of `len` bytes, as ASCII text (`"4.88 KiB"`).
pub fn human_size(len: u64) -> (r: Vec<u8>)
    ensures
        r@ == human_size_spec(len as nat),
{
    let mut out: Vec<u8> = Vec::new();
    push_human_size(&mut out, len);
    assert(out@ =~= human_size_spec(len as nat));
    out
}

/// The exact bytes of the stub that replaces a file of `len` bytes.
pub fn stub_content(magic: &str, len: u64) -> (r: Vec<u8>)
    ensures
        r@ == stub_spec(encode_utf8(magic@), len as nat),
{
    let mut out: Vec<u8> = magic.as_bytes_vec();
    push_all(&mut out, &[10, 10]);  // "\n\n"
    push_all(&mut out, &[115, 105, 122, 101, 58, 32, 32, 32, 32, 32, 32, 32]);  // "size:       "
    push_decimal(&mut out, len);
    push_all(&mut out, &[10]);
    push_all(&mut out, &[104, 117, 109, 97, 110, 95, 115, 105, 122, 101, 58, 32]);  // "human_size: "
    push_human_size(&mut out, len);
    push_all(&mut out, &[10]);
    assert(out@ =~= stub_spec(encode_utf8(magic@), len as nat));
    out
}

} // verus!

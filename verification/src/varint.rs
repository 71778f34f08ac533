//! The length field that opens every frame: an unsigned integer in base 128,
//! least significant group first, where the high bit of a byte says that
//! another byte follows. Only the shortest encoding of a number is accepted.

use vstd::prelude::*;

verus! {

/// The most bytes a length field may occupy; ten groups of seven bits hold
/// any 64-bit number.
pub const MAX_FIELD_BYTES: usize = 10;

/// 128 to the power `k`.
pub open spec fn pow128(k: nat) -> nat
    decreases k,
{
    if k == 0 {
        1
    } else {
        128 * pow128((k - 1) as nat)
    }
}

/// The encoding of `n`: its base-128 digits from the least significant on,
/// each but the last with the high bit set.
pub open spec fn encoding(n: nat) -> Seq<u8>
    decreases n,
{
    if n < 128 {
        seq![n as u8]
    } else {
        seq![(n % 128 + 128) as u8] + encoding(n / 128)
    }
}

/// What the front of a byte sequence holds when read as a length field.
pub enum Scan {
    /// A complete field: the number it denotes and the bytes it occupies.
    Value { value: nat, used: nat },
    /// The bytes end while the last one still announces another.
    Incomplete,
    /// Not a field: too long, or not the shortest encoding of its number.
    Invalid,
}

/// Reads a field from the front of `bytes`, looking at no more than `room`
/// bytes.
pub open spec fn parse(bytes: Seq<u8>, room: nat) -> Scan
    decreases room,
{
    if room == 0 {
        Scan::Invalid
    } else if bytes.len() == 0 {
        Scan::Incomplete
    } else if bytes[0] < 128 {
        Scan::Value { value: bytes[0] as nat, used: 1 }
    } else {
        match parse(bytes.skip(1), (room - 1) as nat) {
            Scan::Value { value, used } => if value == 0 {
                Scan::Invalid
            } else {
                Scan::Value { value: ((bytes[0] - 128) + 128 * value) as nat, used: used + 1 }
            },
            other => other,
        }
    }
}

/// Reads a 64-bit length field from the front of `bytes`.
pub open spec fn scan(bytes: Seq<u8>) -> Scan {
    match parse(bytes, MAX_FIELD_BYTES as nat) {
        Scan::Value { value, used } => if value > u64::MAX {
            Scan::Invalid
        } else {
            Scan::Value { value, used }
        },
        other => other,
    }
}

/// Why no length could be read.
#[derive(Clone, Copy, Debug, PartialEq, Eq, Structural)]
pub enum FieldError {
    /// More bytes are needed to finish the field.
    Incomplete,
    /// The bytes are not a length field.
    Invalid,
}

/// The executable reading of `parse`'s result.
pub open spec fn scan_result(s: Scan) -> Result<(u64, usize), FieldError> {
    match s {
        Scan::Value { value, used } => Ok((value as u64, used as usize)),
        Scan::Incomplete => Err(FieldError::Incomplete),
        Scan::Invalid => Err(FieldError::Invalid),
    }
}

/// Powers of 128 are positive, and up to the tenth they stay within 70 bits.
pub proof fn lemma_pow128_bounds(k: nat)
    ensures
        0 < pow128(k),
        k <= 10 ==> pow128(k) <= 0x40_0000_0000_0000_0000,
        k < 10 ==> 128 * pow128(k) <= 0x40_0000_0000_0000_0000,
    decreases k,
{
    if k > 0 {
        lemma_pow128_bounds((k - 1) as nat);
    }
    if k <= 10 {
        reveal_with_fuel(pow128, 12);
    }
}

/// A field that `parse` accepts denotes a number below `128^room` and
/// occupies between one and `room` bytes, all of them present.
pub proof fn lemma_parse_bounds(bytes: Seq<u8>, room: nat)
    ensures
        parse(bytes, room) matches Scan::Value { value, used } ==> value < pow128(room) && 1 <= used
            <= room && used <= bytes.len(),
    decreases room,
{
    if room > 0 && bytes.len() > 0 {
        lemma_pow128_bounds((room - 1) as nat);
        if bytes[0] >= 128 {
            lemma_parse_bounds(bytes.skip(1), (room - 1) as nat);
        }
    }
}

fn read_groups(bytes: &[u8], at: usize, room: usize) -> (r: Result<(u128, usize), FieldError>)
    requires
        at <= bytes.len(),
        room <= MAX_FIELD_BYTES,
    ensures
        match parse(bytes@.skip(at as int), room as nat) {
            Scan::Value { value, used } => r == Ok::<(u128, usize), FieldError>(
                (value as u128, used as usize),
            ),
            Scan::Incomplete => r == Err::<(u128, usize), FieldError>(FieldError::Incomplete),
            Scan::Invalid => r == Err::<(u128, usize), FieldError>(FieldError::Invalid),
        },
    decreases room,
{
    if room == 0 {
        return Err(FieldError::Invalid);
    }
    if at == bytes.len() {
        return Err(FieldError::Incomplete);
    }
    let first: u8 = bytes[at];
    if first < 128 {
        return Ok((first as u128, 1));
    }
    proof {
        assert(bytes@.skip(at as int).skip(1) =~= bytes@.skip(at + 1));
        lemma_parse_bounds(bytes@.skip(at + 1), (room - 1) as nat);
        lemma_pow128_bounds((room - 1) as nat);
    }
    match read_groups(bytes, at + 1, room - 1) {
        Ok((value, used)) => {
            if value == 0 {
                Err(FieldError::Invalid)
            } else {
                Ok(((first - 128) as u128 + 128 * value, used + 1))
            }
        },
        Err(e) => Err(e),
    }
}

/// Reads the length field at the front of `bytes`: the number and how many
/// bytes the field occupies.
pub fn read(bytes: &[u8]) -> (r: Result<(u64, usize), FieldError>)
    ensures
        r == scan_result(scan(bytes@)),
{
    proof {
        assert(bytes@.skip(0) =~= bytes@);
        lemma_parse_bounds(bytes@, MAX_FIELD_BYTES as nat);
        lemma_pow128_bounds(10);
    }
    match read_groups(bytes, 0, MAX_FIELD_BYTES) {
        Ok((value, used)) => {
            if value > u64::MAX as u128 {
                Err(FieldError::Invalid)
            } else {
                Ok((value as u64, used))
            }
        },
        Err(e) => Err(e),
    }
}

/// Writes `n` as a length field.
pub fn write(n: u64) -> (out: Vec<u8>)
    ensures
        out@ == encoding(n as nat),
{
    let mut out: Vec<u8> = Vec::new();
    let mut rest: u64 = n;
    while rest >= 128
        invariant
            out@ + encoding(rest as nat) == encoding(n as nat),
        decreases rest,
    {
        let ghost before = out@;
        out.push((rest % 128 + 128) as u8);
        proof {
            assert(out@ + encoding((rest / 128) as nat) =~= before + encoding(rest as nat));
        }
        rest = rest / 128;
    }
    out.push(rest as u8);
    out
}

/// The encoding of a number below `128^k`, for a positive `k`, has between
/// one and `k` bytes.
pub proof fn lemma_encoding_len(n: nat, k: nat)
    requires
        1 <= k,
        n < pow128(k),
    ensures
        1 <= encoding(n).len() <= k,
    decreases n,
{
    if n >= 128 {
        assert(pow128(1) == 128) by {
            reveal_with_fuel(pow128, 2);
        }
        assert(k >= 2);
        lemma_encoding_len(n / 128, (k - 1) as nat);
    }
}

/// Reading what was written gives the number back, whatever follows it.
pub proof fn lemma_parse_encoding(n: nat, tail: Seq<u8>, room: nat)
    requires
        encoding(n).len() <= room,
    ensures
        parse(encoding(n) + tail, room) == (Scan::Value { value: n, used: encoding(n).len() }),
    decreases n,
{
    let bytes = encoding(n) + tail;
    if n >= 128 {
        assert(bytes.skip(1) =~= encoding(n / 128) + tail);
        lemma_parse_encoding(n / 128, tail, (room - 1) as nat);
    }
}

/// For every 64-bit number: the bytes written for it, followed by anything,
/// read back as that number and as exactly those bytes.
pub proof fn lemma_scan_encoding(n: nat, tail: Seq<u8>)
    requires
        n <= u64::MAX,
    ensures
        1 <= encoding(n).len() <= MAX_FIELD_BYTES,
        scan(encoding(n) + tail) == (Scan::Value { value: n, used: encoding(n).len() }),
{
    reveal_with_fuel(pow128, 12);
    lemma_encoding_len(n, 10);
    lemma_parse_encoding(n, tail, 10);
}

/// A field that reads as a number is the encoding of that number: no two
/// byte strings denote the same length.
pub proof fn lemma_parse_canonical(bytes: Seq<u8>, room: nat)
    ensures
        parse(bytes, room) matches Scan::Value { value, used } ==> bytes.subrange(0, used as int)
            == encoding(value),
    decreases room,
{
    if room > 0 && bytes.len() > 0 {
        if bytes[0] < 128 {
            assert(bytes.subrange(0, 1) =~= seq![bytes[0]]);
        } else {
            lemma_parse_canonical(bytes.skip(1), (room - 1) as nat);
            lemma_parse_bounds(bytes.skip(1), (room - 1) as nat);
            if let Scan::Value { value, used } = parse(bytes.skip(1), (room - 1) as nat) {
                if value != 0 {
                    let whole = ((bytes[0] - 128) + 128 * value) as nat;
                    assert(whole / 128 == value);
                    assert(whole % 128 + 128 == bytes[0]);
                    assert(bytes.subrange(0, used as int + 1) =~= seq![bytes[0]] + bytes.skip(1).subrange(
                        0,
                        used as int,
                    ));
                }
            }
        }
    }
}

} // verus!

//! The deduplication id of a record: a 64-bit FNV-1a hash of the pid, the
//! port and the process name, printed as lower-case hexadecimal.  The id is
//! a deterministic function of those three fields and nothing else.

use vstd::prelude::*;
use crate::quoted::hex_char;
use crate::text::string_from_chars;

verus! {

broadcast use vstd::utf8::char_is_scalar, vstd::utf8::char_u32_cast;

/// The FNV-1a offset basis.
pub open spec fn fnv_basis() -> u64 {
    0xcbf29ce484222325u64
}

/// One FNV-1a step: fold one byte into the accumulator.
pub open spec fn fnv_step(acc: u64, b: u8) -> u64 {
    ((((acc ^ (b as u64)) as nat) * 1099511628211) % 0x10000000000000000) as u64
}

/// The FNV-1a hash of a byte sequence.
pub open spec fn fnv64(bytes: Seq<u8>) -> u64
    decreases bytes.len(),
{
    if bytes.len() == 0 {
        fnv_basis()
    } else {
        fnv_step(fnv64(bytes.drop_last()), bytes.last())
    }
}

/// The four little-endian bytes of a 32-bit value.
pub open spec fn le_bytes_u32(v: u32) -> Seq<u8> {
    seq![
        (v % 256) as u8,
        ((v / 256) % 256) as u8,
        ((v / 65536) % 256) as u8,
        ((v / 16777216) % 256) as u8,
    ]
}

/// The two little-endian bytes of a 16-bit value.
pub open spec fn le_bytes_u16(v: u16) -> Seq<u8> {
    seq![(v % 256) as u8, ((v / 256) % 256) as u8]
}

/// The bytes of a name: each character's scalar value in little-endian.
pub open spec fn name_bytes(name: Seq<char>) -> Seq<u8>
    decreases name.len(),
{
    if name.len() == 0 {
        Seq::empty()
    } else {
        name_bytes(name.drop_last()) + le_bytes_u32(name.last() as u32)
    }
}

/// The bytes hashed for a record's id.
pub open spec fn record_bytes(pid: u32, port: u16, name: Seq<char>) -> Seq<u8> {
    le_bytes_u32(pid) + le_bytes_u16(port) + name_bytes(name)
}

/// The lower-case hexadecimal numeral of `n`, no leading zeros.
pub open spec fn hex_of(n: nat) -> Seq<char>
    decreases n,
{
    if n < 16 {
        seq![hex_char(n as int)]
    } else {
        hex_of(n / 16).push(hex_char((n % 16) as int))
    }
}

/// The deduplication id of a record.
pub open spec fn record_id(pid: u32, port: u16, name: Seq<char>) -> Seq<char> {
    hex_of(fnv64(record_bytes(pid, port, name)) as nat)
}

/// Appends the four little-endian bytes of `v`.
fn push_le_u32(out: &mut Vec<u8>, v: u32)
    ensures
        final(out)@ == old(out)@ + le_bytes_u32(v),
{
    out.push((v % 256) as u8);
    out.push(((v / 256) % 256) as u8);
    out.push(((v / 65536) % 256) as u8);
    out.push(((v / 16777216) % 256) as u8);
    proof {
        assert(out@ =~= old(out)@ + le_bytes_u32(v));
    }
}

/// Folds the bytes into an FNV-1a hash.
fn fnv_hash(bytes: &Vec<u8>) -> (r: u64)
    ensures
        r == fnv64(bytes@),
{
    let mut acc: u64 = 0xcbf29ce484222325;
    let mut i: usize = 0;
    proof {
        assert(bytes@.take(0int) =~= Seq::<u8>::empty());
    }
    while i < bytes.len()
        invariant
            i <= bytes@.len(),
            acc == fnv64(bytes@.take(i as int)),
        decreases bytes@.len() - i,
    {
        let x: u64 = acc ^ (bytes[i] as u64);
        let wide: u128 = (x as u128) * 1099511628211u128;
        acc = (wide % 0x10000000000000000u128) as u64;
        proof {
            let prefix = bytes@.take(i as int);
            let now = bytes@.take(i + 1 as int);
            assert(now.drop_last() =~= prefix);
            assert(now.last() == bytes@[i as int]);
            assert(wide == (x as nat) * 1099511628211) by {
                assert(x as u128 == x as nat);
            }
            assert(acc as nat == wide as nat % 0x10000000000000000);
        }
        i = i + 1;
    }
    proof {
        assert(bytes@.take(bytes@.len() as int) =~= bytes@);
    }
    acc
}

/// Appends the hexadecimal numeral of `n`.
fn append_hex(out: &mut Vec<char>, n: u64)
    ensures
        final(out)@ == old(out)@ + hex_of(n as nat),
    decreases n,
{
    if n < 16 {
        out.push(hex_from_u64(n));
        proof {
            assert(final(out)@ =~= old(out)@ + hex_of(n as nat));
        }
    } else {
        append_hex(out, n / 16);
        out.push(hex_from_u64(n % 16));
        proof {
            assert(final(out)@ =~= old(out)@ + hex_of(n as nat));
        }
    }
}

/// The hexadecimal digit character of a value below sixteen.
fn hex_from_u64(d: u64) -> (c: char)
    requires
        d < 16,
    ensures
        c == hex_char(d as int),
{
    if d == 0 {
        '0'
    } else if d == 1 {
        '1'
    } else if d == 2 {
        '2'
    } else if d == 3 {
        '3'
    } else if d == 4 {
        '4'
    } else if d == 5 {
        '5'
    } else if d == 6 {
        '6'
    } else if d == 7 {
        '7'
    } else if d == 8 {
        '8'
    } else if d == 9 {
        '9'
    } else if d == 10 {
        'a'
    } else if d == 11 {
        'b'
    } else if d == 12 {
        'c'
    } else if d == 13 {
        'd'
    } else if d == 14 {
        'e'
    } else {
        'f'
    }
}

/// The deduplication id of a record, as a `String`.
pub fn make_record_id(pid: u32, port: u16, name: &Vec<char>) -> (r: String)
    ensures
        r@ == record_id(pid, port, name@),
{
    let mut bytes: Vec<u8> = Vec::new();
    push_le_u32(&mut bytes, pid);
    bytes.push((port % 256) as u8);
    bytes.push(((port / 256) % 256) as u8);
    proof {
        assert(bytes@ =~= le_bytes_u32(pid) + le_bytes_u16(port));
    }
    let ghost head = bytes@;
    let mut i: usize = 0;
    while i < name.len()
        invariant
            i <= name@.len(),
            bytes@ == head + name_bytes(name@.take(i as int)),
        decreases name@.len() - i,
    {
        push_le_u32(&mut bytes, name[i] as u32);
        proof {
            let prefix = name@.take(i as int);
            let now = name@.take(i + 1 as int);
            assert(now.drop_last() =~= prefix);
            assert(now.last() == name@[i as int]);
            assert(name_bytes(name@.take(0int)) =~= Seq::<u8>::empty());
            assert(bytes@ =~= head + name_bytes(now));
        }
        i = i + 1;
    }
    proof {
        assert(name@.take(name@.len() as int) =~= name@);
        assert(bytes@ =~= record_bytes(pid, port, name@));
    }
    let h = fnv_hash(&bytes);
    let mut out: Vec<char> = Vec::new();
    append_hex(&mut out, h);
    string_from_chars(&out)
}

} // verus!

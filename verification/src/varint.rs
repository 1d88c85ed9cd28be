//! LEB128-style variable-length encoding of unsigned 32-bit integers:
//! seven data bits per byte, least-significant group first, and the high
//! bit of every byte but the last marking a continuation.

use vstd::prelude::*;

verus! {

/// The encoded bytes of `v`.
pub open spec fn varint(v: u32) -> Seq<u8>
    decreases v,
    via varint_termination
{
    if v < 128 {
        seq![v as u8]
    } else {
        seq![(v % 128 + 128) as u8] + varint((v / 128) as u32)
    }
}

#[via_fn]
proof fn varint_termination(v: u32) {
    if v >= 128 {
        vstd::arithmetic::div_mod::lemma_div_is_strictly_smaller(v as int, 128);
    }
}

/// Result of scanning one varint out of a byte stream.
pub enum VarintScan {
    /// A terminated group was found: `end` is the index just past it and
    /// `value` the decoded integer.
    Complete { end: int, value: nat },
    /// The stream ended before a terminating byte.
    Truncated,
    /// The encoding cannot denote a `u32`: a fifth byte that either
    /// continues or carries more than four data bits.
    Malformed,
}

/// Scan a varint at `pos`, allowing `depth` further bytes after the current
/// one.  With `depth == 4` this accepts exactly the encodings of `u32` values.
pub open spec fn scan_varint(s: Seq<u8>, pos: int, depth: nat) -> VarintScan
    decreases depth,
{
    if !(0 <= pos < s.len()) {
        VarintScan::Truncated
    } else if s[pos] < 128 {
        if depth == 0 && s[pos] > 15 {
            VarintScan::Malformed
        } else {
            VarintScan::Complete { end: pos + 1, value: s[pos] as nat }
        }
    } else if depth == 0 {
        VarintScan::Malformed
    } else {
        match scan_varint(s, pos + 1, (depth - 1) as nat) {
            VarintScan::Complete { end, value } => VarintScan::Complete {
                end,
                value: (s[pos] - 128) as nat + 128 * value,
            },
            other => other,
        }
    }
}

/// Scan a varint denoting a `u32` at `pos`.
pub open spec fn scan_u32(s: Seq<u8>, pos: int) -> VarintScan {
    scan_varint(s, pos, 4)
}

/// Largest value (plus one) that a scan with the given depth can produce.
pub open spec fn scan_bound(depth: nat) -> nat
    decreases depth,
{
    if depth == 0 {
        16
    } else {
        128 * scan_bound((depth - 1) as nat)
    }
}

proof fn lemma_scan_bound_at_least(depth: nat)
    ensures
        scan_bound(depth) >= 16,
    decreases depth,
{
    if depth > 0 {
        lemma_scan_bound_at_least((depth - 1) as nat);
    }
}

/// A completed scan stays inside the stream, consumes at least one byte and
/// at most `depth + 1` bytes, and its value is bounded by `scan_bound`.
pub proof fn lemma_scan_bounds(s: Seq<u8>, pos: int, depth: nat)
    requires
        scan_varint(s, pos, depth) is Complete,
    ensures
        pos + 1 <= scan_varint(s, pos, depth)->end <= s.len(),
        scan_varint(s, pos, depth)->end <= pos + depth + 1,
        scan_varint(s, pos, depth)->value < scan_bound(depth),
    decreases depth,
{
    if depth > 0 {
        lemma_scan_bound_at_least((depth - 1) as nat);
        if 0 <= pos < s.len() && s[pos] >= 128 {
            lemma_scan_bounds(s, pos + 1, (depth - 1) as nat);
        }
    }
}

/// A scan with depth at most four yields a value below `2^32`.
pub proof fn lemma_scan_u32_bounds(s: Seq<u8>, pos: int)
    requires
        scan_u32(s, pos) is Complete,
    ensures
        pos + 1 <= scan_u32(s, pos)->end <= s.len(),
        scan_u32(s, pos)->end <= pos + 5,
        scan_u32(s, pos)->value < 0x1_0000_0000,
{
    lemma_scan_bounds(s, pos, 4);
    assert(scan_bound(4) == 0x1_0000_0000) by {
        reveal_with_fuel(scan_bound, 5);
    }
}

/// The encoding of `v` takes between one and five bytes, with the exact
/// count fixed by which seven-bit range `v` falls in.
pub proof fn lemma_varint_len(v: u32)
    ensures
        1 <= varint(v).len() <= 5,
        varint(v).len() == 1 <==> v < 0x80,
        varint(v).len() == 2 <==> 0x80 <= v < 0x4000,
        varint(v).len() == 3 <==> 0x4000 <= v < 0x20_0000,
        varint(v).len() == 4 <==> 0x20_0000 <= v < 0x1000_0000,
        varint(v).len() == 5 <==> 0x1000_0000 <= v,
    decreases v,
{
    if v >= 128 {
        vstd::arithmetic::div_mod::lemma_div_is_strictly_smaller(v as int, 128);
        lemma_varint_len((v / 128) as u32);
    }
}

/// Scanning a stream that carries the encoding of `v` at `pos` completes
/// there with value `v`, provided `v` is small enough for the depth left.
proof fn lemma_scan_of_varint_rec(s: Seq<u8>, pos: int, v: u32, depth: nat)
    requires
        v < scan_bound(depth),
        0 <= pos,
        pos + varint(v).len() <= s.len(),
        s.subrange(pos, pos + varint(v).len()) == varint(v),
    ensures
        scan_varint(s, pos, depth) == (VarintScan::Complete {
            end: pos + varint(v).len(),
            value: v as nat,
        }),
    decreases v,
{
    assert(s[pos] == varint(v)[0]);
    if v < 128 {
        if depth == 0 {
            assert(scan_bound(0) == 16);
        }
    } else {
        vstd::arithmetic::div_mod::lemma_div_is_strictly_smaller(v as int, 128);
        let w = (v / 128) as u32;
        assert(depth > 0) by {
            if depth == 0 {
                assert(scan_bound(0) == 16);
            }
        }
        assert(w < scan_bound((depth - 1) as nat)) by {
            assert(scan_bound(depth) == 128 * scan_bound((depth - 1) as nat));
        }
        assert(s.subrange(pos + 1, pos + 1 + varint(w).len()) == varint(w)) by {
            assert(varint(v) == seq![(v % 128 + 128) as u8] + varint(w));
            assert forall|i: int| 0 <= i < varint(w).len() implies s.subrange(
                pos + 1,
                pos + 1 + varint(w).len(),
            )[i] == varint(w)[i] by {
                assert(s[pos + 1 + i] == s.subrange(pos, pos + varint(v).len())[1 + i]);
            }
            assert(s.subrange(pos + 1, pos + 1 + varint(w).len()) =~= varint(w));
        }
        lemma_scan_of_varint_rec(s, pos + 1, w, (depth - 1) as nat);
        assert(s[pos] == (v % 128 + 128) as u8);
        assert((s[pos] - 128) as nat + 128 * (w as nat) == v as nat);
    }
}

/// Round trip: a stream that carries the encoding of `v` at `pos` scans back
/// to exactly `v`, consuming exactly the encoded bytes.
pub proof fn lemma_scan_of_varint(s: Seq<u8>, pos: int, v: u32)
    requires
        0 <= pos,
        pos + varint(v).len() <= s.len(),
        s.subrange(pos, pos + varint(v).len()) == varint(v),
    ensures
        scan_u32(s, pos) == (VarintScan::Complete {
            end: pos + varint(v).len(),
            value: v as nat,
        }),
{
    assert(scan_bound(4) == 0x1_0000_0000) by {
        reveal_with_fuel(scan_bound, 5);
    }
    lemma_scan_of_varint_rec(s, pos, v, 4);
}

/// Round trip on the encoding alone: decoding the bytes of `v` gives `v`,
/// and the byte count follows `lemma_varint_len`.
pub proof fn lemma_varint_round_trip(v: u32)
    ensures
        scan_u32(varint(v), 0) == (VarintScan::Complete {
            end: varint(v).len() as int,
            value: v as nat,
        }),
        1 <= varint(v).len() <= 5,
{
    lemma_varint_len(v);
    assert(varint(v).subrange(0, varint(v).len() as int) =~= varint(v));
    lemma_scan_of_varint(varint(v), 0, v);
}

/// Write the encoding of `value` into `buffer` starting at `count`; the
/// bytes there must already exist.  Returns the index just past the
/// encoding; nothing outside the written range changes.
pub fn encode_u32(value: u32, buffer: &mut Vec<u8>, count: usize) -> (r: usize)
    requires
        count + varint(value).len() <= old(buffer)@.len(),
    ensures
        r == count + varint(value).len(),
        final(buffer)@.len() == old(buffer)@.len(),
        final(buffer)@.subrange(count as int, r as int) == varint(value),
        forall|i: int| 0 <= i < count ==> final(buffer)@[i] == old(buffer)@[i],
        forall|i: int| r <= i < final(buffer)@.len() ==> final(buffer)@[i] == old(buffer)@[i],
{
    let ghost full = varint(value);
    let buffer_len = buffer.len();
    let mut v = value;
    let mut c = count;
    proof {
        lemma_varint_len(value);
        assert(buffer@.subrange(count as int, c as int) + varint(v) =~= full);
    }
    while v >= 128
        invariant
            count <= c,
            c + varint(v).len() == count + full.len() <= buffer@.len(),
            buffer@.len() == old(buffer)@.len() == buffer_len,
            buffer@.subrange(count as int, c as int) + varint(v) == full,
            forall|i: int| 0 <= i < count ==> buffer@[i] == old(buffer)@[i],
            forall|i: int|
                count + full.len() <= i < buffer@.len() ==> buffer@[i] == old(buffer)@[i],
        decreases v,
    {
        proof {
            lemma_varint_len(v);
            vstd::arithmetic::div_mod::lemma_div_is_strictly_smaller(v as int, 128);
            lemma_varint_len((v / 128) as u32);
        }
        let ghost pre = buffer@;
        let b: u8 = (v % 128 + 128) as u8;
        buffer[c] = b;
        proof {
            assert(buffer@.subrange(count as int, c as int) =~= pre.subrange(
                count as int,
                c as int,
            ));
            assert(buffer@.subrange(count as int, c + 1) =~= buffer@.subrange(
                count as int,
                c as int,
            ) + seq![b]);
            assert(varint(v) == seq![b] + varint((v / 128) as u32));
            assert(buffer@.subrange(count as int, c + 1) + varint((v / 128) as u32) =~= full);
        }
        v = v / 128;
        c = c + 1;
    }
    let ghost pre = buffer@;
    buffer[c] = v as u8;
    proof {
        assert(varint(v) =~= seq![v as u8]);
        assert(buffer@.subrange(count as int, c as int) =~= pre.subrange(count as int, c as int));
        assert(buffer@.subrange(count as int, c + 1) =~= buffer@.subrange(count as int, c as int)
            + seq![v as u8]);
    }
    c + 1
}

/// Outcome of reading one varint from a byte buffer.
#[derive(Debug, Clone, Copy, PartialEq, Eq, Structural)]
pub enum VarintOutcome {
    /// `next` is the index just past the encoding, `value` the integer.
    Value { next: usize, value: u32 },
    /// The buffer ended before a terminating byte; more input is needed.
    Truncated,
    /// The bytes cannot denote a `u32`.
    Malformed,
}

fn read_varint_rec(buffer: &[u8], pos: usize, depth: u32) -> (r: VarintOutcome)
    requires
        depth <= 4,
    ensures
        match scan_varint(buffer@, pos as int, depth as nat) {
            VarintScan::Complete { end, value } => r == (VarintOutcome::Value {
                next: end as usize,
                value: value as u32,
            }),
            VarintScan::Truncated => r == VarintOutcome::Truncated,
            VarintScan::Malformed => r == VarintOutcome::Malformed,
        },
    decreases depth,
{
    if pos >= buffer.len() {
        return VarintOutcome::Truncated;
    }
    let b = buffer[pos];
    if b < 128 {
        if depth == 0 && b > 15 {
            VarintOutcome::Malformed
        } else {
            proof {
                lemma_scan_bounds(buffer@, pos as int, depth as nat);
            }
            VarintOutcome::Value { next: pos + 1, value: b as u32 }
        }
    } else if depth == 0 {
        VarintOutcome::Malformed
    } else {
        match read_varint_rec(buffer, pos + 1, depth - 1) {
            VarintOutcome::Value { next, value } => {
                proof {
                    lemma_scan_bounds(buffer@, pos as int + 1, (depth - 1) as nat);
                    assert(scan_bound((depth - 1) as nat) <= scan_bound(3)) by {
                        reveal_with_fuel(scan_bound, 5);
                        if depth == 1 {
                        } else if depth == 2 {
                        } else if depth == 3 {
                        }
                    }
                    assert(scan_bound(3) == 0x200_0000) by {
                        reveal_with_fuel(scan_bound, 5);
                    }
                }
                VarintOutcome::Value { next, value: (b - 128) as u32 + 128 * value }
            },
            other => other,
        }
    }
}

/// Read one varint `u32` from `buffer` at `pos`, reporting a truncated or
/// malformed encoding instead of a value where the bytes do not form one.
pub fn read_varint(buffer: &[u8], pos: usize) -> (r: VarintOutcome)
    ensures
        match scan_u32(buffer@, pos as int) {
            VarintScan::Complete { end, value } => r == (VarintOutcome::Value {
                next: end as usize,
                value: value as u32,
            }),
            VarintScan::Truncated => r == VarintOutcome::Truncated,
            VarintScan::Malformed => r == VarintOutcome::Malformed,
        },
{
    read_varint_rec(buffer, pos, 4)
}

/// Decode one varint field, returning the index just past it and the value.
/// The caller vouches that a complete `u32` encoding stands at `pos`.
pub fn decode_u32(buffer: &[u8], pos: usize) -> (r: (usize, u32))
    requires
        scan_u32(buffer@, pos as int) is Complete,
    ensures
        r.0 == scan_u32(buffer@, pos as int)->end,
        r.1 == scan_u32(buffer@, pos as int)->value,
{
    let buffer_len = buffer.len();
    match read_varint(buffer, pos) {
        VarintOutcome::Value { next, value } => {
            proof {
                lemma_scan_u32_bounds(buffer@, pos as int);
                assert(buffer@.len() == buffer_len);
            }
            (next, value)
        },
        _ => {
            proof {
                assert(false);
            }
            (0, 0)
        },
    }
}

} // verus!

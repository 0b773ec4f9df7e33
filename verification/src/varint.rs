//! The protocol's variable-length unsigned integer encoding: 7 payload bits
//! per byte, least-significant group first, a continuation bit on every byte
//! but the last, and at most 5 bytes (32 bits of logical value).

use vstd::prelude::*;

verus! {

/// Outcome of scanning the front of a byte window for one variable-length
/// integer: more bytes are needed, the bytes can never begin a valid
/// encoding, or a value together with the number of bytes it occupied.
#[derive(Clone, Copy, Debug, PartialEq, Eq, Structural)]
pub enum VarScan {
    More,
    Bad,
    Val(u32, usize),
}

/// Largest value whose encoding still has room for one more 7-bit group
/// within the 5-byte limit: `u32::MAX / 128`.
pub open spec fn varint_tail_max() -> u32 {
    0x01ff_ffffu32
}

/// The encoding of `n`: its low 7 bits (with the continuation bit set when
/// more follow), then the encoding of the remaining bits.
pub open spec fn varint_bytes(n: u32) -> Seq<u8>
    decreases n,
{
    if n < 128 {
        seq![n as u8]
    } else {
        seq![(n % 128 + 128) as u8] + varint_bytes(n / 128)
    }
}

/// The scan with room for `limit` more bytes. Running out of room means
/// no valid encoding can begin with the bytes seen: a sixth byte, or a
/// value overflowing 32 bits, is `Bad`; an exhausted window is `More`.
pub open spec fn varint_scan_limited(s: Seq<u8>, limit: nat) -> VarScan
    decreases limit,
{
    if limit == 0 {
        VarScan::Bad
    } else if s.len() == 0 {
        VarScan::More
    } else if s[0] < 128 {
        VarScan::Val(s[0] as u32, 1)
    } else {
        match varint_scan_limited(s.subrange(1, s.len() as int), (limit - 1) as nat) {
            VarScan::More => VarScan::More,
            VarScan::Bad => VarScan::Bad,
            VarScan::Val(v, k) => {
                if v > varint_tail_max() {
                    VarScan::Bad
                } else {
                    VarScan::Val((128 * v + (s[0] - 128)) as u32, (k + 1) as usize)
                }
            },
        }
    }
}

/// Reads one variable-length integer from the front of `s`, 5 bytes at
/// most.
pub open spec fn varint_scan(s: Seq<u8>) -> VarScan {
    varint_scan_limited(s, 5)
}

/// An encoding takes 1 to 5 bytes, with the count stepping up at each
/// 7-bit boundary of the value.
pub proof fn lemma_varint_bytes_len(n: u32)
    ensures
        1 <= varint_bytes(n).len() <= 5,
        n < 128 ==> varint_bytes(n).len() == 1,
        n < 0x4000 ==> varint_bytes(n).len() <= 2,
        n < 0x20_0000 ==> varint_bytes(n).len() <= 3,
        n < 0x1000_0000 ==> varint_bytes(n).len() <= 4,
    decreases n,
{
    if n >= 128 {
        lemma_varint_bytes_len(n / 128);
    }
}

/// A scanned value occupies at least one byte, no more than the scan had
/// room for, and none beyond the window.
pub proof fn lemma_varint_scan_limited_val(s: Seq<u8>, limit: nat)
    requires
        limit <= 5,
    ensures
        varint_scan_limited(s, limit) matches VarScan::Val(v, k) ==> 1 <= k <= limit && k
            <= s.len(),
    decreases limit,
{
    if limit > 0 && s.len() > 0 && s[0] >= 128 {
        lemma_varint_scan_limited_val(s.subrange(1, s.len() as int), (limit - 1) as nat);
    }
}

/// A scanned value occupies between 1 and 5 bytes, all of them within
/// the window.
pub proof fn lemma_varint_scan_val(s: Seq<u8>)
    ensures
        varint_scan(s) matches VarScan::Val(v, k) ==> 1 <= k <= 5 && k <= s.len(),
{
    lemma_varint_scan_limited_val(s, 5);
}

/// Scanning with room for the whole encoding of `n` yields exactly `n`
/// and consumes exactly the encoding, whatever follows it.
proof fn lemma_varint_scan_limited_of_bytes(n: u32, rest: Seq<u8>, limit: nat)
    requires
        varint_bytes(n).len() <= limit,
    ensures
        varint_scan_limited(varint_bytes(n) + rest, limit) == VarScan::Val(
            n,
            varint_bytes(n).len() as usize,
        ),
    decreases n,
{
    lemma_varint_bytes_len(n);
    let s = varint_bytes(n) + rest;
    if n < 128 {
        assert(s[0] == n as u8);
        assert(s[0] < 128);
    } else {
        let b: u8 = (n % 128 + 128) as u8;
        assert(s[0] == b);
        assert(b >= 128);
        lemma_varint_bytes_len(n / 128);
        lemma_varint_scan_limited_of_bytes(n / 128, rest, (limit - 1) as nat);
        assert(s.subrange(1, s.len() as int) =~= varint_bytes(n / 128) + rest);
        let k = varint_bytes(n / 128).len();
        assert(varint_scan_limited(s.subrange(1, s.len() as int), (limit - 1) as nat)
            == VarScan::Val(n / 128, k as usize));
        assert(n / 128 <= varint_tail_max());
        assert(128 * (n / 128) + (b - 128) == n);
    }
}

/// Scanning a window that starts with the encoding of `n` yields exactly
/// `n` and consumes exactly the encoding, whatever follows it.
pub proof fn lemma_varint_scan_of_bytes(n: u32, rest: Seq<u8>)
    ensures
        varint_scan(varint_bytes(n) + rest) == VarScan::Val(
            n,
            varint_bytes(n).len() as usize,
        ),
{
    lemma_varint_bytes_len(n);
    lemma_varint_scan_limited_of_bytes(n, rest, 5);
}

/// Every strict prefix of an encoding leaves a roomy-enough scan waiting
/// for more bytes.
proof fn lemma_varint_scan_limited_prefix(n: u32, i: int, limit: nat)
    requires
        0 <= i < varint_bytes(n).len(),
        i < limit,
    ensures
        varint_scan_limited(varint_bytes(n).take(i), limit) == VarScan::More,
    decreases n,
{
    if i == 0 {
        assert(varint_bytes(n).take(0).len() == 0);
    } else {
        assert(n >= 128) by {
            lemma_varint_bytes_len(n);
        }
        let p = varint_bytes(n).take(i);
        assert(p[0] == (n % 128 + 128) as u8);
        assert(p[0] >= 128);
        lemma_varint_scan_limited_prefix(n / 128, i - 1, (limit - 1) as nat);
        assert(p.subrange(1, p.len() as int) =~= varint_bytes(n / 128).take(i - 1));
    }
}

/// Every strict prefix of an encoding leaves the scanner waiting for more
/// bytes: no frame is mistaken for complete while its length prefix is cut.
pub proof fn lemma_varint_scan_prefix(n: u32, i: int)
    requires
        0 <= i < varint_bytes(n).len(),
    ensures
        varint_scan(varint_bytes(n).take(i)) == VarScan::More,
{
    lemma_varint_bytes_len(n);
    lemma_varint_scan_limited_prefix(n, i, 5);
}

/// Appends the encoding of `n` to `out`.
pub fn write_varint(out: &mut Vec<u8>, n: u32)
    ensures
        final(out)@ == old(out)@ + varint_bytes(n),
    decreases n,
{
    if n < 128 {
        out.push(n as u8);
        assert(final(out)@ =~= old(out)@ + varint_bytes(n));
    } else {
        out.push((n % 128 + 128) as u8);
        write_varint(out, n / 128);
        assert(final(out)@ =~= old(out)@ + varint_bytes(n));
    }
}

/// The bounded scan at offset `pos` of `buf`, with room for `limit` more
/// bytes; the recursion is as shallow as the room given.
fn scan_varint_limited(buf: &Vec<u8>, pos: usize, limit: usize) -> (r: VarScan)
    requires
        pos <= buf.len(),
        limit <= 5,
    ensures
        r == varint_scan_limited(buf@.subrange(pos as int, buf@.len() as int), limit as nat),
    decreases limit,
{
    let ghost s = buf@.subrange(pos as int, buf@.len() as int);
    if limit == 0 {
        VarScan::Bad
    } else if pos == buf.len() {
        assert(s.len() == 0);
        VarScan::More
    } else {
        let b = buf[pos];
        assert(s[0] == b);
        if b < 128 {
            VarScan::Val(b as u32, 1)
        } else {
            let inner = scan_varint_limited(buf, pos + 1, limit - 1);
            assert(buf@.subrange(pos as int + 1, buf@.len() as int) =~= s.subrange(
                1,
                s.len() as int,
            ));
            match inner {
                VarScan::More => VarScan::More,
                VarScan::Bad => VarScan::Bad,
                VarScan::Val(v, k) => {
                    if v > 0x01ff_ffffu32 {
                        VarScan::Bad
                    } else {
                        proof {
                            lemma_varint_scan_limited_val(
                                s.subrange(1, s.len() as int),
                                (limit - 1) as nat,
                            );
                        }
                        VarScan::Val(128 * v + (b as u32 - 128), k + 1)
                    }
                },
            }
        }
    }
}

/// Scans one variable-length integer at offset `pos` of `buf`, reporting
/// exactly what the specification scanner says of the remaining window.
pub fn scan_varint(buf: &Vec<u8>, pos: usize) -> (r: VarScan)
    requires
        pos <= buf.len(),
    ensures
        r == varint_scan(buf@.subrange(pos as int, buf@.len() as int)),
{
    scan_varint_limited(buf, pos, 5)
}

} // verus!

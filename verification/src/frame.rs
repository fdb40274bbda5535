//! Framing of the byte stream: every message is preceded by its length,
//! written as an unsigned LEB128 varint (seven bits per byte, least
//! significant group first, the high bit set on every byte but the last, at
//! most ten bytes).

use vstd::prelude::*;

verus! {

/// Where the next message of a buffer stands.
#[derive(Debug, Clone, Copy, PartialEq, Eq, Structural)]
pub enum FrameStatus {
    /// More bytes are needed: the length prefix or the message is cut off.
    Incomplete,
    /// The length prefix is invalid: no last byte among the first ten, or
    /// a length that does not fit in `usize`.
    Malformed,
    /// A whole message is there: `header` prefix bytes, then `len`
    /// message bytes.
    Ready { header: usize, len: usize },
}

/// The index of the last byte of the varint that starts the buffer, looking
/// from index `i` on and only among the first ten bytes.
pub open spec fn prefix_end(buf: Seq<u8>, i: int) -> Option<int>
    decreases 10 - i,
{
    if i < 0 || i >= buf.len() || i >= 10 {
        None
    } else if buf[i] < 128 {
        Some(i)
    } else {
        prefix_end(buf, i + 1)
    }
}

/// The value of the varint bytes `buf[i..=end]`.
pub open spec fn varint_value(buf: Seq<u8>, i: int, end: int) -> nat
    decreases end - i,
{
    if i >= end {
        buf[end] as nat
    } else {
        (buf[i] % 128) as nat + 128 * varint_value(buf, i + 1, end)
    }
}

/// Where the next message of `buf` stands.
pub open spec fn frame_status(buf: Seq<u8>) -> FrameStatus {
    match prefix_end(buf, 0) {
        None => if buf.len() < 10 {
            FrameStatus::Incomplete
        } else {
            FrameStatus::Malformed
        },
        Some(t) => {
            let v = varint_value(buf, 0, t);
            if v > usize::MAX {
                FrameStatus::Malformed
            } else if t + 1 + v <= buf.len() {
                FrameStatus::Ready { header: (t + 1) as usize, len: v as usize }
            } else {
                FrameStatus::Incomplete
            }
        },
    }
}

/// `128` to the power `k`.
pub open spec fn pow128(k: nat) -> nat
    decreases k,
{
    if k == 0 {
        1
    } else {
        128 * pow128((k - 1) as nat)
    }
}

proof fn lemma_pow128_mono(a: nat, b: nat)
    requires
        a <= b,
    ensures
        pow128(a) <= pow128(b),
    decreases b - a,
{
    if a < b {
        lemma_pow128_mono(a, (b - 1) as nat);
    }
}

/// Finds where the next message of `buf` stands.
pub fn frame_bounds(buf: &[u8]) -> (r: FrameStatus)
    ensures
        r == frame_status(buf@),
{
    let n = buf.len();
    let mut t: usize = 0;
    while t < n && t < 10 && buf[t] >= 128
        invariant
            t <= n,
            t <= 10,
            n == buf@.len(),
            prefix_end(buf@, 0) == prefix_end(buf@, t as int),
        decreases 10 - t,
    {
        t = t + 1;
    }
    if t == n || t == 10 {
        return if n < 10 {
            FrameStatus::Incomplete
        } else {
            FrameStatus::Malformed
        };
    }
    assert(prefix_end(buf@, t as int) == Some(t as int));
    let mut v: u128 = buf[t] as u128;
    let mut i: usize = t;
    proof {
        reveal_with_fuel(pow128, 2);
    }
    while i > 0
        invariant
            i <= t,
            t < 10,
            t < n,
            n == buf@.len(),
            v == varint_value(buf@, i as int, t as int),
            v < pow128((t - i + 1) as nat),
        decreases i,
    {
        proof {
            lemma_pow128_mono((t - i + 1) as nat, 10);
            assert(pow128(10) == 0x40_0000_0000_0000_0000) by {
                reveal_with_fuel(pow128, 11);
            }
        }
        i = i - 1;
        v = v * 128 + (buf[i] % 128) as u128;
        assert(pow128((t - i + 1) as nat) == 128 * pow128((t - i) as nat));
    }
    if v > usize::MAX as u128 {
        FrameStatus::Malformed
    } else {
        let len = v as usize;
        if len <= n - (t + 1) {
            FrameStatus::Ready { header: t + 1, len }
        } else {
            FrameStatus::Incomplete
        }
    }
}


/// The unsigned LEB128 encoding of `n`: the low seven bits of `n` with the
/// high bit set if more bytes follow, then the encoding of `n / 128`.
pub open spec fn leb128(n: nat) -> Seq<u8>
    decreases n,
{
    if n < 128 {
        seq![n as u8]
    } else {
        seq![(n % 128 + 128) as u8] + leb128(n / 128)
    }
}

proof fn lemma_leb128_len(n: nat, k: nat)
    requires
        k >= 1,
        n < pow128(k),
    ensures
        1 <= leb128(n).len() <= k,
    decreases n,
{
    if n >= 128 {
        assert(k >= 2) by {
            if k == 1 {
                assert(pow128(1) == 128 * pow128(0));
            }
        }
        assert(pow128(k) == 128 * pow128((k - 1) as nat));
        assert(n / 128 < pow128((k - 1) as nat));
        lemma_leb128_len(n / 128, (k - 1) as nat);
    }
}

/// The encoding of `n`, placed at index `i` of `buf` within the first ten
/// bytes, is read back as ending where it ends and as the value `n`.
proof fn lemma_leb128_read_back(n: nat, buf: Seq<u8>, i: int)
    requires
        0 <= i,
        i + leb128(n).len() <= 10,
        i + leb128(n).len() <= buf.len(),
        buf.subrange(i, i + leb128(n).len()) == leb128(n),
    ensures
        prefix_end(buf, i) == Some(i + leb128(n).len() - 1),
        varint_value(buf, i, i + leb128(n).len() - 1) == n,
    decreases n,
{
    let e = leb128(n);
    assert(buf[i] == e[0]) by {
        assert(buf.subrange(i, i + e.len())[0] == buf[i]);
    }
    if n < 128 {
        assert(e.len() == 1);
        assert(buf[i] < 128);
    } else {
        let rest = leb128(n / 128);
        assert(e == seq![(n % 128 + 128) as u8] + rest);
        assert(buf[i] == (n % 128 + 128) as u8);
        assert(buf[i] >= 128);
        assert(buf.subrange(i + 1, i + 1 + rest.len()) =~= rest) by {
            assert forall|j: int| 0 <= j < rest.len() implies buf.subrange(i + 1, i + 1 + rest.len())[j] == rest[j] by {
                assert(buf.subrange(i, i + e.len())[j + 1] == e[j + 1]);
            }
        }
        lemma_leb128_read_back(n / 128, buf, i + 1);
        assert(rest.len() >= 1) by {
            if n / 128 < 128 {
            } else {
            }
        }
        assert(buf[i] % 128 == n % 128);
        assert(varint_value(buf, i, i + e.len() - 1) == (buf[i] % 128) as nat + 128 * varint_value(buf, i + 1, i + e.len() - 1));
        assert(n == n % 128 + 128 * (n / 128)) by (nonlinear_arith);
    }
}

/// Law: a buffer that starts with the LEB128 encoding of a length `n` that
/// fits in `usize`, followed by the message bytes, holds a whole message
/// of exactly `n` bytes after exactly the encoding once `n` bytes follow,
/// and needs more bytes before that.
pub proof fn lemma_encoded_length_frames(n: nat, payload: Seq<u8>)
    requires
        n <= usize::MAX,
    ensures
        payload.len() >= n ==> frame_status(leb128(n) + payload) == (FrameStatus::Ready {
            header: leb128(n).len() as usize,
            len: n as usize,
        }),
        payload.len() < n ==> frame_status(leb128(n) + payload) == FrameStatus::Incomplete,
{
    assert(pow128(10) == 0x40_0000_0000_0000_0000) by {
        reveal_with_fuel(pow128, 11);
    }
    lemma_leb128_len(n, 10);
    let e = leb128(n);
    let buf = e + payload;
    assert(buf.subrange(0, e.len() as int) =~= e);
    lemma_leb128_read_back(n, buf, 0);
}

} // verus!

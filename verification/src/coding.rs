//! Variable-length integers and byte-string reading (RFC 9000 Section 16).
use vstd::prelude::*;

verus! {

/// Values below this bound fit a variable-length integer.
pub const VARINT_LIMIT: u64 = 0x4000_0000_0000_0000;

/// How many bytes the shortest encoding of `v` takes.
pub open spec fn varint_len(v: u64) -> nat {
    if v < 0x40 {
        1
    } else if v < 0x4000 {
        2
    } else if v < 0x4000_0000 {
        4
    } else {
        8
    }
}

/// The shortest encoding of `v`: the value in network byte order, the base-2
/// logarithm of the length in the two top bits of the first byte.
#[verifier::opaque]
pub open spec fn varint_bytes(v: u64) -> Seq<u8> {
    if v < 0x40 {
        seq![v as u8]
    } else if v < 0x4000 {
        seq![(0x40 + v / 0x100) as u8, (v % 0x100) as u8]
    } else if v < 0x4000_0000 {
        seq![
            (0x80 + v / 0x100_0000) as u8,
            ((v / 0x1_0000) % 0x100) as u8,
            ((v / 0x100) % 0x100) as u8,
            (v % 0x100) as u8,
        ]
    } else {
        seq![
            (0xc0 + v / 0x100_0000_0000_0000) as u8,
            ((v / 0x1_0000_0000_0000) % 0x100) as u8,
            ((v / 0x100_0000_0000) % 0x100) as u8,
            ((v / 0x1_0000_0000) % 0x100) as u8,
            ((v / 0x100_0000) % 0x100) as u8,
            ((v / 0x1_0000) % 0x100) as u8,
            ((v / 0x100) % 0x100) as u8,
            (v % 0x100) as u8,
        ]
    }
}

/// The integer at the front of `s` and the number of bytes it takes, or `None`
/// where `s` ends before the integer does.
#[verifier::opaque]
pub open spec fn varint_at(s: Seq<u8>) -> Option<(u64, nat)> {
    if s.len() < 1 {
        None
    } else if s[0] < 0x40 {
        Some((s[0] as u64, 1))
    } else if s[0] < 0x80 {
        if s.len() < 2 {
            None
        } else {
            Some((((s[0] - 0x40) * 0x100 + s[1]) as u64, 2))
        }
    } else if s[0] < 0xc0 {
        if s.len() < 4 {
            None
        } else {
            Some(
                (
                    ((s[0] - 0x80) * 0x100_0000 + s[1] * 0x1_0000 + s[2] * 0x100 + s[3]) as u64,
                    4,
                ),
            )
        }
    } else if s.len() < 8 {
        None
    } else {
        Some(
            (
                ((s[0] - 0xc0) * 0x100_0000_0000_0000 + s[1] * 0x1_0000_0000_0000 + s[2]
                    * 0x100_0000_0000 + s[3] * 0x1_0000_0000 + s[4] * 0x100_0000 + s[5] * 0x1_0000
                    + s[6] * 0x100 + s[7]) as u64,
                8,
            ),
        )
    }
}

/// A number below 2^62 is the sum of its eight base-256 digits.
proof fn lemma_eight_digits(v: u64)
    requires
        v < VARINT_LIMIT,
    ensures
        v == (v / 0x100_0000_0000_0000) * 0x100_0000_0000_0000 + ((v / 0x1_0000_0000_0000) % 0x100)
            * 0x1_0000_0000_0000 + ((v / 0x100_0000_0000) % 0x100) * 0x100_0000_0000 + ((v
            / 0x1_0000_0000) % 0x100) * 0x1_0000_0000 + ((v / 0x100_0000) % 0x100) * 0x100_0000 + ((
        v / 0x1_0000) % 0x100) * 0x1_0000 + ((v / 0x100) % 0x100) * 0x100 + v % 0x100,
        v / 0x100_0000_0000_0000 < 0x40,
{
    let q1 = v / 0x100;
    let q2 = v / 0x1_0000;
    let q3 = v / 0x100_0000;
    let q4 = v / 0x1_0000_0000;
    let q5 = v / 0x100_0000_0000;
    let q6 = v / 0x1_0000_0000_0000;
    let q7 = v / 0x100_0000_0000_0000;
    assert(q2 == q1 / 0x100);
    assert(q3 == q2 / 0x100);
    assert(q4 == q3 / 0x100);
    assert(q5 == q4 / 0x100);
    assert(q6 == q5 / 0x100);
    assert(q7 == q6 / 0x100);
    assert(v == q1 * 0x100 + v % 0x100);
    assert(q1 == q2 * 0x100 + q1 % 0x100);
    assert(q2 == q3 * 0x100 + q2 % 0x100);
    assert(q3 == q4 * 0x100 + q3 % 0x100);
    assert(q4 == q5 * 0x100 + q4 % 0x100);
    assert(q5 == q6 * 0x100 + q5 % 0x100);
    assert(q6 == q7 * 0x100 + q6 % 0x100);
}

/// Reading back what was written gives the value and the length that were
/// written, whatever follows.
pub proof fn lemma_varint_round_trip(v: u64, rest: Seq<u8>)
    requires
        v < VARINT_LIMIT,
    ensures
        varint_at(varint_bytes(v) + rest) == Some((v, varint_len(v))),
        varint_bytes(v).len() == varint_len(v),
{
    reveal(varint_bytes);
    reveal(varint_at);
    let s = varint_bytes(v) + rest;
    if v < 0x40 {
        assert(s[0] == v as u8);
    } else if v < 0x4000 {
        assert(s[0] == (0x40 + v / 0x100) as u8);
        assert(s[1] == (v % 0x100) as u8);
    } else if v < 0x4000_0000 {
        assert(s[0] == (0x80 + v / 0x100_0000) as u8);
        assert(s[1] == ((v / 0x1_0000) % 0x100) as u8);
        assert(s[2] == ((v / 0x100) % 0x100) as u8);
        assert(s[3] == (v % 0x100) as u8);
    } else {
        lemma_eight_digits(v);
        assert(s[0] == (0xc0 + v / 0x100_0000_0000_0000) as u8);
        assert(s[1] == ((v / 0x1_0000_0000_0000) % 0x100) as u8);
        assert(s[2] == ((v / 0x100_0000_0000) % 0x100) as u8);
        assert(s[3] == ((v / 0x1_0000_0000) % 0x100) as u8);
        assert(s[4] == ((v / 0x100_0000) % 0x100) as u8);
        assert(s[5] == ((v / 0x1_0000) % 0x100) as u8);
        assert(s[6] == ((v / 0x100) % 0x100) as u8);
        assert(s[7] == (v % 0x100) as u8);
    }
}

/// What is read is below the bound, and lies within the bytes there are.
pub proof fn lemma_varint_at_bounds(s: Seq<u8>)
    ensures
        varint_at(s) matches Some((v, n)) ==> v < VARINT_LIMIT && 1 <= n <= s.len(),
{
    reveal(varint_at);
}

/// What is read does not depend on what follows it.
pub proof fn lemma_varint_at_concat(a: Seq<u8>, b: Seq<u8>)
    requires
        varint_at(a) is Some,
    ensures
        varint_at(a + b) == varint_at(a),
{
    reveal(varint_at);
}

/// Splits the variable-length integer at the front of `s` off.
pub open spec fn take_varint(s: Seq<u8>) -> Option<(u64, Seq<u8>)> {
    match varint_at(s) {
        Some((v, n)) => Some((v, s.skip(n as int))),
        None => None,
    }
}

/// Splits the first `n` bytes of `s` off.
pub open spec fn take_bytes(s: Seq<u8>, n: u64) -> Option<(Seq<u8>, Seq<u8>)> {
    if n <= s.len() {
        Some((s.take(n as int), s.skip(n as int)))
    } else {
        None
    }
}

/// Splits the first byte of `s` off.
pub open spec fn take_u8(s: Seq<u8>) -> Option<(u8, Seq<u8>)> {
    if s.len() >= 1 {
        Some((s[0], s.skip(1)))
    } else {
        None
    }
}

/// What was written first is split off, and what was written after it is left.
pub proof fn lemma_take_varint(v: u64, rest: Seq<u8>)
    requires
        v < VARINT_LIMIT,
    ensures
        take_varint(varint_bytes(v) + rest) == Some((v, rest)),
{
    lemma_varint_round_trip(v, rest);
    assert((varint_bytes(v) + rest).skip(varint_len(v) as int) =~= rest);
}

/// What was written first is split off, and what was written after it is left.
pub proof fn lemma_take_bytes(b: Seq<u8>, rest: Seq<u8>)
    requires
        b.len() <= u64::MAX,
    ensures
        take_bytes(b + rest, b.len() as u64) == Some((b, rest)),
{
    assert((b + rest).take(b.len() as int) =~= b);
    assert((b + rest).skip(b.len() as int) =~= rest);
}

/// What is split off is below the bound, and less is left.
pub proof fn lemma_take_varint_bounds(s: Seq<u8>)
    ensures
        take_varint(s) matches Some((v, rest)) ==> v < VARINT_LIMIT && rest.len() < s.len(),
{
    lemma_varint_at_bounds(s);
}

/// How many bytes [`put_varint`] writes for `v`.
pub fn varint_size(v: u64) -> (n: usize)
    ensures
        n == varint_len(v),
{
    if v < 0x40 {
        1
    } else if v < 0x4000 {
        2
    } else if v < 0x4000_0000 {
        4
    } else {
        8
    }
}

/// Writes `v` at the end of `out`.
pub fn put_varint(out: &mut Vec<u8>, v: u64)
    requires
        v < VARINT_LIMIT,
    ensures
        final(out)@ == old(out)@ + varint_bytes(v),
{
    proof {
        reveal(varint_bytes);
    }
    if v < 0x40 {
        out.push(v as u8);
    } else if v < 0x4000 {
        out.push((0x40 + v / 0x100) as u8);
        out.push((v % 0x100) as u8);
    } else if v < 0x4000_0000 {
        out.push((0x80 + v / 0x100_0000) as u8);
        out.push(((v / 0x1_0000) % 0x100) as u8);
        out.push(((v / 0x100) % 0x100) as u8);
        out.push((v % 0x100) as u8);
    } else {
        out.push((0xc0 + v / 0x100_0000_0000_0000) as u8);
        out.push(((v / 0x1_0000_0000_0000) % 0x100) as u8);
        out.push(((v / 0x100_0000_0000) % 0x100) as u8);
        out.push(((v / 0x1_0000_0000) % 0x100) as u8);
        out.push(((v / 0x100_0000) % 0x100) as u8);
        out.push(((v / 0x1_0000) % 0x100) as u8);
        out.push(((v / 0x100) % 0x100) as u8);
        out.push((v % 0x100) as u8);
    }
    assert(out@ =~= old(out)@ + varint_bytes(v));
}

/// Writes `bytes` at the end of `out`.
pub fn put_bytes(out: &mut Vec<u8>, bytes: &[u8])
    ensures
        final(out)@ == old(out)@ + bytes@,
{
    out.extend_from_slice(bytes);
    assert(out@ =~= old(out)@ + bytes@);
}

/// The input ended before the value did.
#[derive(Clone, Copy, Debug, PartialEq, Eq, Structural)]
pub struct UnexpectedEnd;

/// A byte string that is read from the front.
#[derive(Debug)]
pub struct Buf<'a> {
    rest: &'a [u8],
}

impl<'a> View for Buf<'a> {
    type V = Seq<u8>;

    closed spec fn view(&self) -> Seq<u8> {
        self.rest@
    }
}

/// The four bytes at the front of `s` in network byte order.
pub open spec fn u32_at(s: Seq<u8>) -> u32
    recommends
        s.len() >= 4,
{
    (s[0] * 0x100_0000 + s[1] * 0x1_0000 + s[2] * 0x100 + s[3]) as u32
}

impl<'a> Buf<'a> {
    /// Starts reading at the front of `data`.
    pub fn new(data: &'a [u8]) -> (buf: Buf<'a>)
        ensures
            buf@ == data@,
    {
        Buf { rest: data }
    }

    /// What is left fits in memory.
    pub proof fn lemma_fits(self)
        ensures
            self@.len() <= usize::MAX,
    {
        assert(self.rest@.len() == self.rest.len());
    }

    /// Whether everything has been read.
    pub fn is_empty(&self) -> (empty: bool)
        ensures
            empty == (self@.len() == 0),
    {
        self.rest.len() == 0
    }

    /// How many bytes are left to read.
    pub fn remaining(&self) -> (n: usize)
        ensures
            n == self@.len(),
    {
        self.rest.len()
    }

    /// All that is left to read.
    pub fn rest(&self) -> (r: &'a [u8])
        ensures
            r@ == self@,
    {
        self.rest
    }

    /// Reads `n` bytes.
    pub fn get_bytes(&mut self, n: usize) -> (r: Result<&'a [u8], UnexpectedEnd>)
        ensures
            match r {
                Ok(bytes) => {
                    &&& n <= old(self)@.len()
                    &&& bytes@ == old(self)@.take(n as int)
                    &&& final(self)@ == old(self)@.skip(n as int)
                },
                Err(_) => n > old(self)@.len() && final(self)@ == old(self)@,
            },
    {
        if n > self.rest.len() {
            return Err(UnexpectedEnd);
        }
        let (front, back) = self.rest.split_at(n);
        self.rest = back;
        Ok(front)
    }

    /// Reads one byte.
    pub fn get_u8(&mut self) -> (r: Result<u8, UnexpectedEnd>)
        ensures
            match r {
                Ok(b) => {
                    &&& old(self)@.len() >= 1
                    &&& b == old(self)@[0]
                    &&& final(self)@ == old(self)@.skip(1)
                },
                Err(_) => old(self)@.len() == 0 && final(self)@ == old(self)@,
            },
    {
        match self.get_bytes(1) {
            Ok(b) => Ok(b[0]),
            Err(e) => Err(e),
        }
    }

    /// Reads one byte if there is one.
    pub fn next_u8(&mut self) -> (r: Option<u8>)
        ensures
            match take_u8(old(self)@) {
                Some((b, rest)) => r == Some(b) && final(self)@ == rest,
                None => r is None && final(self)@ == old(self)@,
            },
    {
        match self.get_u8() {
            Ok(b) => Some(b),
            Err(_) => None,
        }
    }

    /// Reads `n` bytes if there are as many.
    pub fn next_bytes(&mut self, n: u64) -> (r: Option<&'a [u8]>)
        ensures
            match take_bytes(old(self)@, n) {
                Some((b, rest)) => r matches Some(bytes) && bytes@ == b && final(self)@ == rest,
                None => r is None && final(self)@ == old(self)@,
            },
    {
        if n > self.rest.len() as u64 {
            return None;
        }
        match self.get_bytes(n as usize) {
            Ok(b) => Some(b),
            Err(_) => None,
        }
    }

    /// Reads a variable-length integer if there is one.
    pub fn next_varint(&mut self) -> (r: Option<u64>)
        ensures
            match take_varint(old(self)@) {
                Some((v, rest)) => r == Some(v) && v < VARINT_LIMIT && final(self)@ == rest
                    && rest.len() < old(self)@.len(),
                None => r is None && final(self)@ == old(self)@,
            },
    {
        match self.get_varint() {
            Ok(v) => Some(v),
            Err(_) => None,
        }
    }

    /// Reads a 32-bit integer in network byte order.
    pub fn get_u32(&mut self) -> (r: Result<u32, UnexpectedEnd>)
        ensures
            match r {
                Ok(v) => {
                    &&& old(self)@.len() >= 4
                    &&& v == u32_at(old(self)@)
                    &&& final(self)@ == old(self)@.skip(4)
                },
                Err(_) => old(self)@.len() < 4 && final(self)@ == old(self)@,
            },
    {
        match self.get_bytes(4) {
            Ok(b) => Ok(
                b[0] as u32 * 0x100_0000 + b[1] as u32 * 0x1_0000 + b[2] as u32 * 0x100
                    + b[3] as u32,
            ),
            Err(e) => Err(e),
        }
    }

    /// Reads a variable-length integer.
    pub fn get_varint(&mut self) -> (r: Result<u64, UnexpectedEnd>)
        ensures
            match r {
                Ok(v) => {
                    &&& v < VARINT_LIMIT
                    &&& varint_at(old(self)@) matches Some((w, n)) && w == v && 1 <= n
                        <= old(self)@.len() && final(self)@ == old(self)@.skip(n as int)
                },
                Err(_) => varint_at(old(self)@) is None && final(self)@ == old(self)@,
            },
    {
        proof {
            reveal(varint_at);
        }
        let s = self.rest;
        if s.len() < 1 {
            return Err(UnexpectedEnd);
        }
        let first = s[0];
        if first < 0x40 {
            let _ = self.get_bytes(1);
            Ok(first as u64)
        } else if first < 0x80 {
            if s.len() < 2 {
                return Err(UnexpectedEnd);
            }
            let _ = self.get_bytes(2);
            Ok((first as u64 - 0x40) * 0x100 + s[1] as u64)
        } else if first < 0xc0 {
            if s.len() < 4 {
                return Err(UnexpectedEnd);
            }
            let _ = self.get_bytes(4);
            Ok(
                (first as u64 - 0x80) * 0x100_0000 + s[1] as u64 * 0x1_0000 + s[2] as u64 * 0x100
                    + s[3] as u64,
            )
        } else {
            if s.len() < 8 {
                return Err(UnexpectedEnd);
            }
            let _ = self.get_bytes(8);
            Ok(
                (first as u64 - 0xc0) * 0x100_0000_0000_0000 + s[1] as u64 * 0x1_0000_0000_0000
                    + s[2] as u64 * 0x100_0000_0000 + s[3] as u64 * 0x1_0000_0000 + s[4] as u64
                    * 0x100_0000 + s[5] as u64 * 0x1_0000 + s[6] as u64 * 0x100 + s[7] as u64,
            )
        }
    }
}

/// How an integer is written: in 1, 2, 4 or 8 bytes, the fewest that hold it, the two top
/// bits of the first byte telling which, and the other bits being the integer with the most
/// significant byte first (RFC 9000 Section 16).
pub proof fn law_varint_layout(v: u64)
    requires
        v < 0x4000_0000_0000_0000,
    ensures
        ({
            let b = varint_bytes(v);
            &&& b.len() == varint_len(v)
            &&& v < 64 ==> b.len() == 1 && b[0] == v
            &&& 64 <= v < 16384 ==> b.len() == 2 && b[0] / 64 == 1 && (b[0] % 64) * 256 + b[1] == v
            &&& 16384 <= v < 1073741824 ==> b.len() == 4 && b[0] / 64 == 2 && (b[0] % 64) * 16777216
                + b[1] * 65536 + b[2] * 256 + b[3] == v
            &&& 1073741824 <= v ==> b.len() == 8 && b[0] / 64 == 3 && (b[0] % 64)
                * 72057594037927936 + b[1] * 281474976710656 + b[2] * 1099511627776 + b[3]
                * 4294967296 + b[4] * 16777216 + b[5] * 65536 + b[6] * 256 + b[7] == v
        }),
{
    reveal(varint_bytes);
    lemma_eight_digits(v);
}

/// How an integer is read, also where it is written in more bytes than it needs: the two
/// top bits of the first byte tell how many bytes belong to it, and it is missing exactly
/// if there are fewer.
pub proof fn law_varint_read(s: Seq<u8>)
    ensures
        s.len() == 0 ==> varint_at(s) is None,
        s.len() > 0 ==> {
            let n: nat = if s[0] / 64 == 0 {
                1
            } else if s[0] / 64 == 1 {
                2
            } else if s[0] / 64 == 2 {
                4
            } else {
                8
            };
            &&& s.len() < n ==> varint_at(s) is None
            &&& s.len() >= n ==> (varint_at(s) matches Some((v, m)) && m == n && (n == 1 ==> v
                == s[0]) && (n == 2 ==> v == (s[0] % 64) * 256 + s[1]) && (n == 4 ==> v == (s[0]
                % 64) * 16777216 + s[1] * 65536 + s[2] * 256 + s[3]) && (n == 8 ==> v == (s[0] % 64)
                * 72057594037927936 + s[1] * 281474976710656 + s[2] * 1099511627776 + s[3]
                * 4294967296 + s[4] * 16777216 + s[5] * 65536 + s[6] * 256 + s[7]))
        },
{
    reveal(varint_at);
}

} // verus!

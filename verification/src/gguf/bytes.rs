//! Byte sources that a GGUF file is read from, and little-endian numbers.

use vstd::prelude::*;
use vstd::slice::slice_subrange;

verus! {

/// The number whose little-endian notation in base 256 is `s`.
pub open spec fn le_value(s: Seq<u8>) -> nat
    decreases s.len(),
{
    if s.len() == 0 {
        0
    } else {
        s[0] as nat + 256 * le_value(s.drop_first())
    }
}

/// The little-endian number in the first two bytes of `s` from `pos` on.
pub open spec fn le_u16_at(s: Seq<u8>, pos: int) -> u16 {
    le_value(s.subrange(pos, pos + 2)) as u16
}

/// The little-endian number in the first four bytes of `s` from `pos` on.
pub open spec fn le_u32_at(s: Seq<u8>, pos: int) -> u32 {
    le_value(s.subrange(pos, pos + 4)) as u32
}

/// A little-endian number of `n` bytes is below `256^n`; for the widths in use
/// its value is the usual sum.
proof fn lemma_le_value_2(s: Seq<u8>)
    requires
        s.len() == 2,
    ensures
        le_value(s) == s[0] + 256 * s[1],
        le_value(s) <= u16::MAX,
{
    reveal_with_fuel(le_value, 3);
}

proof fn lemma_le_value_4(s: Seq<u8>)
    requires
        s.len() == 4,
    ensures
        le_value(s) == s[0] + 0x100 * s[1] + 0x1_0000 * s[2] + 0x100_0000 * s[3],
        le_value(s) <= u32::MAX,
{
    reveal_with_fuel(le_value, 5);
}

proof fn lemma_le_value_8(s: Seq<u8>)
    requires
        s.len() == 8,
    ensures
        le_value(s) == s[0] + 0x100 * s[1] + 0x1_0000 * s[2] + 0x100_0000 * s[3]
            + 0x1_0000_0000 * s[4] + 0x100_0000_0000 * s[5] + 0x1_0000_0000_0000 * s[6]
            + 0x100_0000_0000_0000 * s[7],
        le_value(s) <= u64::MAX,
{
    reveal_with_fuel(le_value, 9);
}

/// A word of two bytes has its lowest byte first.
pub proof fn law_word_of_two(s: Seq<u8>, pos: int)
    requires
        0 <= pos,
        pos + 2 <= s.len(),
    ensures
        le_u16_at(s, pos) == s[pos] + 0x100 * s[pos + 1],
{
    lemma_le_value_2(s.subrange(pos, pos + 2));
}

/// A word of four bytes has its lowest byte first.
pub proof fn law_word_of_four(s: Seq<u8>, pos: int)
    requires
        0 <= pos,
        pos + 4 <= s.len(),
    ensures
        le_u32_at(s, pos) == s[pos] + 0x100 * s[pos + 1] + 0x1_0000 * s[pos + 2] + 0x100_0000
            * s[pos + 3],
{
    lemma_le_value_4(s.subrange(pos, pos + 4));
}

/// A number has its lowest byte first, and each byte more weighs 256 times as much as the
/// one before it.
pub proof fn law_little_endian(s: Seq<u8>)
    ensures
        s.len() == 0 ==> le_value(s) == 0,
        s.len() > 0 ==> le_value(s) == s[0] + 0x100 * le_value(s.drop_first()),
        s.len() == 2 ==> le_value(s) == s[0] + 0x100 * s[1],
        s.len() == 4 ==> le_value(s) == s[0] + 0x100 * s[1] + 0x1_0000 * s[2] + 0x100_0000 * s[3],
        s.len() == 8 ==> le_value(s) == s[0] + 0x100 * s[1] + 0x1_0000 * s[2] + 0x100_0000 * s[3]
            + 0x1_0000_0000 * s[4] + 0x100_0000_0000 * s[5] + 0x1_0000_0000_0000 * s[6]
            + 0x100_0000_0000_0000 * s[7],
{
    if s.len() == 2 {
        lemma_le_value_2(s);
    }
    if s.len() == 4 {
        lemma_le_value_4(s);
    }
    if s.len() == 8 {
        lemma_le_value_8(s);
    }
}

/// Reads the little-endian number at `pos`.
pub fn read_u16(s: &[u8], pos: usize) -> (r: u16)
    requires
        pos + 2 <= s@.len(),
    ensures
        r == le_u16_at(s@, pos as int),
        r as nat == le_value(s@.subrange(pos as int, pos + 2)),
        r == s@[pos as int] + 0x100 * s@[pos + 1],
{
    proof {
        lemma_le_value_2(s@.subrange(pos as int, pos + 2));
    }
    s[pos] as u16 + 0x100 * (s[pos + 1] as u16)
}

/// Reads the little-endian number at `pos`.
pub fn read_u32(s: &[u8], pos: usize) -> (r: u32)
    requires
        pos + 4 <= s@.len(),
    ensures
        r == le_u32_at(s@, pos as int),
        r as nat == le_value(s@.subrange(pos as int, pos + 4)),
        r == s@[pos as int] + 0x100 * s@[pos + 1] + 0x1_0000 * s@[pos + 2] + 0x100_0000 * s@[pos
            + 3],
{
    proof {
        lemma_le_value_4(s@.subrange(pos as int, pos + 4));
    }
    s[pos] as u32 + 0x100 * (s[pos + 1] as u32) + 0x1_0000 * (s[pos + 2] as u32) + 0x100_0000 * (
    s[pos + 3] as u32)
}

/// Reads the little-endian number that the eight bytes of `s` hold.
pub fn read_u64(s: &[u8]) -> (r: u64)
    requires
        s@.len() == 8,
    ensures
        r as nat == le_value(s@),
        r == s@[0] + 0x100 * s@[1] + 0x1_0000 * s@[2] + 0x100_0000 * s@[3] + 0x1_0000_0000 * s@[4]
            + 0x100_0000_0000 * s@[5] + 0x1_0000_0000_0000 * s@[6] + 0x100_0000_0000_0000 * s@[7],
{
    proof {
        lemma_le_value_8(s@);
    }
    s[0] as u64 + 0x100 * (s[1] as u64) + 0x1_0000 * (s[2] as u64) + 0x100_0000 * (s[3] as u64)
        + 0x1_0000_0000 * (s[4] as u64) + 0x100_0000_0000 * (s[5] as u64) + 0x1_0000_0000_0000 * (
    s[6] as u64) + 0x100_0000_0000_0000 * (s[7] as u64)
}

/// A file that is held in memory.
pub trait ByteSource: Sized {
    /// The contents of the file.
    spec fn contents(&self) -> Seq<u8>;

    /// The `len` bytes from `pos` on, if the file holds that many.
    fn read_at(&self, pos: u64, len: usize) -> (r: Option<Vec<u8>>)
        ensures
            match r {
                Some(v) => pos + len <= self.contents().len() && v@ == self.contents().subrange(
                    pos as int,
                    pos + len,
                ),
                None => pos + len > self.contents().len(),
            },
    ;
}

/// A file in one piece.
pub struct SliceCursor<'a> {
    data: &'a [u8],
}

impl<'a> SliceCursor<'a> {
    /// The file whose contents are `data`.
    pub fn new(data: &'a [u8]) -> (r: Self)
        ensures
            r.contents() == data@,
    {
        SliceCursor { data }
    }
}

impl<'a> ByteSource for SliceCursor<'a> {
    closed spec fn contents(&self) -> Seq<u8> {
        self.data@
    }

    fn read_at(&self, pos: u64, len: usize) -> (r: Option<Vec<u8>>) {
        if pos > self.data.len() as u64 {
            return None;
        }
        let start: usize = pos as usize;
        if len > self.data.len() - start {
            return None;
        }
        let mut out: Vec<u8> = Vec::new();
        out.extend_from_slice(slice_subrange(self.data, start, start + len));
        assert(out@ =~= self.data@.subrange(pos as int, pos + len));
        Some(out)
    }
}

/// The shards one after the other.
pub open spec fn joined(shards: Seq<Vec<u8>>) -> Seq<u8>
    decreases shards.len(),
{
    if shards.len() == 0 {
        Seq::empty()
    } else {
        joined(shards.drop_last()) + shards.last()@
    }
}

/// A file that was cut into shards, none of which need be larger than a single
/// allocation may be.
pub struct ShardedCursor {
    shards: Vec<Vec<u8>>,
}

impl ShardedCursor {
    /// The file whose contents are the given shards, one after the other.
    pub fn new(shards: Vec<Vec<u8>>) -> (r: Self)
        ensures
            r.contents() == joined(shards@),
    {
        ShardedCursor { shards }
    }
}

/// What `s` holds of the `len` bytes from `pos` on.
spec fn clipped(s: Seq<u8>, pos: int, len: int) -> Seq<u8> {
    if pos > s.len() {
        Seq::empty()
    } else if pos + len > s.len() {
        s.subrange(pos, s.len() as int)
    } else {
        s.subrange(pos, pos + len)
    }
}

/// Appending `t` to `s` lets a read go on by `part` bytes of `t` from `start` on.
proof fn lemma_clipped_extends(s: Seq<u8>, t: Seq<u8>, pos: int, len: int, start: int, part: int)
    requires
        0 <= pos,
        0 <= len,
        start == if pos <= s.len() {
            0
        } else if pos - s.len() <= t.len() {
            pos - s.len()
        } else {
            t.len() as int
        },
        part == if t.len() - start <= len - clipped(s, pos, len).len() {
            t.len() - start
        } else {
            len - clipped(s, pos, len).len()
        },
    ensures
        clipped(s + t, pos, len) == clipped(s, pos, len) + t.subrange(start, start + part),
{
    assert(clipped(s + t, pos, len) =~= clipped(s, pos, len) + t.subrange(start, start + part));
}

impl ByteSource for ShardedCursor {
    closed spec fn contents(&self) -> Seq<u8> {
        joined(self.shards@)
    }

    fn read_at(&self, pos: u64, len: usize) -> (r: Option<Vec<u8>>) {
        let mut out: Vec<u8> = Vec::new();
        // How far `pos` lies behind the shards read so far.
        let mut skip: u64 = pos;
        let mut i: usize = 0;
        let ghost mut seen: Seq<u8> = Seq::empty();
        assert(self.shards@.take(0) =~= Seq::<Vec<u8>>::empty());
        while i < self.shards.len()
            invariant
                i <= self.shards@.len(),
                seen == joined(self.shards@.take(i as int)),
                out@ == clipped(seen, pos as int, len as int),
                skip == if pos <= seen.len() {
                    0
                } else {
                    pos - seen.len()
                },
            decreases self.shards@.len() - i,
        {
            let shard: &Vec<u8> = &self.shards[i];
            let size: usize = shard.len();
            let start: usize = if skip < size as u64 {
                skip as usize
            } else {
                size
            };
            let want: usize = len - out.len();
            let part: usize = if size - start <= want {
                size - start
            } else {
                want
            };
            let ghost before = out@;
            out.extend_from_slice(slice_subrange(shard.as_slice(), start, start + part));
            proof {
                assert(self.shards@.take(i + 1).drop_last() =~= self.shards@.take(i as int));
                lemma_clipped_extends(
                    seen,
                    shard@,
                    pos as int,
                    len as int,
                    start as int,
                    part as int,
                );
                assert(out@ =~= before + shard@.subrange(start as int, start + part));
                seen = seen + shard@;
            }
            skip = skip - start as u64;
            i = i + 1;
        }
        assert(self.shards@.take(i as int) =~= self.shards@);
        if skip > 0 || out.len() < len {
            None
        } else {
            Some(out)
        }
    }
}

} // verus!

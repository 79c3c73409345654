//! Bit and byte helpers shared by the codecs: single-bit tests, nibbles,
//! big-endian rows and bounds-checked copies out of a byte vector.

use vstd::prelude::*;

verus! {

/// The big-endian value of two octets.
pub open spec fn be16(hi: u8, lo: u8) -> u16 {
    (hi as u16 * 256 + lo as u16) as u16
}

/// The big-endian value of four octets.
pub open spec fn be32(b0: u8, b1: u8, b2: u8, b3: u8) -> u32 {
    (b0 as u32 * 16777216 + b1 as u32 * 65536 + b2 as u32 * 256 + b3 as u32) as u32
}

/// The two octets of a number, big-endian.
pub open spec fn be16_bytes(n: u16) -> Seq<u8> {
    seq![(n / 256) as u8, (n % 256) as u8]
}

/// The four octets of a number, big-endian.
pub open spec fn be32_bytes(n: u32) -> Seq<u8> {
    seq![
        (n / 16777216) as u8,
        (n / 65536 % 256) as u8,
        (n / 256 % 256) as u8,
        (n % 256) as u8,
    ]
}

/// Reads two octets of `data` at `pos` as a big-endian number.
pub fn read_u16(data: &[u8], pos: usize) -> (r: u16)
    requires
        pos + 2 <= data@.len(),
    ensures
        r == be16(data@[pos as int], data@[pos + 1]),
{
    data[pos] as u16 * 256 + data[pos + 1] as u16
}

/// Reads four octets of `data` at `pos` as a big-endian number.
pub fn read_u32(data: &[u8], pos: usize) -> (r: u32)
    requires
        pos + 4 <= data@.len(),
    ensures
        r == be32(data@[pos as int], data@[pos + 1], data@[pos + 2], data@[pos + 3]),
{
    data[pos] as u32 * 16777216 + data[pos + 1] as u32 * 65536 + data[pos + 2] as u32 * 256
        + data[pos + 3] as u32
}

/// Appends the two octets of `n` to `out`, big-endian.
pub fn push_u16(out: &mut Vec<u8>, n: u16)
    ensures
        final(out)@ == old(out)@ + be16_bytes(n),
{
    out.push((n / 256) as u8);
    out.push((n % 256) as u8);
    assert(out@ =~= old(out)@ + be16_bytes(n));
}

/// Appends the four octets of `n` to `out`, big-endian.
pub fn push_u32(out: &mut Vec<u8>, n: u32)
    ensures
        final(out)@ == old(out)@ + be32_bytes(n),
{
    out.push((n / 16777216) as u8);
    out.push((n / 65536 % 256) as u8);
    out.push((n / 256 % 256) as u8);
    out.push((n % 256) as u8);
    assert(out@ =~= old(out)@ + be32_bytes(n));
}

/// A copy of a byte vector.
pub fn copy_bytes(v: &Vec<u8>) -> (r: Vec<u8>)
    ensures
        r@ == v@,
{
    let r = vstd::slice::slice_to_vec(v.as_slice());
    r
}

/// Appends `src` to `dst`.
pub fn append_bytes(dst: &mut Vec<u8>, src: &[u8])
    ensures
        final(dst)@ == old(dst)@ + src@,
{
    let mut i: usize = 0;
    while i < src.len()
        invariant
            i <= src.len(),
            dst@ == old(dst)@ + src@.take(i as int),
        decreases src.len() - i,
    {
        dst.push(src[i]);
        proof {
            assert(src@.take(i + 1) =~= src@.take(i as int).push(src@[i as int]));
            assert(old(dst)@ + src@.take(i + 1) =~= (old(dst)@ + src@.take(i as int)).push(
                src@[i as int],
            ));
        }
        i += 1;
    }
    proof {
        assert(src@.take(i as int) =~= src@);
    }
}

/// Whether bit `pos` of `byte` is set, bit 0 being the least significant.
/// Positions past 7 name no bit and count as unset.
pub open spec fn bit_set(byte: u8, pos: u8) -> bool {
    pos < 8 && (byte >> pos) & 1 == 1
}

/// The bits of `byte` from position `lo` up to, but not including,
/// position `hi`, as a number.
pub open spec fn bits_between(byte: u8, lo: u8, hi: u8) -> u8 {
    (byte >> lo) & (0xFFu8 >> ((8 - (hi - lo)) as u8))
}

/// Reads the bits of `byte` from position `lo` up to, but not
/// including, position `hi`.
pub fn bit_range(byte: u8, lo: u8, hi: u8) -> (r: u8)
    requires
        lo < hi <= 8,
    ensures
        r == bits_between(byte, lo, hi),
{
    (byte >> lo) & (0xFFu8 >> (8 - (hi - lo)))
}

/// Sets bit `pos` of `byte` and leaves the others as they are.
pub fn set_bit(byte: u8, pos: u8) -> (r: u8)
    requires
        pos < 8,
    ensures
        r == byte | (1u8 << pos),
{
    byte | (1u8 << pos)
}

/// Clears bit `pos` of `byte` and leaves the others as they are.
pub fn clear_bit(byte: u8, pos: u8) -> (r: u8)
    requires
        pos < 8,
    ensures
        r == byte & !(1u8 << pos),
{
    byte & !(1u8 << pos)
}

/// A bit that was set reads as set, one that was cleared as unset, and
/// neither changes what another position reads.
pub proof fn lemma_set_and_clear(byte: u8, pos: u8, other: u8)
    requires
        pos < 8,
        other < 8,
    ensures
        bit_set(byte | (1u8 << pos), pos),
        !bit_set(byte & !(1u8 << pos), pos),
        other != pos ==> bit_set(byte | (1u8 << pos), other) == bit_set(byte, other),
        other != pos ==> bit_set(byte & !(1u8 << pos), other) == bit_set(byte, other),
{
    assert(pos < 8 ==> ((byte | (1u8 << pos)) >> pos) & 1 == 1) by (bit_vector);
    assert(pos < 8 ==> ((byte & !(1u8 << pos)) >> pos) & 1 == 0) by (bit_vector);
    assert(pos < 8 && other < 8 && other != pos ==> ((byte | (1u8 << pos)) >> other) & 1 == (byte
        >> other) & 1) by (bit_vector);
    assert(pos < 8 && other < 8 && other != pos ==> ((byte & !(1u8 << pos)) >> other) & 1 == (
    byte >> other) & 1) by (bit_vector);
}

/// Bit-level access to one octet.
pub trait Byte {
    /// The octet itself.
    spec fn octet(&self) -> u8;

    fn bit_is_set(&self, pos: u8) -> (r: bool)
        ensures
            r == bit_set(self.octet(), pos),
    ;

    /// The high nibble, left in place: the low four bits are cleared.
    fn take_left_nibble(&self) -> (r: u8)
        ensures
            r == self.octet() & 0xF0,
    ;

    /// The low nibble.
    fn take_right_nibble(&self) -> (r: u8)
        ensures
            r == self.octet() & 0x0F,
    ;

    /// Sets every bit that is set in `map`.
    fn set_bits(&mut self, map: u8)
        ensures
            final(self).octet() == old(self).octet() | map,
    ;

    /// Keeps only the bits that are set in `map`.
    fn unset_bits(&mut self, map: u8)
        ensures
            final(self).octet() == old(self).octet() & map,
    ;
}

impl Byte for u8 {
    open spec fn octet(&self) -> u8 {
        *self
    }

    fn bit_is_set(&self, pos: u8) -> (r: bool) {
        if pos < 8 {
            (*self >> pos) & 1 == 1
        } else {
            false
        }
    }

    fn take_left_nibble(&self) -> (r: u8) {
        *self & 0xF0
    }

    fn take_right_nibble(&self) -> (r: u8) {
        *self & 0x0F
    }

    fn set_bits(&mut self, map: u8) {
        *self = *self | map;
    }

    fn unset_bits(&mut self, map: u8) {
        *self = *self & map;
    }
}

/// A two-octet row of a message, read big-endian.
pub trait Row {
    /// The two octets of the row.
    spec fn octets(&self) -> (u8, u8);

    fn as_u16(&self) -> (r: u16)
        ensures
            r == be16(self.octets().0, self.octets().1),
    ;

    fn start_set_bits(&mut self, byte: u8)
        ensures
            final(self).octets() == (old(self).octets().0 | byte, old(self).octets().1),
    ;

    fn start_unset_bits(&mut self, byte: u8)
        ensures
            final(self).octets() == (old(self).octets().0 & byte, old(self).octets().1),
    ;

    fn end_set_bits(&mut self, byte: u8)
        ensures
            final(self).octets() == (old(self).octets().0, old(self).octets().1 | byte),
    ;

    fn end_unset_bits(&mut self, byte: u8)
        ensures
            final(self).octets() == (old(self).octets().0, old(self).octets().1 & byte),
    ;
}

impl Row for [u8; 2] {
    open spec fn octets(&self) -> (u8, u8) {
        (self[0], self[1])
    }

    fn as_u16(&self) -> (r: u16) {
        let hi: u16 = self[0] as u16;
        let lo: u16 = self[1] as u16;
        assert((hi << 8) | lo == hi * 256 + lo) by (bit_vector)
            requires
                hi < 256,
                lo < 256,
        ;
        (hi << 8) | lo
    }

    fn start_set_bits(&mut self, byte: u8) {
        self[0] = self[0] | byte;
    }

    fn start_unset_bits(&mut self, byte: u8) {
        self[0] = self[0] & byte;
    }

    fn end_set_bits(&mut self, byte: u8) {
        self[1] = self[1] | byte;
    }

    fn end_unset_bits(&mut self, byte: u8) {
        self[1] = self[1] & byte;
    }
}

/// Whether `get_slice` refuses the range.
pub open spec fn slice_refused(bytes: Seq<u8>, start: u16, end: u16) -> bool {
    end < start || end as int > bytes.len()
}

/// The last index, exclusive, that `get_slice` copies.
pub open spec fn slice_stop(bytes: Seq<u8>, start: u16, end: u16) -> int {
    if start as int + end as int <= bytes.len() {
        start as int + end as int
    } else {
        bytes.len() as int
    }
}

/// What `get_slice` copies from an accepted range.
pub open spec fn slice_of(bytes: Seq<u8>, start: u16, end: u16) -> Seq<u8> {
    bytes.subrange(start as int, slice_stop(bytes, start, end))
}

/// Bounds-checked copies out of a byte buffer.
pub trait Blob {
    /// The bytes of the buffer.
    spec fn bytes(&self) -> Seq<u8>;

    /// Copies at most `end` bytes, starting at index `start`. The range is
    /// refused when `end` lies before `start` or past the buffer's length.
    fn get_slice(&self, start: u16, end: u16) -> (r: Result<Vec<u8>, &'static str>)
        ensures
            slice_refused(self.bytes(), start, end) ==> r is Err && r->Err_0@ == "Invalid range"@,
            !slice_refused(self.bytes(), start, end) ==> r is Ok && r->Ok_0@ == slice_of(
                self.bytes(),
                start,
                end,
            ),
    ;

    /// Copies everything from index `start` on. A `start` past the
    /// buffer's length is refused.
    fn get_from_offset(&self, start: u8) -> (r: Result<Vec<u8>, &'static str>)
        ensures
            start as int > self.bytes().len() ==> r is Err && r->Err_0@
                == "Start index out of bounds."@,
            start as int <= self.bytes().len() ==> r is Ok && r->Ok_0@ == self.bytes().skip(
                start as int,
            ),
    ;

    /// The whole buffer, as it is handed to a socket.
    fn to_socket_msg(&self) -> (r: Result<&[u8], &'static str>)
        ensures
            r is Ok,
            r->Ok_0@ == self.bytes(),
    ;
}

impl Blob for Vec<u8> {
    open spec fn bytes(&self) -> Seq<u8> {
        self@
    }

    fn get_slice(&self, start: u16, end: u16) -> (r: Result<Vec<u8>, &'static str>) {
        if end < start || end as usize > self.len() {
            return Err("Invalid range");
        }
        let first: usize = start as usize;
        let stop: usize = if self.len() - first >= end as usize {
            first + end as usize
        } else {
            self.len()
        };
        let mut res: Vec<u8> = Vec::new();
        let mut i: usize = first;
        while i < stop
            invariant
                first <= i <= stop <= self.len(),
                res@ == self@.subrange(first as int, i as int),
            decreases stop - i,
        {
            res.push(self[i]);
            i += 1;
        }
        Ok(res)
    }

    fn get_from_offset(&self, start: u8) -> (r: Result<Vec<u8>, &'static str>) {
        if start as usize > self.len() {
            return Err("Start index out of bounds.");
        }
        let first: usize = start as usize;
        let mut res: Vec<u8> = Vec::new();
        let mut i: usize = first;
        while i < self.len()
            invariant
                first <= i <= self.len(),
                res@ == self@.subrange(first as int, i as int),
            decreases self.len() - i,
        {
            res.push(self[i]);
            i += 1;
        }
        Ok(res)
    }

    fn to_socket_msg(&self) -> (r: Result<&[u8], &'static str>) {
        Ok(self.as_slice())
    }
}

} // verus!

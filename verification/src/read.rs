//! Reading markers and payload bytes from an input buffer.
use crate::constants::marker::{
    BYTES_16, BYTES_32, BYTES_8, END_OF_STREAM, FALSE, FLOAT_64, INT_16, INT_32, INT_64, INT_8, LIST_16,
    LIST_32, LIST_8, LIST_STREAM, MAP_16, MAP_32, MAP_8, MAP_STREAM, NULL, STRING_16, STRING_32,
    STRING_8, STRUCT_16, STRUCT_8, TINY_LIST, TINY_LIST_MAX, TINY_MAP, TINY_MAP_MAX, TINY_STRING,
    TINY_STRING_MAX, TINY_STRUCT, TINY_STRUCT_MAX, TRUE,
};
use crate::error::{fails_with, ErrorCode, SerdeError, SerdeResult};
use crate::marker::{be_bytes, marker_bytes, marker_size, with_size, Marker};
use vstd::prelude::*;

verus! {

/// `256^n`.
pub open spec fn pow256(n: nat) -> int
    decreases n,
{
    if n == 0 {
        1
    } else {
        256 * pow256((n - 1) as nat)
    }
}

/// The unsigned integer that the bytes hold, most significant first.
pub open spec fn be_value(b: Seq<u8>) -> int
    decreases b.len(),
{
    if b.len() == 0 {
        0
    } else {
        be_value(b.drop_last()) * 256 + b.last()
    }
}

/// The signed integer that the `k` bytes hold in two's complement.
pub open spec fn be_signed(b: Seq<u8>) -> int {
    let u = be_value(b);
    if 2 * u >= pow256(b.len()) {
        u - pow256(b.len())
    } else {
        u
    }
}

/// The `k` bytes that follow the marker byte at `i`.
pub open spec fn field(bytes: Seq<u8>, i: int, k: nat) -> Seq<u8> {
    bytes.subrange(i + 1, i + 1 + k)
}

/// A sized marker whose size is held in the `k` bytes after the marker byte.
pub open spec fn sized_marker(bytes: Seq<u8>, i: int, k: nat, kind: Marker) -> Result<(Marker, nat), ErrorCode> {
    if i + k < bytes.len() {
        Ok((with_size(kind, be_value(field(bytes, i, k)) as usize), k + 1))
    } else {
        Err(ErrorCode::UnexpectedEndOfBytes)
    }
}

/// An integer marker whose value is held in the `k` bytes after the marker byte.
pub open spec fn int_marker(bytes: Seq<u8>, i: int, k: nat) -> Result<(Marker, nat), ErrorCode> {
    if i + k < bytes.len() {
        Ok((Marker::I64(be_signed(field(bytes, i, k)) as i64), k + 1))
    } else {
        Err(ErrorCode::UnexpectedEndOfBytes)
    }
}

/// The marker that starts at `bytes[i]`, with the number of bytes of its
/// header; the error where the input ends inside the header or where the byte
/// starts no marker.
#[verifier::opaque]
pub open spec fn decode_marker(bytes: Seq<u8>, i: int) -> Result<(Marker, nat), ErrorCode> {
    if !(0 <= i < bytes.len()) {
        Err(ErrorCode::UnexpectedEndOfBytes)
    } else {
        let b = bytes[i];
        if TINY_STRING <= b <= TINY_STRING_MAX {
            Ok((Marker::String((b - TINY_STRING) as usize), 1))
        } else if b == STRING_8 {
            sized_marker(bytes, i, 1, Marker::String(0))
        } else if b == STRING_16 {
            sized_marker(bytes, i, 2, Marker::String(0))
        } else if b == STRING_32 {
            sized_marker(bytes, i, 4, Marker::String(0))
        } else if TINY_MAP <= b <= TINY_MAP_MAX {
            Ok((Marker::Dictionary((b - TINY_MAP) as usize), 1))
        } else if b == MAP_8 {
            sized_marker(bytes, i, 1, Marker::Dictionary(0))
        } else if b == MAP_16 {
            sized_marker(bytes, i, 2, Marker::Dictionary(0))
        } else if b == MAP_32 {
            sized_marker(bytes, i, 4, Marker::Dictionary(0))
        } else if b == MAP_STREAM {
            Ok((Marker::Dictionary(usize::MAX), 1))
        } else if TINY_STRUCT <= b <= TINY_STRUCT_MAX {
            Ok((Marker::Struct((b - TINY_STRUCT) as usize), 1))
        } else if b == STRUCT_8 {
            sized_marker(bytes, i, 1, Marker::Struct(0))
        } else if b == STRUCT_16 {
            sized_marker(bytes, i, 2, Marker::Struct(0))
        } else if TINY_LIST <= b <= TINY_LIST_MAX {
            Ok((Marker::List((b - TINY_LIST) as usize), 1))
        } else if b == LIST_8 {
            sized_marker(bytes, i, 1, Marker::List(0))
        } else if b == LIST_16 {
            sized_marker(bytes, i, 2, Marker::List(0))
        } else if b == LIST_32 {
            sized_marker(bytes, i, 4, Marker::List(0))
        } else if b == LIST_STREAM {
            Ok((Marker::List(usize::MAX), 1))
        } else if b == NULL {
            Ok((Marker::Null, 1))
        } else if b == TRUE {
            Ok((Marker::True, 1))
        } else if b == FALSE {
            Ok((Marker::False, 1))
        } else if b == INT_8 {
            int_marker(bytes, i, 1)
        } else if b == INT_16 {
            int_marker(bytes, i, 2)
        } else if b == INT_32 {
            int_marker(bytes, i, 4)
        } else if b == INT_64 {
            int_marker(bytes, i, 8)
        } else if b == FLOAT_64 {
            if i + 8 < bytes.len() {
                Ok((Marker::F64(be_value(field(bytes, i, 8)) as u64), 9))
            } else {
                Err(ErrorCode::UnexpectedEndOfBytes)
            }
        } else if b == END_OF_STREAM {
            Ok((Marker::EOS, 1))
        } else if b == BYTES_8 {
            sized_marker(bytes, i, 1, Marker::Bytes(0))
        } else if b == BYTES_16 {
            sized_marker(bytes, i, 2, Marker::Bytes(0))
        } else if b == BYTES_32 {
            sized_marker(bytes, i, 4, Marker::Bytes(0))
        } else if b <= 0x7F {
            Ok((Marker::I64(b as i64), 1))
        } else if b >= 0xF0 {
            Ok((Marker::I64((b - 256) as i64), 1))
        } else {
            Err(ErrorCode::NotAMarker(b))
        }
    }
}

/// A marker's header is at least one byte long and lies within the input.
pub proof fn lemma_decode_marker_header(bytes: Seq<u8>, i: int)
    ensures
        decode_marker(bytes, i) matches Ok((_, n)) ==> 1 <= n && i + n <= bytes.len() && 0 <= i,
        decode_marker(bytes, i) matches Ok((Marker::EOS, n)) ==> n == 1,
{
    reveal(decode_marker);
}

proof fn lemma_be_value_bound(b: Seq<u8>)
    ensures
        0 <= be_value(b) < pow256(b.len()),
    decreases b.len(),
{
    if b.len() > 0 {
        lemma_be_value_bound(b.drop_last());
        let u = be_value(b.drop_last());
        let p = pow256(b.drop_last().len());
        assert(u * 256 + b.last() < 256 * p) by (nonlinear_arith)
            requires
                0 <= u < p,
                0 <= b.last() < 256,
        ;
    }
}

/// The unsigned integer held in `bytes[start..start + k]`.
fn read_be(bytes: &[u8], start: usize, k: usize) -> (u: u64)
    requires
        start + k <= bytes@.len(),
        k <= 8,
    ensures
        u as int == be_value(bytes@.subrange(start as int, start + k)),
{
    let mut u: u64 = 0;
    let mut j: usize = 0;
    assert(bytes@.len() == bytes.len());
    proof {
        lemma_pow256_8();
    }
    while j < k
        invariant
            j <= k <= 8,
            start + k <= bytes@.len() <= usize::MAX,
            u as int == be_value(bytes@.subrange(start as int, start + j)),
            pow256(8) == 0x1_0000_0000_0000_0000,
        decreases k - j,
    {
        let ghost prefix = bytes@.subrange(start as int, start + j + 1);
        assert(prefix.drop_last() =~= bytes@.subrange(start as int, start + j));
        proof {
            lemma_be_value_bound(prefix);
            lemma_pow256_mono(prefix.len(), 8);
        }
        assert(prefix.last() == bytes@[start + j]);
        assert(be_value(prefix) == u * 256 + bytes@[start + j]);
        assert(prefix.len() == j + 1);
        assert(u * 256 + bytes@[start + j] < 0x1_0000_0000_0000_0000);
        let b = bytes[start + j];
        assert(u * 256 <= u64::MAX);
        let t: u64 = u * 256;
        u = t + b as u64;
        j = j + 1;
    }
    u
}

proof fn lemma_pow256_8()
    ensures
        pow256(1) == 0x100,
        pow256(2) == 0x1_0000,
        pow256(4) == 0x1_0000_0000,
        pow256(8) == 0x1_0000_0000_0000_0000,
{
    reveal_with_fuel(pow256, 9);
}

proof fn lemma_pow256_mono(a: nat, b: nat)
    requires
        a <= b,
    ensures
        1 <= pow256(a) <= pow256(b),
    decreases b,
{
    if a < b {
        lemma_pow256_mono(a, (b - 1) as nat);
    } else {
        lemma_pow256_pos(a);
    }
}

proof fn lemma_pow256_pos(a: nat)
    ensures
        1 <= pow256(a),
    decreases a,
{
    if a > 0 {
        lemma_pow256_pos((a - 1) as nat);
    }
}

/// Whether `to` reads the same input as `from`, at the same position or a
/// later one.
pub open spec fn advanced(from: ByteReader, to: ByteReader) -> bool {
    &&& to.bytes == from.bytes
    &&& from.index <= to.index
}

/// A reader over an input buffer with a look-ahead of one marker.
///
/// `peeked` is the length of the header of the marker last peeked and not
/// yet consumed. A virtual marker and a virtual value, when set, are read in
/// place of the input by the next marker read and the next payload read.
#[derive(Debug)]
pub struct ByteReader<'a> {
    pub bytes: &'a [u8],
    pub index: usize,
    pub peeked: usize,
    pub virtual_value: Option<&'static [u8]>,
    pub virtual_marker: Option<Marker>,
}

impl<'a> ByteReader<'a> {
    /// Whether no header is pending beside a virtual marker: a marker read
    /// that meets both stops, as the scratch of a peeked marker finds a
    /// header it cannot drop.
    pub open spec fn settled(&self) -> bool {
        self.virtual_marker is Some ==> self.peeked == 0
    }

    /// The reader's invariant.
    pub open spec fn wf(&self) -> bool {
        &&& self.bytes@.len() <= usize::MAX
        &&& self.index <= self.bytes@.len()
        &&& self.peeked <= self.bytes@.len() - self.index
    }

    /// What the next marker read gives.
    pub open spec fn spec_peek(&self) -> Result<Marker, ErrorCode> {
        match self.virtual_marker {
            Some(m) => Ok(m),
            None => match decode_marker(self.bytes@, self.index as int) {
                Ok((m, _)) => Ok(m),
                Err(e) => Err(e),
            },
        }
    }

    /// The reader after the next marker has been peeked.
    pub open spec fn after_peek(&self) -> ByteReader<'a> {
        match self.virtual_marker {
            Some(_) => *self,
            None => match decode_marker(self.bytes@, self.index as int) {
                Ok((_, n)) => ByteReader { peeked: n as usize, ..*self },
                Err(_) => *self,
            },
        }
    }

    /// The reader after the next marker has been consumed.
    pub open spec fn after_consume(&self) -> ByteReader<'a> {
        match self.virtual_marker {
            Some(_) => ByteReader { virtual_marker: None, ..*self },
            None => match decode_marker(self.bytes@, self.index as int) {
                Ok((_, n)) => ByteReader { index: (self.index + n) as usize, peeked: 0, ..*self },
                Err(_) => *self,
            },
        }
    }

    /// A reader at the start of `bytes`.
    pub fn new(bytes: &'a [u8]) -> (r: Self)
        ensures
            r.wf(),
            r.bytes == bytes,
            r.index == 0,
            r.peeked == 0,
            r.virtual_value is None,
            r.virtual_marker is None,
    {
        assert(bytes@.len() == bytes.len());
        ByteReader { bytes, index: 0, peeked: 0, virtual_value: None, virtual_marker: None }
    }

    /// Whether all bytes were consumed.
    pub fn is_done(&self) -> (b: bool)
        ensures
            b == (self.index == self.bytes@.len()),
    {
        self.bytes.len() == self.index
    }

    /// Sets the marker and the payload that the next reads give in place of
    /// the input; fails where one of them is still pending. A peeked header
    /// stays pending.
    pub fn set_virtual(&mut self, marker: Marker, value: Option<&'static [u8]>) -> (r: SerdeResult<()>)
        requires
            old(self).wf(),
        ensures
            final(self).wf(),
            old(self).virtual_marker is Some || old(self).virtual_value is Some ==> {
                &&& *final(self) == *old(self)
                &&& r matches Err(e) && e.code == ErrorCode::VirtualIllegalAssignment
            },
            old(self).virtual_marker is None && old(self).virtual_value is None ==> {
                &&& r is Ok
                &&& *final(self) == (ByteReader {
                    virtual_marker: Some(marker),
                    virtual_value: value,
                    ..*old(self)
                })
            },
    {
        if self.virtual_marker.is_some() || self.virtual_value.is_some() {
            return Err(SerdeError::create(ErrorCode::VirtualIllegalAssignment));
        }
        self.virtual_marker = Some(marker);
        self.virtual_value = value;
        Ok(())
    }

    /// Where a payload read from the input starts: past a peeked header.
    pub open spec fn payload_start(&self) -> int {
        self.index + self.peeked
    }

    /// What a payload read of `len` bytes gives: the virtual value where one
    /// is set, else the `len` input bytes that follow a peeked header.
    pub open spec fn spec_payload(&self, len: nat) -> Result<Seq<u8>, ErrorCode> {
        match self.virtual_value {
            Some(v) => Ok(v@),
            None => if len <= self.bytes@.len() - self.payload_start() {
                Ok(self.bytes@.subrange(self.payload_start(), self.payload_start() + len))
            } else {
                Err(ErrorCode::UnexpectedEndOfBytes)
            },
        }
    }

    /// The reader after a payload read of `len` bytes: a virtual value is
    /// dropped; otherwise a peeked header is skipped, then the payload where
    /// the input holds it.
    pub open spec fn after_payload(&self, len: nat) -> ByteReader<'a> {
        match self.virtual_value {
            Some(_) => ByteReader { virtual_value: None, ..*self },
            None => if len <= self.bytes@.len() - self.payload_start() {
                ByteReader { index: (self.payload_start() + len) as usize, peeked: 0, ..*self }
            } else {
                ByteReader { index: self.payload_start() as usize, peeked: 0, ..*self }
            },
        }
    }

    /// Skips a peeked header, then gives the next `len` payload bytes; gives
    /// the virtual value instead where one is set.
    pub fn consume_bytes(&mut self, len: usize) -> (r: SerdeResult<&'a [u8]>)
        requires
            old(self).wf(),
        ensures
            final(self).wf(),
            advanced(*old(self), *final(self)),
            *final(self) == old(self).after_payload(len as nat),
            match old(self).spec_payload(len as nat) {
                Ok(b) => r matches Ok(s) && s@ == b,
                Err(c) => fails_with(r, c),
            },
    {
        if self.virtual_value.is_some() {
            let v = self.virtual_value.unwrap();
            self.virtual_value = None;
            return Ok(v);
        }
        self.index = self.index + self.peeked;
        self.peeked = 0;
        if len > self.bytes.len() - self.index {
            return Err(SerdeError::create(ErrorCode::UnexpectedEndOfBytes));
        }
        let bytes = vstd::slice::slice_subrange(self.bytes, self.index, self.index + len);
        self.index = self.index + len;
        Ok(bytes)
    }

    /// The byte `ahead` positions after the current one.
    pub fn peek_byte_nth_ahead(&self, ahead: usize) -> (r: SerdeResult<u8>)
        requires
            self.wf(),
        ensures
            self.index + ahead < self.bytes@.len() ==> r == Ok::<u8, SerdeError>(
                self.bytes@[self.index + ahead],
            ),
            self.index + ahead >= self.bytes@.len() ==> (r matches Err(e) && e.code
                == ErrorCode::UnexpectedEndOfBytes),
    {
        if ahead < self.bytes.len() - self.index {
            Ok(self.bytes[self.index + ahead])
        } else {
            Err(SerdeError::create(ErrorCode::UnexpectedEndOfBytes))
        }
    }

    /// The sized marker whose size is held in the `k` bytes after the
    /// current byte, with the length of its header.
    fn read_sized(&self, k: usize, kind: Marker) -> (r: SerdeResult<(Marker, usize)>)
        requires
            self.wf(),
            self.index < self.bytes@.len(),
            k == 1 || k == 2 || k == 4,
        ensures
            match sized_marker(self.bytes@, self.index as int, k as nat, kind) {
                Ok((m, n)) => r == Ok::<(Marker, usize), SerdeError>((m, n as usize)),
                Err(c) => r matches Err(e) && e.code == c,
            },
    {
        if k >= self.bytes.len() - self.index {
            return Err(SerdeError::create(ErrorCode::UnexpectedEndOfBytes));
        }
        let u = read_be(self.bytes, self.index + 1, k);
        proof {
            lemma_be_value_bound(field(self.bytes@, self.index as int, k as nat));
            lemma_pow256_8();
            lemma_pow256_mono(k as nat, 4);
        }
        let size = u as usize;
        let m = match kind {
            Marker::String(_) => Marker::String(size),
            Marker::List(_) => Marker::List(size),
            Marker::Bytes(_) => Marker::Bytes(size),
            Marker::Dictionary(_) => Marker::Dictionary(size),
            Marker::Struct(_) => Marker::Struct(size),
            other => other,
        };
        Ok((m, k + 1))
    }

    /// The integer marker whose value is held in the `k` bytes after the
    /// current byte, with the length of its header.
    fn read_int(&self, k: usize) -> (r: SerdeResult<(Marker, usize)>)
        requires
            self.wf(),
            self.index < self.bytes@.len(),
            k == 1 || k == 2 || k == 4 || k == 8,
        ensures
            match int_marker(self.bytes@, self.index as int, k as nat) {
                Ok((m, n)) => r == Ok::<(Marker, usize), SerdeError>((m, n as usize)),
                Err(c) => r matches Err(e) && e.code == c,
            },
    {
        if k >= self.bytes.len() - self.index {
            return Err(SerdeError::create(ErrorCode::UnexpectedEndOfBytes));
        }
        let u = read_be(self.bytes, self.index + 1, k);
        proof {
            lemma_be_value_bound(field(self.bytes@, self.index as int, k as nat));
            lemma_pow256_8();
        }
        let p: i128 = if k == 1 {
            0x100
        } else if k == 2 {
            0x1_0000
        } else if k == 4 {
            0x1_0000_0000
        } else {
            0x1_0000_0000_0000_0000
        };
        let w = u as i128;
        let v: i128 = if 2 * w >= p {
            w - p
        } else {
            w
        };
        Ok((Marker::I64(v as i64), k + 1))
    }

    /// Reads the next marker without consuming it; gives the virtual marker
    /// where one is set.
    pub fn peek_marker(&mut self) -> (r: SerdeResult<Marker>)
        requires
            old(self).wf(),
        ensures
            final(self).wf(),
            *final(self) == old(self).after_peek(),
            match old(self).spec_peek() {
                Ok(m) => r == Ok::<Marker, SerdeError>(m),
                Err(c) => r matches Err(e) && e.code == c,
            },
    {
        proof {
            reveal(decode_marker);
        }
        if self.virtual_marker.is_some() {
            return Ok(self.virtual_marker.unwrap());
        }
        let b = self.peek_byte_nth_ahead(0)?;
        let (marker, len): (Marker, usize) = if TINY_STRING <= b && b <= TINY_STRING_MAX {
            (Marker::String((b - TINY_STRING) as usize), 1)
        } else if b == STRING_8 {
            self.read_sized(1, Marker::String(0))?
        } else if b == STRING_16 {
            self.read_sized(2, Marker::String(0))?
        } else if b == STRING_32 {
            self.read_sized(4, Marker::String(0))?
        } else if TINY_MAP <= b && b <= TINY_MAP_MAX {
            (Marker::Dictionary((b - TINY_MAP) as usize), 1)
        } else if b == MAP_8 {
            self.read_sized(1, Marker::Dictionary(0))?
        } else if b == MAP_16 {
            self.read_sized(2, Marker::Dictionary(0))?
        } else if b == MAP_32 {
            self.read_sized(4, Marker::Dictionary(0))?
        } else if b == MAP_STREAM {
            (Marker::Dictionary(usize::MAX), 1)
        } else if TINY_STRUCT <= b && b <= TINY_STRUCT_MAX {
            (Marker::Struct((b - TINY_STRUCT) as usize), 1)
        } else if b == STRUCT_8 {
            self.read_sized(1, Marker::Struct(0))?
        } else if b == STRUCT_16 {
            self.read_sized(2, Marker::Struct(0))?
        } else if TINY_LIST <= b && b <= TINY_LIST_MAX {
            (Marker::List((b - TINY_LIST) as usize), 1)
        } else if b == LIST_8 {
            self.read_sized(1, Marker::List(0))?
        } else if b == LIST_16 {
            self.read_sized(2, Marker::List(0))?
        } else if b == LIST_32 {
            self.read_sized(4, Marker::List(0))?
        } else if b == LIST_STREAM {
            (Marker::List(usize::MAX), 1)
        } else if b == NULL {
            (Marker::Null, 1)
        } else if b == TRUE {
            (Marker::True, 1)
        } else if b == FALSE {
            (Marker::False, 1)
        } else if b == INT_8 {
            self.read_int(1)?
        } else if b == INT_16 {
            self.read_int(2)?
        } else if b == INT_32 {
            self.read_int(4)?
        } else if b == INT_64 {
            self.read_int(8)?
        } else if b == FLOAT_64 {
            if 8 >= self.bytes.len() - self.index {
                return Err(SerdeError::create(ErrorCode::UnexpectedEndOfBytes));
            }
            (Marker::F64(read_be(self.bytes, self.index + 1, 8)), 9)
        } else if b == END_OF_STREAM {
            (Marker::EOS, 1)
        } else if b == BYTES_8 {
            self.read_sized(1, Marker::Bytes(0))?
        } else if b == BYTES_16 {
            self.read_sized(2, Marker::Bytes(0))?
        } else if b == BYTES_32 {
            self.read_sized(4, Marker::Bytes(0))?
        } else if b <= 0x7F {
            (Marker::I64(b as i64), 1)
        } else if b >= 0xF0 {
            (Marker::I64(b as i64 - 256), 1)
        } else {
            return Err(SerdeError::create(ErrorCode::NotAMarker(b)));
        };
        self.peeked = len;
        Ok(marker)
    }

    /// Reads and consumes the next marker.
    pub fn consume_marker(&mut self) -> (r: SerdeResult<Marker>)
        requires
            old(self).wf(),
            old(self).settled(),
        ensures
            final(self).wf(),
            advanced(*old(self), *final(self)),
            r is Ok && old(self).virtual_marker is None ==> old(self).index < final(self).index,
            match old(self).spec_peek() {
                Ok(m) => r == Ok::<Marker, SerdeError>(m) && *final(self) == old(self).after_consume(),
                Err(c) => *final(self) == *old(self) && (r matches Err(e) && e.code == c),
            },
    {
        proof {
            lemma_decode_marker_header(self.bytes@, self.index as int);
        }
        let marker = self.peek_marker()?;
        self.scratch_peeked();
        Ok(marker)
    }

    /// Drops the peeked marker: clears the virtual marker, or moves past the
    /// peeked header.
    pub fn scratch_peeked(&mut self)
        requires
            old(self).wf(),
            old(self).virtual_marker is Some ==> old(self).peeked == 0,
            old(self).virtual_marker is None ==> old(self).peeked != 0,
        ensures
            final(self).wf(),
            old(self).virtual_marker is Some ==> *final(self) == (ByteReader {
                virtual_marker: None,
                ..*old(self)
            }),
            old(self).virtual_marker is None ==> *final(self) == (ByteReader {
                index: (old(self).index + old(self).peeked) as usize,
                peeked: 0,
                ..*old(self)
            }),
    {
        if self.virtual_marker.is_some() {
            self.virtual_marker = None;
        } else {
            assert(self.bytes@.len() == self.bytes.len());
            self.index = self.index + self.peeked;
            self.peeked = 0;
        }
    }
}

proof fn lemma_mod_split(v: int, p: int)
    requires
        p > 0,
    ensures
        v % (256 * p) == (v / 256) % p * 256 + v % 256,
{
    let a = v / 256;
    let r0 = v % 256;
    let m = a % p;
    let q = a / p;
    vstd::arithmetic::div_mod::lemma_fundamental_div_mod(v, 256);
    vstd::arithmetic::div_mod::lemma_fundamental_div_mod(a, p);
    vstd::arithmetic::div_mod::lemma_mod_bound(a, p);
    assert(v == q * (256 * p) + (m * 256 + r0)) by (nonlinear_arith)
        requires
            v == 256 * a + r0,
            a == p * q + m,
    ;
    assert(0 <= m * 256 + r0 < 256 * p) by (nonlinear_arith)
        requires
            0 <= m < p,
            0 <= r0 < 256,
    ;
    vstd::arithmetic::div_mod::lemma_fundamental_div_mod_converse(v, 256 * p, q, m * 256 + r0);
}

/// Reading back `n` bytes written by `be_bytes` gives `v` modulo `256^n`.
pub proof fn lemma_be_value_be_bytes(v: int, n: nat)
    ensures
        be_value(be_bytes(v, n)) == v % pow256(n),
        be_bytes(v, n).len() == n,
    decreases n,
{
    if n == 0 {
        assert(be_bytes(v, 0) =~= Seq::<u8>::empty());
    } else {
        let p = pow256((n - 1) as nat);
        lemma_be_value_be_bytes(v / 256, (n - 1) as nat);
        lemma_pow256_pos((n - 1) as nat);
        let s = be_bytes(v, n);
        assert(s.drop_last() =~= be_bytes(v / 256, (n - 1) as nat));
        assert(s.last() as int == v % 256);
        lemma_mod_split(v, p);
    }
}

/// A signed value written in `n` bytes reads back as itself.
proof fn lemma_be_signed_be_bytes(v: int, n: nat)
    requires
        1 <= n,
        -pow256(n) <= 2 * v < pow256(n),
    ensures
        be_signed(be_bytes(v, n)) == v,
{
    lemma_be_value_be_bytes(v, n);
    let p = pow256(n);
    if v >= 0 {
        vstd::arithmetic::div_mod::lemma_small_mod(v as nat, p as nat);
    } else {
        vstd::arithmetic::div_mod::lemma_fundamental_div_mod_converse(v, p, -1, v + p);
    }
}

/// An unsigned value below `256^n` written in `n` bytes reads back as itself.
proof fn lemma_be_value_small(v: int, n: nat)
    requires
        0 <= v < pow256(n),
    ensures
        be_value(be_bytes(v, n)) == v,
{
    lemma_be_value_be_bytes(v, n);
    vstd::arithmetic::div_mod::lemma_small_mod(v as nat, pow256(n) as nat);
}

proof fn lemma_field(pre: Seq<u8>, b: Seq<u8>, rest: Seq<u8>, k: nat)
    requires
        1 + k <= b.len(),
    ensures
        field(pre + b + rest, pre.len() as int, k) =~= b.subrange(1, 1 + k as int),
        (pre + b + rest)[pre.len() as int] == b[0],
        (pre + b + rest).len() == pre.len() + b.len() + rest.len(),
{
    assert((pre + b + rest)[pre.len() as int] == b[0]);
}

/// Law: a marker's encoding reads back as the marker, with the encoding's
/// length as the header length, wherever it stands in the input. Lists and
/// maps too long for a 32-bit size are written as stream markers, which
/// read back as streams: those but the stream markers themselves are left
/// out.
pub proof fn lemma_marker_roundtrip(m: Marker, pre: Seq<u8>, rest: Seq<u8>)
    requires
        marker_bytes(m) is Some,
        !(m matches Marker::List(n) && 0xFFFF_FFFF < n < usize::MAX),
        !(m matches Marker::Dictionary(n) && 0xFFFF_FFFF < n < usize::MAX),
    ensures
        decode_marker(pre + marker_bytes(m)->0 + rest, pre.len() as int) == Ok::<
            (Marker, nat),
            ErrorCode,
        >((m, marker_bytes(m)->0.len())),
{
    reveal(decode_marker);
    let b = marker_bytes(m)->0;
    let i = pre.len() as int;
    let bytes = pre + b + rest;
    lemma_pow256_8();
    match m {
        Marker::I64(v) => {
            let vi = v as int;
            if -0x10 <= vi <= 0x7F {
                lemma_field(pre, b, rest, 0);
                lemma_be_value_be_bytes(vi, 1);
                assert(b[0] as int == vi % 256);
                if vi < 0 {
                    vstd::arithmetic::div_mod::lemma_fundamental_div_mod_converse(vi, 256, -1, vi + 256);
                }
            } else if -0x80 <= vi <= 0x7F {
                lemma_be_value_be_bytes(vi, 1);
                lemma_field(pre, b, rest, 1);
                assert(b.subrange(1, 2) =~= be_bytes(vi, 1));
                lemma_be_signed_be_bytes(vi, 1);
            } else if -0x8000 <= vi <= 0x7FFF {
                lemma_be_value_be_bytes(vi, 2);
                lemma_field(pre, b, rest, 2);
                assert(b.subrange(1, 3) =~= be_bytes(vi, 2));
                lemma_be_signed_be_bytes(vi, 2);
            } else if -0x8000_0000 <= vi <= 0x7FFF_FFFF {
                lemma_be_value_be_bytes(vi, 4);
                lemma_field(pre, b, rest, 4);
                assert(b.subrange(1, 5) =~= be_bytes(vi, 4));
                lemma_be_signed_be_bytes(vi, 4);
            } else {
                lemma_be_value_be_bytes(vi, 8);
                lemma_field(pre, b, rest, 8);
                assert(b.subrange(1, 9) =~= be_bytes(vi, 8));
                lemma_be_signed_be_bytes(vi, 8);
            }
        },
        Marker::F64(bits) => {
            lemma_be_value_be_bytes(bits as int, 8);
            lemma_field(pre, b, rest, 8);
            assert(b.subrange(1, 9) =~= be_bytes(bits as int, 8));
            lemma_be_value_small(bits as int, 8);
        },
        Marker::String(n) | Marker::List(n) | Marker::Bytes(n) | Marker::Dictionary(n) | Marker::Struct(n) => {
            lemma_sized_roundtrip(m, n, pre, rest);
        },
        _ => {
            lemma_field(pre, b, rest, 0);
        },
    }
}

proof fn lemma_sized_roundtrip(m: Marker, n: usize, pre: Seq<u8>, rest: Seq<u8>)
    requires
        marker_bytes(m) is Some,
        m is String || m is List || m is Bytes || m is Dictionary || m is Struct,
        marker_size(m) == n,
        !(m matches Marker::List(n) && 0xFFFF_FFFF < n < usize::MAX),
        !(m matches Marker::Dictionary(n) && 0xFFFF_FFFF < n < usize::MAX),
    ensures
        decode_marker(pre + marker_bytes(m)->0 + rest, pre.len() as int) == Ok::<
            (Marker, nat),
            ErrorCode,
        >((m, marker_bytes(m)->0.len())),
{
    reveal(decode_marker);
    let b = marker_bytes(m)->0;
    lemma_pow256_8();
    if n > 0xFFFF_FFFF {
        lemma_field(pre, b, rest, 0);
    } else if !(m is Bytes) && n <= 0xF {
        lemma_field(pre, b, rest, 0);
    } else if n <= 0xFF {
        lemma_field(pre, b, rest, 1);
        assert(b.subrange(1, 2) =~= seq![n as u8]);
        assert(seq![n as u8].drop_last() =~= Seq::<u8>::empty());
        assert(be_value(Seq::<u8>::empty()) == 0);
        assert(be_value(seq![n as u8]) == n);
        lemma_sized_case(m, n, pre, rest, 1);
    } else if n <= 0xFFFF {
        lemma_be_value_be_bytes(n as int, 2);
        lemma_field(pre, b, rest, 2);
        assert(b.subrange(1, 3) =~= be_bytes(n as int, 2));
        lemma_be_value_small(n as int, 2);
        lemma_sized_case(m, n, pre, rest, 2);
    } else {
        lemma_be_value_be_bytes(n as int, 4);
        lemma_field(pre, b, rest, 4);
        assert(b.subrange(1, 5) =~= be_bytes(n as int, 4));
        lemma_be_value_small(n as int, 4);
        lemma_sized_case(m, n, pre, rest, 4);
    }
}

proof fn lemma_sized_case(m: Marker, n: usize, pre: Seq<u8>, rest: Seq<u8>, k: nat)
    requires
        marker_bytes(m) is Some,
        m is String || m is List || m is Bytes || m is Dictionary || m is Struct,
        marker_size(m) == n,
        marker_bytes(m)->0.len() == k + 1,
        1 + k <= marker_bytes(m)->0.len(),
        be_value(field(pre + marker_bytes(m)->0 + rest, pre.len() as int, k)) == n,
        (pre + marker_bytes(m)->0 + rest)[pre.len() as int] == marker_bytes(m)->0[0],
        (pre + marker_bytes(m)->0 + rest).len() == pre.len() + k + 1 + rest.len(),
        k == 1 && (m is Bytes || n > 0xF) && n <= 0xFF || k == 2 && 0xFF < n <= 0xFFFF || k == 4
            && 0xFFFF < n <= 0xFFFF_FFFF,
    ensures
        decode_marker(pre + marker_bytes(m)->0 + rest, pre.len() as int) == Ok::<
            (Marker, nat),
            ErrorCode,
        >((m, marker_bytes(m)->0.len())),
{
    reveal(decode_marker);
    let b = marker_bytes(m)->0;
    let bytes = pre + b + rest;
    let i = pre.len() as int;
    assert(sized_marker(bytes, i, k, m) == Ok::<(Marker, nat), ErrorCode>((m, k + 1)));
    match m {
        Marker::String(_) => {
            assert(b[0] == if k == 1 { STRING_8 } else if k == 2 { STRING_16 } else { STRING_32 });
        },
        Marker::List(_) => {
            assert(b[0] == if k == 1 { LIST_8 } else if k == 2 { LIST_16 } else { LIST_32 });
        },
        Marker::Bytes(_) => {
            assert(b[0] == if k == 1 { BYTES_8 } else if k == 2 { BYTES_16 } else { BYTES_32 });
        },
        Marker::Dictionary(_) => {
            assert(b[0] == if k == 1 { MAP_8 } else if k == 2 { MAP_16 } else { MAP_32 });
        },
        _ => {
            assert(b[0] == if k == 1 { STRUCT_8 } else { STRUCT_16 });
        },
    }
}

} // verus!

//! Reading and writing of the primitive values that both formats are made of.
//!
//! Numbers are read and written by the `bytestream` crate. What it does with
//! the bytes is stated here by the spec functions `u16_at`, `u16_bytes` and
//! their like, and everything above them is proved from those statements:
//! the functions whose names start with `stream_` make the calls, and their
//! contracts are taken on trust. A text is made of bytes by `String::from_utf8`,
//! in the same way.
use vstd::prelude::*;
use vstd::utf8::*;
use vstd::string::*;
use bytestream::StreamReader;
use bytestream::StreamWriter;
use crate::error::Error;
use crate::error::Failure;
use crate::Color;
use crate::FloatBits;
use crate::VarLenString;

verus! {

/// The order in which the bytes of a number follow each other.
#[derive(Clone, Copy, Debug, PartialEq, Eq, Structural)]
pub enum ByteOrder {
    /// Most significant byte first.
    BigEndian,
    /// Least significant byte first.
    LittleEndian,
}

/// The number that the two bytes of `data` from `pos` on denote in `order`.
pub open spec fn u16_at(data: Seq<u8>, pos: int, order: ByteOrder) -> u16 {
    match order {
        ByteOrder::BigEndian => ((data[pos] as u16) << 8) | (data[pos + 1] as u16),
        ByteOrder::LittleEndian => ((data[pos + 1] as u16) << 8) | (data[pos] as u16),
    }
}

/// The number that the four bytes of `data` from `pos` on denote in `order`.
pub open spec fn u32_at(data: Seq<u8>, pos: int, order: ByteOrder) -> u32 {
    match order {
        ByteOrder::BigEndian => ((data[pos] as u32) << 24) | ((data[pos + 1] as u32) << 16) | ((
        data[pos + 2] as u32) << 8) | (data[pos + 3] as u32),
        ByteOrder::LittleEndian => ((data[pos + 3] as u32) << 24) | ((data[pos + 2] as u32) << 16)
            | ((data[pos + 1] as u32) << 8) | (data[pos] as u32),
    }
}

/// The signed number that the two bytes of `data` from `pos` on denote.
pub open spec fn i16_at(data: Seq<u8>, pos: int, order: ByteOrder) -> i16 {
    u16_at(data, pos, order) as i16
}

/// The signed number that the four bytes of `data` from `pos` on denote.
pub open spec fn i32_at(data: Seq<u8>, pos: int, order: ByteOrder) -> i32 {
    u32_at(data, pos, order) as i32
}

/// The truth value that the byte of `data` at `pos` denotes: only 1 is true.
pub open spec fn bool_at(data: Seq<u8>, pos: int) -> bool {
    data[pos] == 1
}

/// The three bytes of `data` from `pos` on.
pub open spec fn bytes3_at(data: Seq<u8>, pos: int) -> [u8; 3] {
    [data[pos], data[pos + 1], data[pos + 2]]
}

/// The twelve bytes of `data` from `pos` on.
pub open spec fn bytes12_at(data: Seq<u8>, pos: int) -> [u8; 12] {
    [
        data[pos],
        data[pos + 1],
        data[pos + 2],
        data[pos + 3],
        data[pos + 4],
        data[pos + 5],
        data[pos + 6],
        data[pos + 7],
        data[pos + 8],
        data[pos + 9],
        data[pos + 10],
        data[pos + 11],
    ]
}

/// The two bytes that denote `value` in `order`.
pub open spec fn u16_bytes(value: u16, order: ByteOrder) -> Seq<u8> {
    match order {
        ByteOrder::BigEndian => seq![(value >> 8) as u8, (value & 0xff) as u8],
        ByteOrder::LittleEndian => seq![(value & 0xff) as u8, (value >> 8) as u8],
    }
}

/// The four bytes that denote `value` in `order`.
pub open spec fn u32_bytes(value: u32, order: ByteOrder) -> Seq<u8> {
    match order {
        ByteOrder::BigEndian => seq![
            (value >> 24) as u8,
            ((value >> 16) & 0xff) as u8,
            ((value >> 8) & 0xff) as u8,
            (value & 0xff) as u8,
        ],
        ByteOrder::LittleEndian => seq![
            (value & 0xff) as u8,
            ((value >> 8) & 0xff) as u8,
            ((value >> 16) & 0xff) as u8,
            (value >> 24) as u8,
        ],
    }
}

/// The two bytes that denote the signed `value` in `order`.
pub open spec fn i16_bytes(value: i16, order: ByteOrder) -> Seq<u8> {
    u16_bytes(value as u16, order)
}

/// The four bytes that denote the signed `value` in `order`.
pub open spec fn i32_bytes(value: i32, order: ByteOrder) -> Seq<u8> {
    u32_bytes(value as u32, order)
}

/// The byte that denotes a truth value: 1 for true, 0 for false.
pub open spec fn bool_bytes(value: bool) -> Seq<u8> {
    seq![if value { 1u8 } else { 0u8 }]
}

/// `n` bytes that are all zero.
pub open spec fn zeros(n: int) -> Seq<u8> {
    Seq::new(if n >= 0 { n as nat } else { 0 }, |i: int| 0u8)
}

/// Whether `data` holds `bytes` from `pos` on.
#[verifier::opaque]
pub open spec fn holds_at(data: Seq<u8>, pos: int, bytes: Seq<u8>) -> bool {
    &&& 0 <= pos
    &&& pos + bytes.len() <= data.len()
    &&& forall|i: int| 0 <= i < bytes.len() ==> data[pos + i] == #[trigger] bytes[i]
}

/// A sequence holds the concatenation of two sequences exactly where it holds
/// the first and, right behind it, the second.
pub proof fn lemma_holds_at_concat(data: Seq<u8>, pos: int, a: Seq<u8>, b: Seq<u8>)
    ensures
        holds_at(data, pos, a + b) <==> holds_at(data, pos, a) && holds_at(
            data,
            pos + a.len(),
            b,
        ),
{
    reveal(holds_at);
    if holds_at(data, pos, a + b) {
        assert forall|i: int| 0 <= i < a.len() implies data[pos + i] == #[trigger] a[i] by {
            assert((a + b)[i] == a[i]);
        }
        assert forall|i: int| 0 <= i < b.len() implies data[pos + a.len() + i]
            == #[trigger] b[i] by {
            assert((a + b)[a.len() + i] == b[i]);
        }
    }
    if holds_at(data, pos, a) && holds_at(data, pos + a.len(), b) {
        assert forall|i: int| 0 <= i < (a + b).len() implies data[pos + i] == #[trigger] (a
            + b)[i] by {
            if i < a.len() {
                assert((a + b)[i] == a[i]);
            } else {
                assert((a + b)[i] == b[i - a.len()]);
                assert(data[pos + a.len() + (i - a.len())] == b[i - a.len()]);
            }
        }
    }
}

/// Every sequence holds itself from its start on.
pub proof fn lemma_holds_at_start(bytes: Seq<u8>)
    ensures
        holds_at(bytes, 0, bytes),
{
    reveal(holds_at);
}

/// What holds bytes somewhere is long enough for them.
pub proof fn lemma_holds_at_bounds(data: Seq<u8>, pos: int, bytes: Seq<u8>)
    requires
        holds_at(data, pos, bytes),
    ensures
        0 <= pos,
        pos + bytes.len() <= data.len(),
{
    reveal(holds_at);
}

/// Each byte that a sequence holds somewhere stands at its place.
pub proof fn lemma_holds_at_index(data: Seq<u8>, pos: int, bytes: Seq<u8>, i: int)
    requires
        holds_at(data, pos, bytes),
        0 <= i < bytes.len(),
    ensures
        data[pos + i] == bytes[i],
{
    reveal(holds_at);
}

/// Joining three sequences gives the same whichever two are joined first.
pub proof fn lemma_concat_assoc(a: Seq<u8>, b: Seq<u8>, c: Seq<u8>)
    ensures
        (a + b) + c == a + (b + c),
{
    assert((a + b) + c =~= a + (b + c));
}

/// The bytes that a sequence holds somewhere are that part of the sequence.
pub proof fn lemma_holds_at_subrange(data: Seq<u8>, pos: int, bytes: Seq<u8>)
    requires
        holds_at(data, pos, bytes),
    ensures
        data.subrange(pos, pos + bytes.len()) == bytes,
{
    reveal(holds_at);
    assert(data.subrange(pos, pos + bytes.len()) =~= bytes);
}

/// The two bytes written for a `u16` are read back as that number.
pub proof fn lemma_u16_at_bytes(value: u16, order: ByteOrder, data: Seq<u8>, pos: int)
    requires
        holds_at(data, pos, u16_bytes(value, order)),
    ensures
        u16_at(data, pos, order) == value,
{
    reveal(holds_at);
    let bytes = u16_bytes(value, order);
    assert(data[pos + 0] == bytes[0]);
    assert(data[pos + 1] == bytes[1]);
    let hi = (value >> 8) as u8;
    let lo = (value & 0xff) as u8;
    assert(((hi as u16) << 8) | (lo as u16) == value) by (bit_vector)
        requires
            hi == (value >> 8) as u8,
            lo == (value & 0xff) as u8,
    ;
}

/// The four bytes written for a `u32` are read back as that number.
pub proof fn lemma_u32_at_bytes(value: u32, order: ByteOrder, data: Seq<u8>, pos: int)
    requires
        holds_at(data, pos, u32_bytes(value, order)),
    ensures
        u32_at(data, pos, order) == value,
{
    reveal(holds_at);
    let bytes = u32_bytes(value, order);
    assert(data[pos + 0] == bytes[0]);
    assert(data[pos + 1] == bytes[1]);
    assert(data[pos + 2] == bytes[2]);
    assert(data[pos + 3] == bytes[3]);
    let b3 = (value >> 24) as u8;
    let b2 = ((value >> 16) & 0xff) as u8;
    let b1 = ((value >> 8) & 0xff) as u8;
    let b0 = (value & 0xff) as u8;
    assert(((b3 as u32) << 24) | ((b2 as u32) << 16) | ((b1 as u32) << 8) | (b0 as u32) == value)
        by (bit_vector)
        requires
            b3 == (value >> 24) as u8,
            b2 == ((value >> 16) & 0xff) as u8,
            b1 == ((value >> 8) & 0xff) as u8,
            b0 == (value & 0xff) as u8,
    ;
}

/// The two bytes written for an `i16` are read back as that number.
pub proof fn lemma_i16_at_bytes(value: i16, order: ByteOrder, data: Seq<u8>, pos: int)
    requires
        holds_at(data, pos, i16_bytes(value, order)),
    ensures
        i16_at(data, pos, order) == value,
{
    lemma_u16_at_bytes(value as u16, order, data, pos);
    assert((value as u16) as i16 == value) by (bit_vector);
}

/// The four bytes written for an `i32` are read back as that number.
pub proof fn lemma_i32_at_bytes(value: i32, order: ByteOrder, data: Seq<u8>, pos: int)
    requires
        holds_at(data, pos, i32_bytes(value, order)),
    ensures
        i32_at(data, pos, order) == value,
{
    lemma_u32_at_bytes(value as u32, order, data, pos);
    assert((value as u32) as i32 == value) by (bit_vector);
}

/// The byte written for a `u8` is read back as that number.
pub proof fn lemma_u8_at_bytes(value: u8, data: Seq<u8>, pos: int)
    requires
        holds_at(data, pos, seq![value]),
    ensures
        data[pos] == value,
{
    lemma_holds_at_index(data, pos, seq![value], 0);
}

/// The byte written for a truth value is read back as that value.
pub proof fn lemma_bool_at_bytes(value: bool, data: Seq<u8>, pos: int)
    requires
        holds_at(data, pos, bool_bytes(value)),
    ensures
        bool_at(data, pos) == value,
{
    lemma_holds_at_index(data, pos, bool_bytes(value), 0);
}

/// The three bytes written for an array are read back as that array.
pub proof fn lemma_bytes3_at_bytes(value: [u8; 3], data: Seq<u8>, pos: int)
    requires
        holds_at(data, pos, value@),
    ensures
        bytes3_at(data, pos) == value,
{
    reveal(holds_at);
    assert forall|k: int| 0 <= k < 3 implies data[pos + k] == value@[k] by {}
    assert(bytes3_at(data, pos) =~= value);
}

/// The twelve bytes written for an array are read back as that array.
pub proof fn lemma_bytes12_at_bytes(value: [u8; 12], data: Seq<u8>, pos: int)
    requires
        holds_at(data, pos, value@),
    ensures
        bytes12_at(data, pos) == value,
{
    reveal(holds_at);
    assert forall|k: int| 0 <= k < 12 implies data[pos + k] == value@[k] by {}
    assert(bytes12_at(data, pos) =~= value);
}

/// Reads a `u8` with bytestream's `<u8 as StreamReader>::read_from` from a
/// reader over `bytes`. The call succeeds exactly when a byte is there, and
/// then gives the first byte.
#[verifier::external_body]
fn stream_read_u8(bytes: &[u8], order: ByteOrder) -> (r: Result<u8, std::io::Error>)
    ensures
        r is Ok <==> bytes@.len() >= 1,
        r matches Ok(v) ==> v == bytes@[0],
{
    let mut reader = bytes;
    match order {
        ByteOrder::BigEndian => u8::read_from(&mut reader, bytestream::ByteOrder::BigEndian),
        ByteOrder::LittleEndian => u8::read_from(&mut reader, bytestream::ByteOrder::LittleEndian),
    }
}

/// Reads a `bool` with bytestream's `<bool as StreamReader>::read_from` from
/// a reader over `bytes`. The call succeeds exactly when a byte is there, and
/// then says whether the first byte is 1.
#[verifier::external_body]
fn stream_read_bool(bytes: &[u8], order: ByteOrder) -> (r: Result<bool, std::io::Error>)
    ensures
        r is Ok <==> bytes@.len() >= 1,
        r matches Ok(v) ==> v == bool_at(bytes@, 0),
{
    let mut reader = bytes;
    match order {
        ByteOrder::BigEndian => bool::read_from(&mut reader, bytestream::ByteOrder::BigEndian),
        ByteOrder::LittleEndian => bool::read_from(
            &mut reader,
            bytestream::ByteOrder::LittleEndian,
        ),
    }
}

/// Reads a `u16` with bytestream's `<u16 as StreamReader>::read_from` from a
/// reader over `bytes`. The call succeeds exactly when two bytes are there,
/// and then gives the number that the first two bytes denote in `order`.
#[verifier::external_body]
fn stream_read_u16(bytes: &[u8], order: ByteOrder) -> (r: Result<u16, std::io::Error>)
    ensures
        r is Ok <==> bytes@.len() >= 2,
        r matches Ok(v) ==> v == u16_at(bytes@, 0, order),
{
    let mut reader = bytes;
    match order {
        ByteOrder::BigEndian => u16::read_from(&mut reader, bytestream::ByteOrder::BigEndian),
        ByteOrder::LittleEndian => u16::read_from(&mut reader, bytestream::ByteOrder::LittleEndian),
    }
}

/// Reads a `u32` with bytestream's `<u32 as StreamReader>::read_from` from a
/// reader over `bytes`. The call succeeds exactly when four bytes are there,
/// and then gives the number that the first four bytes denote in `order`.
#[verifier::external_body]
fn stream_read_u32(bytes: &[u8], order: ByteOrder) -> (r: Result<u32, std::io::Error>)
    ensures
        r is Ok <==> bytes@.len() >= 4,
        r matches Ok(v) ==> v == u32_at(bytes@, 0, order),
{
    let mut reader = bytes;
    match order {
        ByteOrder::BigEndian => u32::read_from(&mut reader, bytestream::ByteOrder::BigEndian),
        ByteOrder::LittleEndian => u32::read_from(&mut reader, bytestream::ByteOrder::LittleEndian),
    }
}

/// Reads an `i16` with bytestream's `<i16 as StreamReader>::read_from` from
/// a reader over `bytes`. The call succeeds exactly when two bytes are there,
/// and then gives the two's complement number that they denote in `order`.
#[verifier::external_body]
fn stream_read_i16(bytes: &[u8], order: ByteOrder) -> (r: Result<i16, std::io::Error>)
    ensures
        r is Ok <==> bytes@.len() >= 2,
        r matches Ok(v) ==> v == i16_at(bytes@, 0, order),
{
    let mut reader = bytes;
    match order {
        ByteOrder::BigEndian => i16::read_from(&mut reader, bytestream::ByteOrder::BigEndian),
        ByteOrder::LittleEndian => i16::read_from(&mut reader, bytestream::ByteOrder::LittleEndian),
    }
}

/// Reads an `i32` with bytestream's `<i32 as StreamReader>::read_from` from
/// a reader over `bytes`. The call succeeds exactly when four bytes are
/// there, and then gives the two's complement number that they denote in
/// `order`.
#[verifier::external_body]
fn stream_read_i32(bytes: &[u8], order: ByteOrder) -> (r: Result<i32, std::io::Error>)
    ensures
        r is Ok <==> bytes@.len() >= 4,
        r matches Ok(v) ==> v == i32_at(bytes@, 0, order),
{
    let mut reader = bytes;
    match order {
        ByteOrder::BigEndian => i32::read_from(&mut reader, bytestream::ByteOrder::BigEndian),
        ByteOrder::LittleEndian => i32::read_from(&mut reader, bytestream::ByteOrder::LittleEndian),
    }
}

/// Writes `value` with bytestream's `<u8 as StreamWriter>::write_to` to the
/// end of `out`, which cannot fail on a vector: the byte is appended.
#[verifier::external_body]
fn stream_write_u8(value: u8, out: &mut Vec<u8>, order: ByteOrder) -> (r: Result<
    (),
    std::io::Error,
>)
    ensures
        r is Ok,
        final(out)@ == old(out)@ + seq![value],
{
    match order {
        ByteOrder::BigEndian => value.write_to(out, bytestream::ByteOrder::BigEndian),
        ByteOrder::LittleEndian => value.write_to(out, bytestream::ByteOrder::LittleEndian),
    }
}

/// Writes `value` with bytestream's `<bool as StreamWriter>::write_to` to the
/// end of `out`, which cannot fail on a vector: the byte 1 is appended for
/// true, the byte 0 for false.
#[verifier::external_body]
fn stream_write_bool(value: bool, out: &mut Vec<u8>, order: ByteOrder) -> (r: Result<
    (),
    std::io::Error,
>)
    ensures
        r is Ok,
        final(out)@ == old(out)@ + bool_bytes(value),
{
    match order {
        ByteOrder::BigEndian => value.write_to(out, bytestream::ByteOrder::BigEndian),
        ByteOrder::LittleEndian => value.write_to(out, bytestream::ByteOrder::LittleEndian),
    }
}

/// Writes `value` with bytestream's `<u16 as StreamWriter>::write_to` to the
/// end of `out`, which cannot fail on a vector: the two bytes that denote
/// `value` in `order` are appended.
#[verifier::external_body]
fn stream_write_u16(value: u16, out: &mut Vec<u8>, order: ByteOrder) -> (r: Result<
    (),
    std::io::Error,
>)
    ensures
        r is Ok,
        final(out)@ == old(out)@ + u16_bytes(value, order),
{
    match order {
        ByteOrder::BigEndian => value.write_to(out, bytestream::ByteOrder::BigEndian),
        ByteOrder::LittleEndian => value.write_to(out, bytestream::ByteOrder::LittleEndian),
    }
}

/// Writes `value` with bytestream's `<u32 as StreamWriter>::write_to` to the
/// end of `out`, which cannot fail on a vector: the four bytes that denote
/// `value` in `order` are appended.
#[verifier::external_body]
fn stream_write_u32(value: u32, out: &mut Vec<u8>, order: ByteOrder) -> (r: Result<
    (),
    std::io::Error,
>)
    ensures
        r is Ok,
        final(out)@ == old(out)@ + u32_bytes(value, order),
{
    match order {
        ByteOrder::BigEndian => value.write_to(out, bytestream::ByteOrder::BigEndian),
        ByteOrder::LittleEndian => value.write_to(out, bytestream::ByteOrder::LittleEndian),
    }
}

/// Writes `value` with bytestream's `<i16 as StreamWriter>::write_to` to the
/// end of `out`, which cannot fail on a vector: the two bytes that denote
/// `value` in two's complement and in `order` are appended.
#[verifier::external_body]
fn stream_write_i16(value: i16, out: &mut Vec<u8>, order: ByteOrder) -> (r: Result<
    (),
    std::io::Error,
>)
    ensures
        r is Ok,
        final(out)@ == old(out)@ + i16_bytes(value, order),
{
    match order {
        ByteOrder::BigEndian => value.write_to(out, bytestream::ByteOrder::BigEndian),
        ByteOrder::LittleEndian => value.write_to(out, bytestream::ByteOrder::LittleEndian),
    }
}

/// Writes `value` with bytestream's `<i32 as StreamWriter>::write_to` to the
/// end of `out`, which cannot fail on a vector: the four bytes that denote
/// `value` in two's complement and in `order` are appended.
#[verifier::external_body]
fn stream_write_i32(value: i32, out: &mut Vec<u8>, order: ByteOrder) -> (r: Result<
    (),
    std::io::Error,
>)
    ensures
        r is Ok,
        final(out)@ == old(out)@ + i32_bytes(value, order),
{
    match order {
        ByteOrder::BigEndian => value.write_to(out, bytestream::ByteOrder::BigEndian),
        ByteOrder::LittleEndian => value.write_to(out, bytestream::ByteOrder::LittleEndian),
    }
}

/// A position in a sequence of bytes, from which values are read forward.
pub struct Reader<'a> {
    /// All the bytes.
    pub data: &'a [u8],
    /// How many of them have been read.
    pub pos: usize,
}

impl<'a> Reader<'a> {
    /// The bytes that have not been read yet.
    pub open spec fn remaining(&self) -> Seq<u8> {
        if self.pos <= self.data@.len() {
            self.data@.skip(self.pos as int)
        } else {
            Seq::empty()
        }
    }

    /// Whether `n` more bytes can be read.
    pub open spec fn has(&self, n: int) -> bool {
        self.pos + n <= self.data@.len()
    }

    /// A reader at the start of `data`.
    pub fn new(data: &'a [u8]) -> (r: Self)
        ensures
            r.data@ == data@,
            r.pos == 0,
    {
        Reader { data, pos: 0 }
    }

    /// The unread bytes as a slice.
    fn rest(&self) -> (r: &'a [u8])
        ensures
            r@ == self.remaining(),
            self.data@.len() <= usize::MAX,
            forall|i: int| 0 <= i < r@.len() ==> r@[i] == self.data@[self.pos + i],
    {
        if self.pos <= self.data.len() {
            vstd::slice::slice_subrange(self.data, self.pos, self.data.len())
        } else {
            vstd::slice::slice_subrange(self.data, 0, 0)
        }
    }

    /// Reads a byte, or fails and stays where it is.
    pub fn read_u8(&mut self, order: ByteOrder) -> (r: Result<u8, Error>)
        ensures
            final(self).data == old(self).data,
            match r {
                Ok(v) => old(self).has(1) && v == old(self).data@[old(self).pos as int]
                    && final(self).pos == old(self).pos + 1,
                Err(e) => !old(self).has(1) && e is IOError && final(self).pos == old(self).pos,
            },
    {
        let rest = self.rest();
        match stream_read_u8(rest, order) {
            Ok(v) => {
                assert(rest@[0] == self.data@[self.pos + 0]);
                self.pos = self.pos + 1;
                Ok(v)
            },
            Err(e) => Err(Error::IOError(e)),
        }
    }

    /// Reads a truth value, or fails and stays where it is.
    pub fn read_bool(&mut self, order: ByteOrder) -> (r: Result<bool, Error>)
        ensures
            final(self).data == old(self).data,
            match r {
                Ok(v) => old(self).has(1) && v == bool_at(old(self).data@, old(self).pos as int)
                    && final(self).pos == old(self).pos + 1,
                Err(e) => !old(self).has(1) && e is IOError && final(self).pos == old(self).pos,
            },
    {
        let rest = self.rest();
        match stream_read_bool(rest, order) {
            Ok(v) => {
                assert(rest@[0] == self.data@[self.pos + 0]);
                self.pos = self.pos + 1;
                Ok(v)
            },
            Err(e) => Err(Error::IOError(e)),
        }
    }

    /// Reads a `u16` in `order`, or fails and stays where it is.
    pub fn read_u16(&mut self, order: ByteOrder) -> (r: Result<u16, Error>)
        ensures
            final(self).data == old(self).data,
            match r {
                Ok(v) => old(self).has(2) && v == u16_at(
                    old(self).data@,
                    old(self).pos as int,
                    order,
                ) && final(self).pos == old(self).pos + 2,
                Err(e) => !old(self).has(2) && e is IOError && final(self).pos == old(self).pos,
            },
    {
        let rest = self.rest();
        match stream_read_u16(rest, order) {
            Ok(v) => {
                assert(rest@[0] == self.data@[self.pos + 0]);
                assert(rest@[1] == self.data@[self.pos + 1]);
                self.pos = self.pos + 2;
                Ok(v)
            },
            Err(e) => Err(Error::IOError(e)),
        }
    }

    /// Reads a `u32` in `order`, or fails and stays where it is.
    pub fn read_u32(&mut self, order: ByteOrder) -> (r: Result<u32, Error>)
        ensures
            final(self).data == old(self).data,
            match r {
                Ok(v) => old(self).has(4) && v == u32_at(
                    old(self).data@,
                    old(self).pos as int,
                    order,
                ) && final(self).pos == old(self).pos + 4,
                Err(e) => !old(self).has(4) && e is IOError && final(self).pos == old(self).pos,
            },
    {
        let rest = self.rest();
        match stream_read_u32(rest, order) {
            Ok(v) => {
                assert(rest@[0] == self.data@[self.pos + 0]);
                assert(rest@[1] == self.data@[self.pos + 1]);
                assert(rest@[2] == self.data@[self.pos + 2]);
                assert(rest@[3] == self.data@[self.pos + 3]);
                self.pos = self.pos + 4;
                Ok(v)
            },
            Err(e) => Err(Error::IOError(e)),
        }
    }

    /// Reads an `i16` in `order`, or fails and stays where it is.
    pub fn read_i16(&mut self, order: ByteOrder) -> (r: Result<i16, Error>)
        ensures
            final(self).data == old(self).data,
            match r {
                Ok(v) => old(self).has(2) && v == i16_at(
                    old(self).data@,
                    old(self).pos as int,
                    order,
                ) && final(self).pos == old(self).pos + 2,
                Err(e) => !old(self).has(2) && e is IOError && final(self).pos == old(self).pos,
            },
    {
        let rest = self.rest();
        match stream_read_i16(rest, order) {
            Ok(v) => {
                assert(rest@[0] == self.data@[self.pos + 0]);
                assert(rest@[1] == self.data@[self.pos + 1]);
                self.pos = self.pos + 2;
                Ok(v)
            },
            Err(e) => Err(Error::IOError(e)),
        }
    }

    /// Reads an `i32` in `order`, or fails and stays where it is.
    pub fn read_i32(&mut self, order: ByteOrder) -> (r: Result<i32, Error>)
        ensures
            final(self).data == old(self).data,
            match r {
                Ok(v) => old(self).has(4) && v == i32_at(
                    old(self).data@,
                    old(self).pos as int,
                    order,
                ) && final(self).pos == old(self).pos + 4,
                Err(e) => !old(self).has(4) && e is IOError && final(self).pos == old(self).pos,
            },
    {
        let rest = self.rest();
        match stream_read_i32(rest, order) {
            Ok(v) => {
                assert(rest@[0] == self.data@[self.pos + 0]);
                assert(rest@[1] == self.data@[self.pos + 1]);
                assert(rest@[2] == self.data@[self.pos + 2]);
                assert(rest@[3] == self.data@[self.pos + 3]);
                self.pos = self.pos + 4;
                Ok(v)
            },
            Err(e) => Err(Error::IOError(e)),
        }
    }

    /// Reads `N` bytes, or fails and stays where it is.
    pub fn read_array<const N: usize>(&mut self, order: ByteOrder) -> (r: Result<[u8; N], Error>)
        ensures
            final(self).data == old(self).data,
            match r {
                Ok(v) => (N > 0 ==> old(self).has(N as int)) && final(self).pos == old(self).pos
                    + N && forall|k: int|
                    0 <= k < N ==> v@[k] == old(self).data@[old(self).pos + k],
                Err(e) => !old(self).has(N as int) && e is IOError && final(self).pos == old(
                    self,
                ).pos,
            },
    {
        let start = self.pos;
        let mut out = [0u8; N];
        let mut i: usize = 0;
        while i < N
            invariant
                self.data == old(self).data,
                start == old(self).pos,
                i <= N,
                self.pos == start + i,
                i > 0 ==> self.pos <= self.data@.len(),
                forall|k: int| 0 <= k < i ==> out@[k] == self.data@[start + k],
            decreases N - i,
        {
            match self.read_u8(order) {
                Ok(b) => {
                    out[i] = b;
                },
                Err(e) => {
                    self.pos = start;
                    return Err(e);
                },
            }
            i = i + 1;
        }
        Ok(out)
    }
}

/// Appends the bytes of `value` to `out`.
pub fn write_array<const N: usize>(value: &[u8; N], out: &mut Vec<u8>, order: ByteOrder) -> (r:
    Result<(), Error>)
    ensures
        r is Ok,
        final(out)@ == old(out)@ + value@,
{
    let mut i: usize = 0;
    while i < N
        invariant
            i <= N,
            out@ == old(out)@ + value@.take(i as int),
        decreases N - i,
    {
        write_u8(value[i], out, order)?;
        assert(out@ =~= old(out)@ + value@.take(i + 1));
        i = i + 1;
    }
    assert(value@.take(N as int) =~= value@);
    Ok(())
}

/// Appends a byte to `out`.
pub fn write_u8(value: u8, out: &mut Vec<u8>, order: ByteOrder) -> (r: Result<(), Error>)
    ensures
        r is Ok,
        final(out)@ == old(out)@ + seq![value],
{
    match stream_write_u8(value, out, order) {
        Ok(()) => Ok(()),
        Err(e) => Err(Error::IOError(e)),
    }
}

/// Appends the byte of a truth value to `out`.
pub fn write_bool(value: bool, out: &mut Vec<u8>, order: ByteOrder) -> (r: Result<(), Error>)
    ensures
        r is Ok,
        final(out)@ == old(out)@ + bool_bytes(value),
{
    match stream_write_bool(value, out, order) {
        Ok(()) => Ok(()),
        Err(e) => Err(Error::IOError(e)),
    }
}

/// Appends the two bytes of a `u16` in `order` to `out`.
pub fn write_u16(value: u16, out: &mut Vec<u8>, order: ByteOrder) -> (r: Result<(), Error>)
    ensures
        r is Ok,
        final(out)@ == old(out)@ + u16_bytes(value, order),
{
    match stream_write_u16(value, out, order) {
        Ok(()) => Ok(()),
        Err(e) => Err(Error::IOError(e)),
    }
}

/// Appends the four bytes of a `u32` in `order` to `out`.
pub fn write_u32(value: u32, out: &mut Vec<u8>, order: ByteOrder) -> (r: Result<(), Error>)
    ensures
        r is Ok,
        final(out)@ == old(out)@ + u32_bytes(value, order),
{
    match stream_write_u32(value, out, order) {
        Ok(()) => Ok(()),
        Err(e) => Err(Error::IOError(e)),
    }
}

/// Appends the two bytes of an `i16` in `order` to `out`.
pub fn write_i16(value: i16, out: &mut Vec<u8>, order: ByteOrder) -> (r: Result<(), Error>)
    ensures
        r is Ok,
        final(out)@ == old(out)@ + i16_bytes(value, order),
{
    match stream_write_i16(value, out, order) {
        Ok(()) => Ok(()),
        Err(e) => Err(Error::IOError(e)),
    }
}

/// Appends the four bytes of an `i32` in `order` to `out`.
pub fn write_i32(value: i32, out: &mut Vec<u8>, order: ByteOrder) -> (r: Result<(), Error>)
    ensures
        r is Ok,
        final(out)@ == old(out)@ + i32_bytes(value, order),
{
    match stream_write_i32(value, out, order) {
        Ok(()) => Ok(()),
        Err(e) => Err(Error::IOError(e)),
    }
}


/// Whether `r`, the outcome of a read that left the reader at `pos`, is what
/// `parsed` asks for: the value with that model and the position behind it, or
/// the error for that failure.
pub open spec fn read_outcome<T: View>(
    r: Result<T, Error>,
    parsed: Result<(T::V, int), Failure>,
    pos: usize,
) -> bool {
    match r {
        Ok(value) => parsed == Ok::<(T::V, int), Failure>((value@, pos as int)),
        Err(e) => parsed is Err && e.reports(parsed->Err_0),
    }
}

/// A value with a layout in bytes, read from a [`Reader`] and written to the
/// end of a vector.
///
/// What is read and written is stated over the model of the value. An impl
/// states it by spec functions of the type itself, `decoded` and `encoded`,
/// so that the layout of one type can be stated over that of another.
pub trait ByteStream: Sized + View {
    /// What a read at `pos` of `data` gives: the model of the value and the
    /// position behind it, or why there is no value.
    spec fn parse(data: Seq<u8>, pos: int, order: ByteOrder) -> Result<(Self::V, int), Failure>;

    /// The bytes that are written for a value with this model.
    spec fn encoding(value: Self::V, order: ByteOrder) -> Seq<u8>;

    /// Whether the written bytes can hold all of the value: every count and
    /// length fits the field that it is written to.
    spec fn representable(value: Self::V) -> bool;

    /// The value as it is read back from its own bytes: without what the bytes
    /// do not hold.
    spec fn canonical(value: Self::V) -> Self::V;

    /// Where `data` holds the bytes of a representable value, a read there
    /// gives the canonical form of the value and ends behind the bytes; the
    /// canonical form is written as the same bytes.
    proof fn lemma_parse_encoding(value: Self::V, order: ByteOrder, data: Seq<u8>, pos: int)
        requires
            Self::representable(value),
            holds_at(data, pos, Self::encoding(value, order)),
        ensures
            Self::parse(data, pos, order) == Ok::<(Self::V, int), Failure>(
                (Self::canonical(value), pos + Self::encoding(value, order).len()),
            ),
            Self::encoding(Self::canonical(value), order) == Self::encoding(value, order),
            Self::representable(Self::canonical(value)),
    ;

    /// Reads a value in `order` from where `reader` stands.
    fn read_from(reader: &mut Reader<'_>, order: ByteOrder) -> (r: Result<Self, Error>)
        ensures
            final(reader).data == old(reader).data,
            read_outcome(
                r,
                Self::parse(old(reader).data@, old(reader).pos as int, order),
                final(reader).pos,
            ),
    ;

    /// Appends the bytes of the value in `order` to `out`.
    fn write_to(&self, out: &mut Vec<u8>, order: ByteOrder) -> (r: Result<(), Error>)
        ensures
            r is Ok,
            final(out)@ == old(out)@ + Self::encoding(self@, order),
    ;
}

impl ByteStream for FloatBits {
    open spec fn parse(data: Seq<u8>, pos: int, order: ByteOrder) -> Result<
        (FloatBits, int),
        Failure,
    > {
        if pos + 4 <= data.len() {
            Ok((FloatBits { bits: u32_at(data, pos, order) }, pos + 4))
        } else {
            Err(Failure::Truncated)
        }
    }

    open spec fn encoding(value: FloatBits, order: ByteOrder) -> Seq<u8> {
        u32_bytes(value.bits, order)
    }

    open spec fn representable(value: FloatBits) -> bool {
        true
    }

    open spec fn canonical(value: FloatBits) -> FloatBits {
        value
    }

    proof fn lemma_parse_encoding(value: FloatBits, order: ByteOrder, data: Seq<u8>, pos: int) {
        lemma_holds_at_bounds(data, pos, u32_bytes(value.bits, order));
        lemma_u32_at_bytes(value.bits, order, data, pos);
    }

    fn read_from(reader: &mut Reader<'_>, order: ByteOrder) -> (r: Result<Self, Error>) {
        let bits = reader.read_u32(order)?;
        Ok(FloatBits { bits })
    }

    fn write_to(&self, out: &mut Vec<u8>, order: ByteOrder) -> (r: Result<(), Error>) {
        write_u32(self.bits, out, order)
    }
}

/// The color that the three bytes of `data` from `pos` on denote.
pub open spec fn color_at(data: Seq<u8>, pos: int) -> Color {
    Color { red: data[pos], green: data[pos + 1], blue: data[pos + 2] }
}

/// The three bytes that denote a color: red, green, blue.
pub open spec fn color_bytes(value: Color) -> Seq<u8> {
    seq![value.red, value.green, value.blue]
}

/// The three bytes written for a color are read back as that color.
pub proof fn lemma_color_at_bytes(value: Color, data: Seq<u8>, pos: int)
    requires
        holds_at(data, pos, color_bytes(value)),
    ensures
        color_at(data, pos) == value,
        pos + 3 <= data.len(),
{
    reveal(holds_at);
    let bytes = color_bytes(value);
    assert(data[pos + 0] == bytes[0]);
    assert(data[pos + 1] == bytes[1]);
    assert(data[pos + 2] == bytes[2]);
}

impl ByteStream for Color {
    open spec fn parse(data: Seq<u8>, pos: int, order: ByteOrder) -> Result<(Color, int), Failure> {
        if pos + 3 <= data.len() {
            Ok((color_at(data, pos), pos + 3))
        } else {
            Err(Failure::Truncated)
        }
    }

    open spec fn encoding(value: Color, order: ByteOrder) -> Seq<u8> {
        color_bytes(value)
    }

    open spec fn representable(value: Color) -> bool {
        true
    }

    open spec fn canonical(value: Color) -> Color {
        value
    }

    proof fn lemma_parse_encoding(value: Color, order: ByteOrder, data: Seq<u8>, pos: int) {
        lemma_color_at_bytes(value, data, pos);
    }

    fn read_from(reader: &mut Reader<'_>, order: ByteOrder) -> (r: Result<Self, Error>) {
        let red = reader.read_u8(order)?;
        let green = reader.read_u8(order)?;
        let blue = reader.read_u8(order)?;
        Ok(Color { red, green, blue })
    }

    fn write_to(&self, out: &mut Vec<u8>, order: ByteOrder) -> (r: Result<(), Error>) {
        write_u8(self.red, out, order)?;
        write_u8(self.green, out, order)?;
        write_u8(self.blue, out, order)?;
        assert(out@ =~= old(out)@ + Self::encoding(self@, order));
        Ok(())
    }
}


/// How many zero bytes follow a string of `n` bytes, so that the length byte,
/// the string and the zeros together fill a whole number of 4-byte words.
pub open spec fn padding(n: u8) -> int {
    (4 - (n + 1) % 4) % 4
}

/// Makes a string of `bytes` with `String::from_utf8` of std, which succeeds
/// exactly when the bytes are UTF-8 and then gives the text that they encode.
#[verifier::external_body]
fn string_from_utf8(bytes: Vec<u8>) -> (r: Result<String, std::string::FromUtf8Error>)
    ensures
        r is Ok <==> valid_utf8(bytes@),
        r matches Ok(s) ==> s@ == decode_utf8(bytes@),
{
    String::from_utf8(bytes)
}

impl VarLenString {
    /// What a read of a string at `pos` of `data` gives: a length byte, that
    /// many bytes of UTF-8, and the padding.
    pub open spec fn decoded(data: Seq<u8>, pos: int) -> Result<(Seq<char>, int), Failure> {
        if pos + 1 > data.len() {
            Err(Failure::Truncated)
        } else {
            let n = data[pos];
            let text = data.subrange(pos + 1, pos + 1 + n);
            if pos + 1 + n + padding(n) > data.len() {
                Err(Failure::Truncated)
            } else if !valid_utf8(text) {
                Err(Failure::InvalidUtf8)
            } else {
                Ok((decode_utf8(text), pos + 1 + n + padding(n)))
            }
        }
    }

    /// The bytes that are written for a string: the low byte of the length of
    /// its UTF-8 form, that form, and the padding for that length byte.
    pub open spec fn encoded(value: Seq<char>) -> Seq<u8> {
        let text = encode_utf8(value);
        let n = text.len() as u8;
        seq![n] + text + zeros(padding(n))
    }

    /// Whether the length of the string's UTF-8 form fits the length byte.
    pub open spec fn fits(value: Seq<char>) -> bool {
        encode_utf8(value).len() <= 255
    }
}

impl ByteStream for VarLenString {
    open spec fn parse(data: Seq<u8>, pos: int, order: ByteOrder) -> Result<
        (Seq<char>, int),
        Failure,
    > {
        Self::decoded(data, pos)
    }

    open spec fn encoding(value: Seq<char>, order: ByteOrder) -> Seq<u8> {
        Self::encoded(value)
    }

    open spec fn representable(value: Seq<char>) -> bool {
        Self::fits(value)
    }

    open spec fn canonical(value: Seq<char>) -> Seq<char> {
        value
    }

    proof fn lemma_parse_encoding(value: Seq<char>, order: ByteOrder, data: Seq<u8>, pos: int) {
        let text = encode_utf8(value);
        let n = text.len() as u8;
        let pad = zeros(padding(n));
        assert(n == text.len());
        lemma_holds_at_bounds(data, pos, seq![n] + text + pad);
        lemma_holds_at_concat(data, pos, seq![n] + text, pad);
        lemma_holds_at_concat(data, pos, seq![n], text);
        lemma_u8_at_bytes(n, data, pos);
        lemma_holds_at_subrange(data, pos + 1, text);
        encode_utf8_valid_utf8(value);
        encode_utf8_decode_utf8(value);
    }

    fn read_from(reader: &mut Reader<'_>, order: ByteOrder) -> (r: Result<Self, Error>) {
        let ghost data = reader.data@;
        let ghost start = reader.pos as int;
        let size = reader.read_u8(order)?;
        let mut bytes: Vec<u8> = Vec::new();
        let mut i: u8 = 0;
        while i < size
            invariant
                reader.data@ == data,
                reader.data == old(reader).data,
                start == old(reader).pos,
                0 <= start,
                start + 1 <= data.len(),
                size == data[start],
                i <= size,
                reader.pos == start + 1 + i,
                reader.pos <= data.len(),
                bytes@ == data.subrange(start + 1, start + 1 + i),
            decreases size - i,
        {
            match reader.read_u8(order) {
                Ok(b) => {
                    bytes.push(b);
                    assert(bytes@ =~= data.subrange(start + 1, start + 1 + i + 1));
                },
                Err(e) => {
                    return Err(e);
                },
            }
            i = i + 1;
        }
        let pad: u8 = (4 - (size as u16 + 1) % 4) as u8 % 4;
        let mut j: u8 = 0;
        while j < pad
            invariant
                reader.data@ == data,
                reader.data == old(reader).data,
                start == old(reader).pos,
                0 <= start,
                start + 1 <= data.len(),
                size == data[start],
                bytes@ == data.subrange(start + 1, start + 1 + size),
                pad == padding(size),
                j <= pad,
                reader.pos == start + 1 + size + j,
                reader.pos <= data.len(),
            decreases pad - j,
        {
            match reader.read_u8(order) {
                Ok(_) => {},
                Err(e) => {
                    return Err(e);
                },
            }
            j = j + 1;
        }
        match string_from_utf8(bytes) {
            Ok(text) => Ok(VarLenString(text)),
            Err(e) => Err(Error::StringUtf8Error(e)),
        }
    }

    fn write_to(&self, out: &mut Vec<u8>, order: ByteOrder) -> (r: Result<(), Error>) {
        let bytes = self.0.as_str().as_bytes();
        let size = #[verifier::truncate] (bytes.len() as u8);
        write_u8(size, out, order)?;
        out.extend_from_slice(bytes);
        let pad: u8 = (4 - (size as u16 + 1) % 4) as u8 % 4;
        let mut j: u8 = 0;
        while j < pad
            invariant
                pad == padding(size),
                j <= pad,
                out@ == old(out)@ + seq![size] + bytes@ + zeros(j as int),
            decreases pad - j,
        {
            write_u8(0, out, order)?;
            assert(zeros(j as int) + seq![0u8] =~= zeros(j + 1));
            assert(out@ =~= old(out)@ + seq![size] + bytes@ + zeros(j + 1));
            j = j + 1;
        }
        assert(out@ =~= old(out)@ + Self::encoding(self@, order));
        Ok(())
    }
}

/// What `count` reads with `read`, one behind the other, give at `pos` of
/// `data`.
pub open spec fn parse_seq<V>(
    data: Seq<u8>,
    pos: int,
    count: nat,
    read: spec_fn(Seq<u8>, int) -> Result<(V, int), Failure>,
) -> Result<(Seq<V>, int), Failure>
    decreases count,
{
    if count == 0 {
        Ok((Seq::empty(), pos))
    } else {
        match parse_seq(data, pos, (count - 1) as nat, read) {
            Err(failure) => Err(failure),
            Ok((items, mid)) => match read(data, mid) {
                Err(failure) => Err(failure),
                Ok((item, end)) => Ok((items.push(item), end)),
            },
        }
    }
}

/// Padded string invariant: a text whose UTF-8 form has at most 255 bytes is
/// read back from its bytes as the same text, and the bytes fill a whole
/// number of 4-byte words.
pub proof fn lemma_padded_string(text: Seq<char>)
    requires
        VarLenString::fits(text),
    ensures
        VarLenString::decoded(VarLenString::encoded(text), 0) == Ok::<(Seq<char>, int), Failure>(
            (text, VarLenString::encoded(text).len() as int),
        ),
        VarLenString::encoded(text).len() % 4 == 0,
{
    let bytes = VarLenString::encoded(text);
    lemma_holds_at_start(bytes);
    VarLenString::lemma_parse_encoding(text, ByteOrder::LittleEndian, bytes, 0);
}

/// The bytes that `write` gives for each value of a sequence, one behind the
/// other.
pub open spec fn seq_encoding<V>(items: Seq<V>, write: spec_fn(V) -> Seq<u8>) -> Seq<u8>
    decreases items.len(),
{
    if items.len() == 0 {
        Seq::empty()
    } else {
        seq_encoding(items.drop_last(), write) + write(items.last())
    }
}

/// The models of the values of a sequence.
pub open spec fn views<T: View>(items: Seq<T>) -> Seq<T::V> {
    Seq::new(items.len(), |i: int| items[i]@)
}

/// What a read of `count` values, one behind the other, gives at `pos` of
/// `data`: their models and the position behind the last, or the failure of
/// the first value that cannot be read.
pub open spec fn parse_list<T: ByteStream>(
    data: Seq<u8>,
    pos: int,
    count: nat,
    order: ByteOrder,
) -> Result<(Seq<T::V>, int), Failure>
    decreases count,
{
    if count == 0 {
        Ok((Seq::empty(), pos))
    } else {
        match parse_list::<T>(data, pos, (count - 1) as nat, order) {
            Err(failure) => Err(failure),
            Ok((items, mid)) => match T::parse(data, mid, order) {
                Err(failure) => Err(failure),
                Ok((item, end)) => Ok((items.push(item), end)),
            },
        }
    }
}

/// The bytes that are written for a sequence of values: those of each value,
/// one behind the other.
pub open spec fn list_encoding<T: ByteStream>(items: Seq<T::V>, order: ByteOrder) -> Seq<u8>
    decreases items.len(),
{
    if items.len() == 0 {
        Seq::empty()
    } else {
        list_encoding::<T>(items.drop_last(), order) + T::encoding(items.last(), order)
    }
}

/// Whether each value of a sequence is representable.
pub open spec fn list_representable<T: ByteStream>(items: Seq<T::V>) -> bool {
    forall|i: int| 0 <= i < items.len() ==> T::representable(#[trigger] items[i])
}

/// The canonical forms of the values of a sequence.
pub open spec fn list_canonical<T: ByteStream>(items: Seq<T::V>) -> Seq<T::V> {
    Seq::new(items.len(), |i: int| T::canonical(items[i]))
}

/// A read of values that fails after some of them fails in the same way when
/// more are asked for.
pub proof fn lemma_parse_list_fails<T: ByteStream>(
    data: Seq<u8>,
    pos: int,
    count: nat,
    more: nat,
    order: ByteOrder,
)
    requires
        count <= more,
        parse_list::<T>(data, pos, count, order) is Err,
    ensures
        parse_list::<T>(data, pos, more, order) == parse_list::<T>(data, pos, count, order),
    decreases more,
{
    if count < more {
        lemma_parse_list_fails::<T>(data, pos, count, (more - 1) as nat, order);
    }
}

/// Where `data` holds the bytes of a sequence of representable values, a read
/// of as many values there gives their canonical forms and ends behind the
/// bytes; the canonical forms are written as the same bytes.
pub proof fn lemma_parse_list_encoding<T: ByteStream>(
    items: Seq<T::V>,
    order: ByteOrder,
    data: Seq<u8>,
    pos: int,
)
    requires
        list_representable::<T>(items),
        holds_at(data, pos, list_encoding::<T>(items, order)),
    ensures
        parse_list::<T>(data, pos, items.len(), order) == Ok::<(Seq<T::V>, int), Failure>(
            (list_canonical::<T>(items), pos + list_encoding::<T>(items, order).len()),
        ),
        list_encoding::<T>(list_canonical::<T>(items), order) == list_encoding::<T>(items, order),
        list_representable::<T>(list_canonical::<T>(items)),
    decreases items.len(),
{
    if items.len() > 0 {
        let front = items.drop_last();
        let front_bytes = list_encoding::<T>(front, order);
        lemma_holds_at_concat(data, pos, front_bytes, T::encoding(items.last(), order));
        lemma_parse_list_encoding::<T>(front, order, data, pos);
        T::lemma_parse_encoding(items.last(), order, data, pos + front_bytes.len());
        assert(list_canonical::<T>(items) =~= list_canonical::<T>(front).push(
            T::canonical(items.last()),
        ));
        assert(list_canonical::<T>(items).drop_last() =~= list_canonical::<T>(front));
        assert(list_canonical::<T>(items).last() == T::canonical(items.last()));
    } else {
        assert(list_canonical::<T>(items) =~= Seq::empty());
    }
}

/// A read of a list of values is a sequence of reads with any function that
/// reads as the values' type does.
pub proof fn lemma_parse_list_seq<T: ByteStream>(
    data: Seq<u8>,
    pos: int,
    count: nat,
    order: ByteOrder,
    read: spec_fn(Seq<u8>, int) -> Result<(T::V, int), Failure>,
)
    requires
        forall|d: Seq<u8>, p: int| #[trigger] read(d, p) == T::parse(d, p, order),
    ensures
        parse_list::<T>(data, pos, count, order) == parse_seq(data, pos, count, read),
    decreases count,
{
    if count > 0 {
        lemma_parse_list_seq::<T>(data, pos, (count - 1) as nat, order, read);
    }
}

/// The bytes of a list of values are those that any function gives which
/// writes as the values' type does.
pub proof fn lemma_list_encoding_seq<T: ByteStream>(
    items: Seq<T::V>,
    order: ByteOrder,
    write: spec_fn(T::V) -> Seq<u8>,
)
    requires
        forall|v: T::V| #[trigger] write(v) == T::encoding(v, order),
    ensures
        list_encoding::<T>(items, order) == seq_encoding(items, write),
    decreases items.len(),
{
    if items.len() > 0 {
        lemma_list_encoding_seq::<T>(items.drop_last(), order, write);
    }
}

/// Reads `count` values in `order`, one behind the other.
pub fn read_list<T: ByteStream>(reader: &mut Reader<'_>, count: usize, order: ByteOrder) -> (r:
    Result<Vec<T>, Error>)
    ensures
        final(reader).data == old(reader).data,
        match r {
            Ok(items) => parse_list::<T>(
                old(reader).data@,
                old(reader).pos as int,
                count as nat,
                order,
            ) == Ok::<(Seq<T::V>, int), Failure>((views(items@), final(reader).pos as int)),
            Err(e) => {
                let parsed = parse_list::<T>(
                    old(reader).data@,
                    old(reader).pos as int,
                    count as nat,
                    order,
                );
                parsed is Err && e.reports(parsed->Err_0)
            },
        },
{
    let ghost data = reader.data@;
    let ghost start = reader.pos as int;
    let mut items: Vec<T> = Vec::new();
    let mut i: usize = 0;
    assert(views(items@) =~= Seq::<T::V>::empty());
    while i < count
        invariant
            reader.data@ == data,
            reader.data == old(reader).data,
            start == old(reader).pos,
            i <= count,
            parse_list::<T>(data, start, i as nat, order) == Ok::<(Seq<T::V>, int), Failure>(
                (views(items@), reader.pos as int),
            ),
        decreases count - i,
    {
        let ghost before = items@;
        let ghost at = reader.pos as int;
        assert(parse_list::<T>(data, start, ((i + 1) as nat - 1) as nat, order) == Ok::<
            (Seq<T::V>, int),
            Failure,
        >((views(before), at)));
        match T::read_from(reader, order) {
            Ok(item) => {
                items.push(item);
                assert(views(items@) =~= views(before).push(item@));
            },
            Err(e) => {
                proof {
                    assert(parse_list::<T>(data, start, (i + 1) as nat, order) is Err);
                    lemma_parse_list_fails::<T>(data, start, (i + 1) as nat, count as nat, order);
                }
                return Err(e);
            },
        }
        i = i + 1;
    }
    Ok(items)
}

/// Appends the bytes of each value of `items` in `order` to `out`.
pub fn write_list<T: ByteStream>(items: &Vec<T>, out: &mut Vec<u8>, order: ByteOrder) -> (r: Result<
    (),
    Error,
>)
    ensures
        r is Ok,
        final(out)@ == old(out)@ + list_encoding::<T>(views(items@), order),
{
    let mut i: usize = 0;
    assert(views(items@).take(0) =~= Seq::<T::V>::empty());
    assert(out@ =~= old(out)@ + list_encoding::<T>(views(items@).take(0), order));
    while i < items.len()
        invariant
            i <= items.len(),
            out@ == old(out)@ + list_encoding::<T>(views(items@).take(i as int), order),
        decreases items.len() - i,
    {
        let ghost before = out@;
        items[i].write_to(out, order)?;
        proof {
            let front = views(items@).take(i as int);
            let next = views(items@).take(i + 1);
            assert(next.drop_last() =~= front);
            assert(next.last() == items[i as int]@);
            assert(out@ =~= old(out)@ + list_encoding::<T>(next, order));
        }
        i = i + 1;
    }
    assert(views(items@).take(items.len() as int) =~= views(items@));
    Ok(())
}

} // verus!

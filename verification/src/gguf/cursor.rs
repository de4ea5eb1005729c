//! A position in a byte string and the little-endian numbers that can be read from there.
use byteorder::{LittleEndian, ReadBytesExt};
use vstd::prelude::*;
use vstd::string::*;
use vstd::utf8::*;

use crate::error::{ErrorView, LociContext, LociError};

verus! {

/// The number that bytes denote, the least significant byte first.
pub open spec fn le_value(bytes: Seq<u8>) -> nat
    decreases bytes.len(),
{
    if bytes.len() == 0 {
        0
    } else {
        bytes[0] as nat + 256 * le_value(bytes.skip(1))
    }
}

/// The integer of `width` bytes whose two's complement pattern is `n`.
pub open spec fn signed(n: nat, width: int) -> int {
    if width == 1 {
        if n >= 0x80 {
            n - 0x100
        } else {
            n as int
        }
    } else if width == 2 {
        if n >= 0x8000 {
            n - 0x1_0000
        } else {
            n as int
        }
    } else if width == 4 {
        if n >= 0x8000_0000 {
            n - 0x1_0000_0000
        } else {
            n as int
        }
    } else {
        if n >= 0x8000_0000_0000_0000 {
            n - 0x1_0000_0000_0000_0000
        } else {
            n as int
        }
    }
}

/// What a step of the parser makes of the bytes: the value or the error, and where it stops.
pub struct Parsed<V> {
    pub outcome: Result<V, ErrorView>,
    pub position: int,
}

/// The value of a parser step, changed by `f`.
pub open spec fn mapped<V, W>(parsed: Parsed<V>, f: spec_fn(V) -> W) -> Parsed<W> {
    Parsed {
        outcome: match parsed.outcome {
            Ok(v) => Ok(f(v)),
            Err(e) => Err(e),
        },
        position: parsed.position,
    }
}

/// A read past the end of the bytes.
pub open spec fn end_of_input(context: Seq<char>) -> ErrorView {
    ErrorView::IoWithContext { context, source: "failed to fill whole buffer"@ }
}

/// An unsigned number of `width` bytes. A failed read stops at the end of the bytes.
pub open spec fn parse_uint(data: Seq<u8>, pos: int, width: int, context: Seq<char>) -> Parsed<
    nat,
> {
    if pos + width <= data.len() {
        Parsed { outcome: Ok(le_value(data.subrange(pos, pos + width))), position: pos + width }
    } else {
        Parsed { outcome: Err(end_of_input(context)), position: data.len() as int }
    }
}

/// A signed number of `width` bytes.
pub open spec fn parse_int(data: Seq<u8>, pos: int, width: int, context: Seq<char>) -> Parsed<int> {
    mapped(parse_uint(data, pos, width, context), |n: nat| signed(n, width))
}

/// The result and the position reached are the expected ones; `model` is what a value stands for.
pub open spec fn yields<T, V>(
    result: Result<T, LociError>,
    position: u64,
    expected: Parsed<V>,
    model: spec_fn(T) -> V,
) -> bool {
    &&& position == expected.position
    &&& match result {
        Ok(v) => expected.outcome == Ok::<V, ErrorView>(model(v)),
        Err(e) => expected.outcome == Err::<V, ErrorView>(e@),
    }
}

/// `ReadBytesExt::read_u8` takes the first byte; it fails if there is none.
#[verifier::external_body]
fn first_u8(bytes: &[u8]) -> (result: Option<u8>)
    ensures
        result is Some <==> bytes@.len() >= 1,
        result matches Some(v) ==> v == bytes@[0],
{
    let mut rest: &[u8] = bytes;
    rest.read_u8().ok()
}

/// `ReadBytesExt::read_i8` takes the first byte as a signed number; it fails if there is none.
#[verifier::external_body]
fn first_i8(bytes: &[u8]) -> (result: Option<i8>)
    ensures
        result is Some <==> bytes@.len() >= 1,
        result matches Some(v) ==> v == signed(bytes@[0] as nat, 1),
{
    let mut rest: &[u8] = bytes;
    rest.read_i8().ok()
}

/// `ReadBytesExt::read_u16` in little-endian order takes the first two bytes; it fails if there
/// are fewer.
#[verifier::external_body]
fn first_u16(bytes: &[u8]) -> (result: Option<u16>)
    ensures
        result is Some <==> bytes@.len() >= 2,
        result matches Some(v) ==> v == le_value(bytes@.subrange(0, 2)),
{
    let mut rest: &[u8] = bytes;
    rest.read_u16::<LittleEndian>().ok()
}

/// `ReadBytesExt::read_i16` in little-endian order takes the first two bytes as a signed number;
/// it fails if there are fewer.
#[verifier::external_body]
fn first_i16(bytes: &[u8]) -> (result: Option<i16>)
    ensures
        result is Some <==> bytes@.len() >= 2,
        result matches Some(v) ==> v == signed(le_value(bytes@.subrange(0, 2)), 2),
{
    let mut rest: &[u8] = bytes;
    rest.read_i16::<LittleEndian>().ok()
}

/// `ReadBytesExt::read_u32` in little-endian order takes the first four bytes; it fails if there
/// are fewer.
#[verifier::external_body]
fn first_u32(bytes: &[u8]) -> (result: Option<u32>)
    ensures
        result is Some <==> bytes@.len() >= 4,
        result matches Some(v) ==> v == le_value(bytes@.subrange(0, 4)),
{
    let mut rest: &[u8] = bytes;
    rest.read_u32::<LittleEndian>().ok()
}

/// `ReadBytesExt::read_i32` in little-endian order takes the first four bytes as a signed number;
/// it fails if there are fewer.
#[verifier::external_body]
fn first_i32(bytes: &[u8]) -> (result: Option<i32>)
    ensures
        result is Some <==> bytes@.len() >= 4,
        result matches Some(v) ==> v == signed(le_value(bytes@.subrange(0, 4)), 4),
{
    let mut rest: &[u8] = bytes;
    rest.read_i32::<LittleEndian>().ok()
}

/// `ReadBytesExt::read_u64` in little-endian order takes the first eight bytes; it fails if there
/// are fewer.
#[verifier::external_body]
fn first_u64(bytes: &[u8]) -> (result: Option<u64>)
    ensures
        result is Some <==> bytes@.len() >= 8,
        result matches Some(v) ==> v == le_value(bytes@.subrange(0, 8)),
{
    let mut rest: &[u8] = bytes;
    rest.read_u64::<LittleEndian>().ok()
}

/// `ReadBytesExt::read_i64` in little-endian order takes the first eight bytes as a signed
/// number; it fails if there are fewer.
#[verifier::external_body]
fn first_i64(bytes: &[u8]) -> (result: Option<i64>)
    ensures
        result is Some <==> bytes@.len() >= 8,
        result matches Some(v) ==> v == signed(le_value(bytes@.subrange(0, 8)), 8),
{
    let mut rest: &[u8] = bytes;
    rest.read_i64::<LittleEndian>().ok()
}

/// The text that `String::from_utf8` reports for bytes that are no valid UTF-8.
pub uninterp spec fn utf8_error_text(bytes: Seq<u8>) -> Seq<char>;

/// `String::from_utf8` turns valid UTF-8 into the text that it encodes and reports anything else.
#[verifier::external_body]
fn decoded(bytes: Vec<u8>) -> (result: Result<String, String>)
    ensures
        result is Ok <==> valid_utf8(bytes@),
        result matches Ok(text) ==> text@ == decode_utf8(bytes@),
        result matches Err(text) ==> text@ == utf8_error_text(bytes@),
{
    String::from_utf8(bytes).map_err(|e| e.to_string())
}

/// Bytes and a position in them. The position may lie past the end.
pub struct ByteCursor<'a> {
    pub bytes: &'a [u8],
    pub position: u64,
}

fn short_read<T>(context: &'static str) -> (result: Result<T, LociError>)
    ensures
        result is Err,
        result->Err_0@ == end_of_input(context@),
{
    let failed: Result<T, String> = Err(String::from_str("failed to fill whole buffer"));
    failed.io_ctx(context)
}

impl<'a> ByteCursor<'a> {
    pub fn new(bytes: &'a [u8]) -> (result: Self)
        ensures
            result.bytes@ == bytes@,
            result.position == 0,
    {
        ByteCursor { bytes, position: 0 }
    }

    /// The bytes from the position on.
    fn rest(&self) -> (result: &'a [u8])
        ensures
            self.position <= self.bytes@.len() ==> result@ == self.bytes@.skip(
                self.position as int,
            ),
            self.position > self.bytes@.len() ==> result@.len() == 0,
            self.bytes@.len() <= u64::MAX,
    {
        let len: usize = self.bytes.len();
        if self.position <= len as u64 {
            vstd::slice::slice_subrange(self.bytes, self.position as usize, len)
        } else {
            vstd::slice::slice_subrange(self.bytes, len, len)
        }
    }

    fn to_end(&mut self)
        ensures
            final(self).bytes == old(self).bytes,
            final(self).position == old(self).bytes@.len(),
    {
        self.position = self.bytes.len() as u64;
    }

    pub fn read_u8(&mut self, context: &'static str) -> (result: Result<u8, LociError>)
        ensures
            final(self).bytes == old(self).bytes,
            yields(
                result,
                final(self).position,
                parse_uint(old(self).bytes@, old(self).position as int, 1, context@),
                |v: u8| v as nat,
            ),
    {
        match first_u8(self.rest()) {
            Some(v) => {
                proof {
                    let b = self.bytes@.subrange(self.position as int, self.position + 1);
                    reveal_with_fuel(le_value, 2);
                    assert(le_value(b) == b[0]);
                }
                self.position = self.position + 1;
                Ok(v)
            },
            None => {
                self.to_end();
                short_read(context)
            },
        }
    }

    pub fn read_i8(&mut self, context: &'static str) -> (result: Result<i8, LociError>)
        ensures
            final(self).bytes == old(self).bytes,
            yields(
                result,
                final(self).position,
                parse_int(old(self).bytes@, old(self).position as int, 1, context@),
                |v: i8| v as int,
            ),
    {
        match first_i8(self.rest()) {
            Some(v) => {
                proof {
                    let b = self.bytes@.subrange(self.position as int, self.position + 1);
                    reveal_with_fuel(le_value, 2);
                    assert(le_value(b) == b[0]);
                }
                self.position = self.position + 1;
                Ok(v)
            },
            None => {
                self.to_end();
                short_read(context)
            },
        }
    }

    pub fn read_u16(&mut self, context: &'static str) -> (result: Result<u16, LociError>)
        ensures
            final(self).bytes == old(self).bytes,
            yields(
                result,
                final(self).position,
                parse_uint(old(self).bytes@, old(self).position as int, 2, context@),
                |v: u16| v as nat,
            ),
    {
        let rest = self.rest();
        match first_u16(rest) {
            Some(v) => {
                assert(rest@.subrange(0, 2) =~= self.bytes@.subrange(
                    self.position as int,
                    self.position + 2,
                ));
                self.position = self.position + 2;
                Ok(v)
            },
            None => {
                self.to_end();
                short_read(context)
            },
        }
    }

    pub fn read_i16(&mut self, context: &'static str) -> (result: Result<i16, LociError>)
        ensures
            final(self).bytes == old(self).bytes,
            yields(
                result,
                final(self).position,
                parse_int(old(self).bytes@, old(self).position as int, 2, context@),
                |v: i16| v as int,
            ),
    {
        let rest = self.rest();
        match first_i16(rest) {
            Some(v) => {
                assert(rest@.subrange(0, 2) =~= self.bytes@.subrange(
                    self.position as int,
                    self.position + 2,
                ));
                self.position = self.position + 2;
                Ok(v)
            },
            None => {
                self.to_end();
                short_read(context)
            },
        }
    }

    pub fn read_u32(&mut self, context: &'static str) -> (result: Result<u32, LociError>)
        ensures
            final(self).bytes == old(self).bytes,
            yields(
                result,
                final(self).position,
                parse_uint(old(self).bytes@, old(self).position as int, 4, context@),
                |v: u32| v as nat,
            ),
    {
        let rest = self.rest();
        match first_u32(rest) {
            Some(v) => {
                assert(rest@.subrange(0, 4) =~= self.bytes@.subrange(
                    self.position as int,
                    self.position + 4,
                ));
                self.position = self.position + 4;
                Ok(v)
            },
            None => {
                self.to_end();
                short_read(context)
            },
        }
    }

    pub fn read_i32(&mut self, context: &'static str) -> (result: Result<i32, LociError>)
        ensures
            final(self).bytes == old(self).bytes,
            yields(
                result,
                final(self).position,
                parse_int(old(self).bytes@, old(self).position as int, 4, context@),
                |v: i32| v as int,
            ),
    {
        let rest = self.rest();
        match first_i32(rest) {
            Some(v) => {
                assert(rest@.subrange(0, 4) =~= self.bytes@.subrange(
                    self.position as int,
                    self.position + 4,
                ));
                self.position = self.position + 4;
                Ok(v)
            },
            None => {
                self.to_end();
                short_read(context)
            },
        }
    }

    pub fn read_u64(&mut self, context: &'static str) -> (result: Result<u64, LociError>)
        ensures
            final(self).bytes == old(self).bytes,
            yields(
                result,
                final(self).position,
                parse_uint(old(self).bytes@, old(self).position as int, 8, context@),
                |v: u64| v as nat,
            ),
    {
        let rest = self.rest();
        match first_u64(rest) {
            Some(v) => {
                assert(rest@.subrange(0, 8) =~= self.bytes@.subrange(
                    self.position as int,
                    self.position + 8,
                ));
                self.position = self.position + 8;
                Ok(v)
            },
            None => {
                self.to_end();
                short_read(context)
            },
        }
    }

    pub fn read_i64(&mut self, context: &'static str) -> (result: Result<i64, LociError>)
        ensures
            final(self).bytes == old(self).bytes,
            yields(
                result,
                final(self).position,
                parse_int(old(self).bytes@, old(self).position as int, 8, context@),
                |v: i64| v as int,
            ),
    {
        let rest = self.rest();
        match first_i64(rest) {
            Some(v) => {
                assert(rest@.subrange(0, 8) =~= self.bytes@.subrange(
                    self.position as int,
                    self.position + 8,
                ));
                self.position = self.position + 8;
                Ok(v)
            },
            None => {
                self.to_end();
                short_read(context)
            },
        }
    }

    /// Takes the next `n` bytes. Taking none always succeeds.
    pub fn read_bytes(&mut self, n: u64, context: &'static str) -> (result: Result<
        Vec<u8>,
        LociError,
    >)
        ensures
            final(self).bytes == old(self).bytes,
            yields(
                result,
                final(self).position,
                parse_bytes(old(self).bytes@, old(self).position as int, n as int, context@),
                |v: Vec<u8>| v@,
            ),
    {
        if n == 0 {
            return Ok(Vec::new());
        }
        let len: u64 = self.bytes.len() as u64;
        if self.position > len || n > len - self.position {
            self.to_end();
            return short_read(context);
        }
        let from: usize = self.position as usize;
        let to: usize = (self.position + n) as usize;
        self.position = self.position + n;
        Ok(vstd::slice::slice_to_vec(vstd::slice::slice_subrange(self.bytes, from, to)))
    }
}

/// The next `n` bytes.
pub open spec fn parse_bytes(data: Seq<u8>, pos: int, n: int, context: Seq<char>) -> Parsed<
    Seq<u8>,
> {
    if n == 0 {
        Parsed { outcome: Ok(seq![]), position: pos }
    } else if pos + n <= data.len() {
        Parsed { outcome: Ok(data.subrange(pos, pos + n)), position: pos + n }
    } else {
        Parsed { outcome: Err(end_of_input(context)), position: data.len() as int }
    }
}

/// The text that bytes encode, or the error for the text that starts at `offset`.
pub open spec fn text_or_error(bytes: Seq<u8>, offset: int) -> Result<Seq<char>, ErrorView> {
    if valid_utf8(bytes) {
        Ok(decode_utf8(bytes))
    } else {
        Err(ErrorView::InvalidUtf8 { offset: offset as u64, source: utf8_error_text(bytes) })
    }
}

/// Decodes the bytes of a text that starts at `offset`.
pub fn decode_text(bytes: Vec<u8>, offset: u64) -> (result: Result<String, LociError>)
    ensures
        match result {
            Ok(text) => text_or_error(bytes@, offset as int) == Ok::<Seq<char>, ErrorView>(text@),
            Err(e) => text_or_error(bytes@, offset as int) == Err::<Seq<char>, ErrorView>(e@),
        },
{
    match decoded(bytes) {
        Ok(text) => Ok(text),
        Err(source) => Err(LociError::InvalidUtf8 { offset, source }),
    }
}

} // verus!

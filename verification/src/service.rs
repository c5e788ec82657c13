//! The framed-message codec, over an in-memory byte stream.
//!
//! Every integer on the wire is big-endian. A message is a four-byte header,
//! the total size and the type as two 16-bit integers, and then `size - 4`
//! bytes of body.
//!
//! A read that fails takes nothing from the stream, and a write that fails
//! puts nothing into it.

use vstd::prelude::*;
use vstd::utf8::{decode_utf8, encode_utf8, valid_utf8};
use std::collections::VecDeque;
use crate::error::{io_error, io_error_kind, Error, ResultError};

verus! {

/// The largest body that fits in one message: the size field counts the header too.
pub const MAX_BODY_LEN: usize = 65531;

/// The two bytes of `x` on the wire, most significant first.
pub open spec fn spec_u16_be(x: u16) -> Seq<u8> {
    seq![(x / 256) as u8, (x % 256) as u8]
}

/// The integer that the first two bytes of `s` stand for.
pub open spec fn spec_u16_from_be(s: Seq<u8>) -> u16 {
    (s[0] * 256 + s[1]) as u16
}

/// The four bytes of `x` on the wire, most significant first.
pub open spec fn spec_u32_be(x: u32) -> Seq<u8> {
    seq![
        (x / 0x100_0000) as u8,
        ((x / 0x1_0000) % 256) as u8,
        ((x / 0x100) % 256) as u8,
        (x % 256) as u8,
    ]
}

/// The integer that the first four bytes of `s` stand for.
pub open spec fn spec_u32_from_be(s: Seq<u8>) -> u32 {
    (s[0] * 0x100_0000 + s[1] * 0x1_0000 + s[2] * 0x100 + s[3]) as u32
}

/// Decoding what was encoded gives the integer back, and encoding what was
/// decoded gives the bytes back: the big-endian form is a bijection between
/// the 16-bit integers and the byte strings of length two.
pub proof fn lemma_u16_be_roundtrip(x: u16, s: Seq<u8>)
    ensures
        spec_u16_be(x).len() == 2,
        spec_u16_from_be(spec_u16_be(x)) == x,
        s.len() == 2 ==> spec_u16_be(spec_u16_from_be(s)) == s,
{
    if s.len() == 2 {
        assert(spec_u16_be(spec_u16_from_be(s)) =~= s);
    }
}

/// The same for 32-bit integers and byte strings of length four.
pub proof fn lemma_u32_be_roundtrip(x: u32, s: Seq<u8>)
    ensures
        spec_u32_be(x).len() == 4,
        spec_u32_from_be(spec_u32_be(x)) == x,
        s.len() == 4 ==> spec_u32_be(spec_u32_from_be(s)) == s,
{
    assert((x / 0x100_0000) * 0x100_0000 + ((x / 0x1_0000) % 256) * 0x1_0000 + ((x / 0x100) % 256)
        * 0x100 + (x % 256) == x) by (bit_vector);
    assert(x / 0x100_0000 < 256) by (bit_vector);
    if s.len() == 4 {
        let a: u8 = s[0];
        let b: u8 = s[1];
        let c: u8 = s[2];
        let d: u8 = s[3];
        let v: u32 = spec_u32_from_be(s);
        assert(v == a * 0x100_0000 + b * 0x1_0000 + c * 0x100 + d);
        assert(v / 0x100_0000 == a && (v / 0x1_0000) % 256 == b && (v / 0x100) % 256 == c && v
            % 256 == d) by (bit_vector)
            requires
                v == a * 0x100_0000 + b * 0x1_0000 + c * 0x100 + d,
        ;
        assert(spec_u32_be(v) =~= s);
    }
}

/// The first byte on the wire carries the highest bits: of two integers, the
/// one whose first byte is the smaller is the smaller.
pub proof fn lemma_u32_be_most_significant_first(x: u32, y: u32)
    requires
        spec_u32_be(x)[0] < spec_u32_be(y)[0],
    ensures
        x < y,
{
}

/// The same for 16-bit integers.
pub proof fn lemma_u16_be_most_significant_first(x: u16, y: u16)
    requires
        spec_u16_be(x)[0] < spec_u16_be(y)[0],
    ensures
        x < y,
{
}

pub fn u16_to_be(x: u16) -> (out: [u8; 2])
    ensures
        out@ == spec_u16_be(x),
{
    let out: [u8; 2] = [(x / 256) as u8, (x % 256) as u8];
    assert(out@ =~= spec_u16_be(x));
    out
}

pub fn u16_from_be(b: [u8; 2]) -> (x: u16)
    ensures
        x == spec_u16_from_be(b@),
{
    (b[0] as u16) * 256 + (b[1] as u16)
}

pub fn u32_to_be(x: u32) -> (out: [u8; 4])
    ensures
        out@ == spec_u32_be(x),
{
    let out: [u8; 4] = [
        (x / 0x100_0000) as u8,
        ((x / 0x1_0000) % 256) as u8,
        ((x / 0x100) % 256) as u8,
        (x % 256) as u8,
    ];
    assert(out@ =~= spec_u32_be(x));
    out
}

pub fn u32_from_be(b: [u8; 4]) -> (x: u32)
    ensures
        x == spec_u32_from_be(b@),
{
    (b[0] as u32) * 0x100_0000 + (b[1] as u32) * 0x1_0000 + (b[2] as u32) * 0x100 + (b[3] as u32)
}

/// Whether `e` is an I/O error of the given kind.
pub open spec fn is_io_error(e: Error, kind: std::io::ErrorKind) -> bool {
    e matches Error::Io(i) && io_error_kind(i) == kind
}

/// Whether `r` failed with an I/O error of the given kind.
pub open spec fn is_fault<T>(r: Result<T, Error>, kind: std::io::ErrorKind) -> bool {
    r matches Err(e) && is_io_error(e, kind)
}

/// Whether `r` failed with a service's verdict of the given code and text.
pub open spec fn is_verdict<T>(r: Result<T, Error>, code: u32, msg: Seq<char>) -> bool {
    r matches Err(Error::Result(e)) && e.code == code && e.msg@ == msg
}

/// Calls `String::from_utf8`. Believed, not proved: it gives a string
/// exactly where `bytes` are well-formed UTF-8, and the string is then the
/// text that they encode.
#[verifier::external_body]
fn string_from_utf8(bytes: Vec<u8>) -> (r: Option<String>)
    ensures
        r is Some <==> valid_utf8(bytes@),
        r matches Some(s) ==> s@ == decode_utf8(bytes@),
{
    String::from_utf8(bytes).ok()
}

/// The error of a stream that ends too early.
fn unexpected_eof<T>() -> (r: Result<T, Error>)
    ensures
        is_fault(r, std::io::ErrorKind::UnexpectedEof),
{
    Err(Error::Io(io_error(std::io::ErrorKind::UnexpectedEof)))
}

/// The error of bytes that are there and say nothing.
fn invalid_data<T>() -> (r: Result<T, Error>)
    ensures
        is_fault(r, std::io::ErrorKind::InvalidData),
{
    Err(Error::Io(io_error(std::io::ErrorKind::InvalidData)))
}

/// The envelope in front of every message.
#[derive(Clone, Copy, Debug, PartialEq, Eq, Structural)]
pub struct MessageHeader {
    /// The length of the whole message, these four bytes included.
    pub size: u16,
    pub type_: u16,
}

/// The four bytes of a header on the wire.
pub open spec fn spec_header(size: u16, type_: u16) -> Seq<u8> {
    spec_u16_be(size) + spec_u16_be(type_)
}

/// The bytes of a whole message on the wire.
pub open spec fn spec_message(type_: u16, body: Seq<u8>) -> Seq<u8>
    recommends
        body.len() <= MAX_BODY_LEN,
{
    spec_header((body.len() + 4) as u16, type_) + body
}

/// What reading a message from `s` gives: the type, the body and the bytes
/// that are left, or nothing where `s` does not begin with a whole message.
pub open spec fn spec_read_message(s: Seq<u8>) -> Option<(u16, Seq<u8>, Seq<u8>)> {
    if s.len() < 4 {
        None
    } else {
        let size = spec_u16_from_be(s);
        if size < 4 || s.len() < size {
            None
        } else {
            Some((spec_u16_from_be(s.skip(2)), s.subrange(4, size as int), s.skip(size as int)))
        }
    }
}

/// A message that was written is read back as it was, whatever follows it
/// in the stream.
pub proof fn lemma_message_roundtrip(type_: u16, body: Seq<u8>, rest: Seq<u8>)
    requires
        body.len() <= MAX_BODY_LEN,
    ensures
        spec_message(type_, body).len() == body.len() + 4,
        spec_read_message(spec_message(type_, body) + rest) == Some((type_, body, rest)),
{
    let size: u16 = (body.len() + 4) as u16;
    let s = spec_message(type_, body) + rest;
    lemma_u16_be_roundtrip(size, Seq::empty());
    lemma_u16_be_roundtrip(type_, Seq::empty());
    assert(s[0] == spec_u16_be(size)[0] && s[1] == spec_u16_be(size)[1]);
    assert(s.skip(2)[0] == spec_u16_be(type_)[0] && s.skip(2)[1] == spec_u16_be(type_)[1]);
    assert(s.subrange(4, size as int) =~= body);
    assert(s.skip(size as int) =~= rest);
}

/// What the daemon's answer to a request says, or how reading it failed.
pub enum Outcome {
    /// Code zero.
    Success,
    /// Any other code, with the text that came with it.
    Failure { code: u32, msg: Seq<char> },
    /// The answer could not be read.
    Fault(std::io::ErrorKind),
}

/// Whether `r` says what `o` says.
pub open spec fn is_outcome(r: Result<(), Error>, o: Outcome) -> bool {
    match o {
        Outcome::Success => r is Ok,
        Outcome::Failure { code, msg } => is_verdict(r, code, msg),
        Outcome::Fault(kind) => is_fault(r, kind),
    }
}

/// What reading a result gives from a stream that holds `s`, in a message of
/// `message_size` bytes, header included: the code stands in the first four
/// bytes of the body; after a code that is not zero the text stands in all
/// that follow but the last, which ends it.
pub open spec fn spec_read_result(s: Seq<u8>, message_size: u16) -> Outcome {
    let text = s.subrange(4, message_size - 5);
    if message_size < 8 {
        Outcome::Fault(std::io::ErrorKind::InvalidData)
    } else if s.len() < message_size - 4 {
        Outcome::Fault(std::io::ErrorKind::UnexpectedEof)
    } else if spec_u32_from_be(s) == 0 {
        Outcome::Success
    } else if message_size < 9 {
        Outcome::Fault(std::io::ErrorKind::InvalidData)
    } else if !valid_utf8(text) {
        Outcome::Fault(std::io::ErrorKind::InvalidData)
    } else {
        Outcome::Failure { code: spec_u32_from_be(s), msg: decode_utf8(text) }
    }
}

/// How many bytes reading a result takes from the stream: the whole body of
/// the message, whatever the code, or nothing where it cannot be read.
pub open spec fn spec_read_result_len(s: Seq<u8>, message_size: u16) -> int {
    match spec_read_result(s, message_size) {
        Outcome::Fault(_) => 0,
        _ => message_size - 4,
    }
}

/// An in-memory byte stream. What is written is appended at its end, what is
/// read is taken from its front, so the bytes come out in the order in
/// which they went in.
pub struct Stream {
    data: VecDeque<u8>,
}

impl View for Stream {
    type V = Seq<u8>;

    /// The bytes that were written and not read yet.
    closed spec fn view(&self) -> Seq<u8> {
        self.data@
    }
}

impl Stream {
    /// An empty stream.
    pub fn new() -> (s: Self)
        ensures
            s@ == Seq::<u8>::empty(),
    {
        Stream { data: VecDeque::new() }
    }

    /// A stream from which `bytes` can be read.
    pub fn from_bytes(bytes: Vec<u8>) -> (s: Self)
        ensures
            s@ == bytes@,
    {
        let mut s = Stream::new();
        s.write(bytes.as_slice());
        assert(Seq::<u8>::empty() + bytes@ =~= bytes@);
        s
    }

    /// The number of bytes that can still be read.
    pub fn remaining(&self) -> (n: usize)
        ensures
            n == self@.len(),
    {
        self.data.len()
    }

    /// A copy of the bytes that can still be read.
    pub fn to_bytes(&self) -> (out: Vec<u8>)
        ensures
            out@ == self@,
    {
        let out: Vec<u8> = self.peek(0, self.data.len());
        assert(out@ =~= self@);
        out
    }

    /// A copy of the `len` bytes that come after the next `offset` bytes.
    fn peek(&self, offset: usize, len: usize) -> (out: Vec<u8>)
        requires
            offset + len <= self@.len(),
        ensures
            out@ == self@.subrange(offset as int, offset + len),
    {
        let mut out: Vec<u8> = Vec::new();
        let mut i: usize = 0;
        while i < len
            invariant
                i <= len,
                offset + len <= self.data.len(),
                out@ == self@.subrange(offset as int, offset + i),
            decreases len - i,
        {
            out.push(self.data[offset + i]);
            i += 1;
            assert(out@ =~= self@.subrange(offset as int, offset + i));
        }
        out
    }

    /// A copy of the `len` bytes that come after the next `offset` bytes;
    /// all of them stay in the stream. Fails where the stream ends before
    /// they do.
    pub fn peek_bytes(&self, offset: usize, len: usize) -> (r: Result<Vec<u8>, Error>)
        ensures
            if offset + len <= self@.len() {
                r matches Ok(v) && v@ == self@.subrange(offset as int, offset + len)
            } else {
                is_fault(r, std::io::ErrorKind::UnexpectedEof)
            },
    {
        let left: usize = self.remaining();
        if offset > left || len > left - offset {
            return unexpected_eof();
        }
        Ok(self.peek(offset, len))
    }

    /// The text that the `len` bytes after the next `offset` bytes encode;
    /// all of them stay in the stream. Fails where the stream ends before
    /// they do, or where they are no UTF-8.
    pub fn peek_str(&self, offset: usize, len: usize) -> (r: Result<String, Error>)
        ensures
            ({
                let bytes = self@.subrange(offset as int, offset + len);
                if offset + len > self@.len() {
                    is_fault(r, std::io::ErrorKind::UnexpectedEof)
                } else if !valid_utf8(bytes) {
                    is_fault(r, std::io::ErrorKind::InvalidData)
                } else {
                    r matches Ok(t) && t@ == decode_utf8(bytes)
                }
            }),
    {
        let buf: Vec<u8> = self.peek_bytes(offset, len)?;
        match string_from_utf8(buf) {
            Some(t) => Ok(t),
            None => invalid_data(),
        }
    }

    pub fn write_byte(&mut self, byte: u8)
        ensures
            final(self)@ == old(self)@.push(byte),
    {
        self.data.push_back(byte);
    }

    /// Appends `bytes` as they are.
    pub fn write(&mut self, bytes: &[u8])
        ensures
            final(self)@ == old(self)@ + bytes@,
    {
        let mut i: usize = 0;
        assert(self@ =~= old(self)@ + bytes@.take(0));
        while i < bytes.len()
            invariant
                i <= bytes.len(),
                self@ == old(self)@ + bytes@.take(i as int),
            decreases bytes.len() - i,
        {
            self.write_byte(bytes[i]);
            i += 1;
            assert(bytes@.take(i as int) =~= bytes@.take(i - 1).push(bytes@[i - 1]));
            assert(self@ =~= old(self)@ + bytes@.take(i as int));
        }
        assert(bytes@.take(bytes.len() as int) =~= bytes@);
    }

    pub fn write_u16(&mut self, value: u16)
        ensures
            final(self)@ == old(self)@ + spec_u16_be(value),
    {
        let b: [u8; 2] = u16_to_be(value);
        self.write(b.as_slice());
    }

    pub fn write_u32(&mut self, value: u32)
        ensures
            final(self)@ == old(self)@ + spec_u32_be(value),
    {
        let b: [u8; 4] = u32_to_be(value);
        self.write(b.as_slice());
    }

    /// Writes the UTF-8 bytes of `data`, and no terminator.
    pub fn write_str(&mut self, data: &str)
        ensures
            final(self)@ == old(self)@ + encode_utf8(data@),
    {
        self.write(data.as_bytes());
    }

    /// Writes the UTF-8 bytes of `data` and then one zero byte.
    pub fn write_str_zt(&mut self, data: &str)
        ensures
            final(self)@ == old(self)@ + encode_utf8(data@).push(0u8),
    {
        self.write(data.as_bytes());
        self.write_byte(0);
        assert(self@ =~= old(self)@ + encode_utf8(data@).push(0u8));
    }

    /// Writes a header: the size first, then the type.
    pub fn write_header(&mut self, type_: u16, size: u16)
        ensures
            final(self)@ == old(self)@ + spec_header(size, type_),
    {
        self.write_u16(size);
        self.write_u16(type_);
        assert(self@ =~= old(self)@ + spec_header(size, type_));
    }

    /// Writes one message: its header and its body. A body of more than
    /// `MAX_BODY_LEN` bytes fits in no message: then nothing is written.
    pub fn write_message(&mut self, type_: u16, body: &[u8]) -> (r: Result<(), Error>)
        ensures
            if body@.len() <= MAX_BODY_LEN {
                r is Ok && final(self)@ == old(self)@ + spec_message(type_, body@)
            } else {
                is_fault(r, std::io::ErrorKind::InvalidInput) && final(self)@ == old(self)@
            },
    {
        if body.len() > MAX_BODY_LEN {
            return Err(Error::Io(io_error(std::io::ErrorKind::InvalidInput)));
        }
        let size: u16 = (body.len() + 4) as u16;
        self.write_header(type_, size);
        self.write(body);
        assert(self@ =~= old(self)@ + spec_message(type_, body@));
        Ok(())
    }

    /// Passes over the next `len` bytes. Fails where fewer are left.
    pub fn skip(&mut self, len: usize) -> (r: Result<(), Error>)
        ensures
            if len <= old(self)@.len() {
                r is Ok && final(self)@ == old(self)@.skip(len as int)
            } else {
                is_fault(r, std::io::ErrorKind::UnexpectedEof) && final(self)@ == old(self)@
            },
    {
        if len > self.remaining() {
            return unexpected_eof();
        }
        let rest: VecDeque<u8> = self.data.split_off(len);
        self.data = rest;
        assert(self@ =~= old(self)@.skip(len as int));
        Ok(())
    }

    /// Takes the next `len` bytes. Fails where fewer are left.
    pub fn read_bytes(&mut self, len: usize) -> (r: Result<Vec<u8>, Error>)
        ensures
            if len <= old(self)@.len() {
                &&& r matches Ok(v)
                &&& v@ == old(self)@.take(len as int)
                &&& final(self)@ == old(self)@.skip(len as int)
            } else {
                is_fault(r, std::io::ErrorKind::UnexpectedEof) && final(self)@ == old(self)@
            },
    {
        let out: Vec<u8> = self.peek_bytes(0, len)?;
        self.skip(len)?;
        assert(out@ =~= old(self)@.take(len as int));
        Ok(out)
    }

    pub fn read_u16(&mut self) -> (r: Result<u16, Error>)
        ensures
            if 2 <= old(self)@.len() {
                &&& r matches Ok(x)
                &&& x == spec_u16_from_be(old(self)@)
                &&& final(self)@ == old(self)@.skip(2)
            } else {
                is_fault(r, std::io::ErrorKind::UnexpectedEof) && final(self)@ == old(self)@
            },
    {
        let b: Vec<u8> = self.read_bytes(2)?;
        Ok(u16_from_be([b[0], b[1]]))
    }

    pub fn read_u32(&mut self) -> (r: Result<u32, Error>)
        ensures
            if 4 <= old(self)@.len() {
                &&& r matches Ok(x)
                &&& x == spec_u32_from_be(old(self)@)
                &&& final(self)@ == old(self)@.skip(4)
            } else {
                is_fault(r, std::io::ErrorKind::UnexpectedEof) && final(self)@ == old(self)@
            },
    {
        let b: Vec<u8> = self.read_bytes(4)?;
        Ok(u32_from_be([b[0], b[1], b[2], b[3]]))
    }

    /// Reads `len` bytes as UTF-8 text. Fails where fewer bytes are left, or
    /// where they are no UTF-8.
    pub fn read_str(&mut self, len: u16) -> (r: Result<String, Error>)
        ensures
            ({
                let bytes = old(self)@.take(len as int);
                if len > old(self)@.len() {
                    is_fault(r, std::io::ErrorKind::UnexpectedEof) && final(self)@ == old(self)@
                } else if !valid_utf8(bytes) {
                    is_fault(r, std::io::ErrorKind::InvalidData) && final(self)@ == old(self)@
                } else {
                    &&& r matches Ok(t)
                    &&& t@ == decode_utf8(bytes)
                    &&& final(self)@ == old(self)@.skip(len as int)
                }
            }),
    {
        assert(self@.subrange(0, len as int) =~= self@.take(len as int));
        let t: String = self.peek_str(0, len as usize)?;
        self.skip(len as usize)?;
        Ok(t)
    }

    /// Reads `len` bytes as UTF-8 text and passes over the one byte that
    /// terminates it. Fails where fewer than `len + 1` bytes are left, or
    /// where the text is no UTF-8.
    pub fn read_str_zt(&mut self, len: u16) -> (r: Result<String, Error>)
        ensures
            ({
                let bytes = old(self)@.take(len as int);
                if len >= old(self)@.len() {
                    is_fault(r, std::io::ErrorKind::UnexpectedEof) && final(self)@ == old(self)@
                } else if !valid_utf8(bytes) {
                    is_fault(r, std::io::ErrorKind::InvalidData) && final(self)@ == old(self)@
                } else {
                    &&& r matches Ok(t)
                    &&& t@ == decode_utf8(bytes)
                    &&& final(self)@ == old(self)@.skip(len + 1)
                }
            }),
    {
        if self.remaining() <= len as usize {
            return unexpected_eof();
        }
        let t: String = self.read_str(len)?;
        self.skip(1)?;
        assert(self@ =~= old(self)@.skip(len + 1));
        Ok(t)
    }

    /// Reads a header: the size first, then the type.
    pub fn read_header(&mut self) -> (r: Result<MessageHeader, Error>)
        ensures
            if 4 <= old(self)@.len() {
                &&& r matches Ok(h)
                &&& h.size == spec_u16_from_be(old(self)@)
                &&& h.type_ == spec_u16_from_be(old(self)@.skip(2))
                &&& final(self)@ == old(self)@.skip(4)
            } else {
                is_fault(r, std::io::ErrorKind::UnexpectedEof) && final(self)@ == old(self)@
            },
    {
        let b: Vec<u8> = self.read_bytes(4)?;
        Ok(MessageHeader { size: u16_from_be([b[0], b[1]]), type_: u16_from_be([b[2], b[3]]) })
    }

    /// Reads one message: its type and its body. Fails where the stream does
    /// not begin with a whole message: with `InvalidData` where the size in
    /// the header is under four, else with `UnexpectedEof`.
    pub fn read_message(&mut self) -> (r: Result<(u16, Vec<u8>), Error>)
        ensures
            match spec_read_message(old(self)@) {
                Some((type_, body, rest)) => {
                    &&& r matches Ok(m)
                    &&& m.0 == type_
                    &&& m.1@ == body
                    &&& final(self)@ == rest
                },
                None => {
                    &&& final(self)@ == old(self)@
                    &&& if old(self)@.len() >= 4 && spec_u16_from_be(old(self)@) < 4 {
                        is_fault(r, std::io::ErrorKind::InvalidData)
                    } else {
                        is_fault(r, std::io::ErrorKind::UnexpectedEof)
                    }
                },
            },
    {
        let head: Vec<u8> = self.peek_bytes(0, 4)?;
        let size: u16 = u16_from_be([head[0], head[1]]);
        let type_: u16 = u16_from_be([head[2], head[3]]);
        assert(type_ == spec_u16_from_be(self@.skip(2)));
        if size < 4 {
            return invalid_data();
        }
        let body: Vec<u8> = self.peek_bytes(4, (size - 4) as usize)?;
        self.skip(size as usize)?;
        Ok((type_, body))
    }

    /// Reads the body of a result message that stands in a message of
    /// `message_size` bytes, header included: a 32-bit code, then the text of
    /// a message and the zero byte that ends it. The whole body is taken,
    /// `message_size - 4` bytes, so that what follows in the stream is the
    /// next message.
    ///
    /// Code zero is success, whatever the text. Any other code comes back as
    /// `Error::Result` with the code and the text. Where the size leaves no
    /// room for the code, or for the terminator after a code that is not
    /// zero, where the body is not all there, or where the text is no UTF-8,
    /// the error is an I/O error and nothing is taken.
    pub fn read_result(&mut self, message_size: u16) -> (r: Result<(), Error>)
        ensures
            is_outcome(r, spec_read_result(old(self)@, message_size)),
            final(self)@ == old(self)@.skip(spec_read_result_len(old(self)@, message_size)),
    {
        assert(self@.skip(0) =~= self@);
        if message_size < 8 {
            return invalid_data();
        }
        let body: usize = (message_size - 4) as usize;
        if self.remaining() < body {
            return unexpected_eof();
        }
        let head: Vec<u8> = self.peek_bytes(0, 4)?;
        let result_code: u32 = u32_from_be([head[0], head[1], head[2], head[3]]);
        if result_code == 0 {
            return self.skip(body);
        }
        if message_size < 9 {
            return invalid_data();
        }
        let msg: String = self.peek_str(4, body - 5)?;
        self.skip(body)?;
        Err(Error::Result(ResultError::new(result_code, msg)))
    }
}

} // verus!

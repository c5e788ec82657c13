//! The conversation with the identity service: the requests that a client
//! writes, and the answers that it reads.

use vstd::prelude::*;
use vstd::utf8::{decode_utf8, encode_utf8, valid_utf8};
use crate::error::{io_error, Error};
use crate::identity::egos::Egos;
use crate::identity::keys::{array_at, spec_wire_key, Ego, PrivateKey};
use crate::service::{
    is_fault, is_outcome, is_verdict, spec_message, spec_read_result, spec_read_result_len,
    spec_u16_be, spec_u16_from_be, spec_u32_from_be, u16_from_be, u32_from_be, MessageHeader,
    Outcome, Stream, MAX_BODY_LEN,
};

verus! {

/// Asks the service to list the egos.
pub const MESSAGE_TYPE_IDENTITY_START: u16 = 624;

/// The service's verdict on a request: a code and a text.
pub const MESSAGE_TYPE_IDENTITY_RESULT_CODE: u16 = 625;

/// Tells of one ego.
pub const MESSAGE_TYPE_IDENTITY_UPDATE: u16 = 626;

/// Asks for, or sets, the default ego of a service.
pub const MESSAGE_TYPE_IDENTITY_GET_DEFAULT: u16 = 627;

/// Asks the service to create an ego.
pub const MESSAGE_TYPE_IDENTITY_CREATE: u16 = 629;

/// Asks the service for the ego of a name.
pub const MESSAGE_TYPE_IDENTITY_LOOKUP: u16 = 632;

/// The code with which the service says that the ego exists already.
pub const RESULT_CODE_EXISTS: u32 = 1;

/// The code with which the service says that it knows no such ego.
pub const RESULT_CODE_NOT_FOUND: u32 = 99999;

/// The body of the request for the ego of `name`.
pub open spec fn spec_lookup_body(name: Seq<char>) -> Seq<u8> {
    encode_utf8(name).push(0u8)
}

/// The body of the request to create an ego.
pub open spec fn spec_create_body(name: Seq<char>, type_: u32, key: Seq<u8>) -> Seq<u8> {
    spec_u16_be((encode_utf8(name).len() + 1) as u16) + spec_u16_be(0) + spec_wire_key(type_, key)
        + encode_utf8(name).push(0u8)
}

/// The body of the request for the default ego of `service`.
pub open spec fn spec_get_default_body(service: Seq<char>) -> Seq<u8> {
    spec_u16_be(encode_utf8(service).len() as u16) + spec_u16_be(0) + encode_utf8(service).push(
        0u8,
    )
}

/// The body of the request that makes an ego the default of `service`.
pub open spec fn spec_set_default_body(service: Seq<char>, type_: u32, key: Seq<u8>) -> Seq<u8> {
    spec_u16_be(encode_utf8(service).len() as u16) + spec_u16_be(0) + spec_wire_key(type_, key)
        + encode_utf8(service).push(0u8)
}

/// What a request writer has done: written the one message, or, where
/// the body is too long for a message, nothing.
pub open spec fn request_written(
    r: Result<(), Error>,
    before: Seq<u8>,
    after: Seq<u8>,
    type_: u16,
    body: Seq<u8>,
) -> bool {
    match r {
        Ok(()) => body.len() <= MAX_BODY_LEN && after == before
            + spec_message(type_, body),
        Err(_) => {
            &&& body.len() > MAX_BODY_LEN
            &&& is_fault(r, std::io::ErrorKind::InvalidInput)
            &&& after == before
        },
    }
}

/// The error of a request that fits in no message.
fn too_long() -> (r: Result<(), Error>)
    ensures
        is_fault(r, std::io::ErrorKind::InvalidInput),
{
    Err(Error::Io(io_error(std::io::ErrorKind::InvalidInput)))
}

/// Writes the request that starts the listing of the egos.
pub fn list_request(out: &mut Stream)
    ensures
        final(out)@ == old(out)@ + spec_message(MESSAGE_TYPE_IDENTITY_START, Seq::empty()),
{
    out.write_header(MESSAGE_TYPE_IDENTITY_START, 4);
    assert(out@ =~= old(out)@ + spec_message(MESSAGE_TYPE_IDENTITY_START, Seq::empty()));
}

/// Writes the request for the ego of `name`.
pub fn lookup_request(out: &mut Stream, name: &str) -> (r: Result<(), Error>)
    ensures
        request_written(
            r,
            old(out)@,
            final(out)@,
            MESSAGE_TYPE_IDENTITY_LOOKUP,
            spec_lookup_body(name@),
        ),
{
    if name.as_bytes().len() > MAX_BODY_LEN - 1 {
        return too_long();
    }
    let mut body: Stream = Stream::new();
    body.write_str_zt(name);
    let bytes: Vec<u8> = body.to_bytes();
    assert(bytes@ =~= spec_lookup_body(name@));
    out.write_message(MESSAGE_TYPE_IDENTITY_LOOKUP, bytes.as_slice())
}

/// Writes the request to create an ego of the given name and key.
pub fn create_request(out: &mut Stream, name: &str, private_key: &PrivateKey) -> (r: Result<
    (),
    Error,
>)
    ensures
        request_written(
            r,
            old(out)@,
            final(out)@,
            MESSAGE_TYPE_IDENTITY_CREATE,
            spec_create_body(name@, private_key.type_, private_key.key@),
        ),
{
    let len: usize = name.as_bytes().len();
    if len > MAX_BODY_LEN - 41 {
        return too_long();
    }
    let mut body: Stream = Stream::new();
    body.write_u16((len + 1) as u16);
    body.write_u16(0);
    private_key.write_to(&mut body);
    body.write_str_zt(name);
    let bytes: Vec<u8> = body.to_bytes();
    assert(bytes@ =~= spec_create_body(name@, private_key.type_, private_key.key@));
    out.write_message(MESSAGE_TYPE_IDENTITY_CREATE, bytes.as_slice())
}

/// Writes the request for the default ego of `service`.
pub fn get_default_request(out: &mut Stream, service: &str) -> (r: Result<(), Error>)
    ensures
        request_written(
            r,
            old(out)@,
            final(out)@,
            MESSAGE_TYPE_IDENTITY_GET_DEFAULT,
            spec_get_default_body(service@),
        ),
{
    let len: usize = service.as_bytes().len();
    if len > MAX_BODY_LEN - 5 {
        return too_long();
    }
    let mut body: Stream = Stream::new();
    body.write_u16(len as u16);
    body.write_u16(0);
    body.write_str_zt(service);
    let bytes: Vec<u8> = body.to_bytes();
    assert(bytes@ =~= spec_get_default_body(service@));
    out.write_message(MESSAGE_TYPE_IDENTITY_GET_DEFAULT, bytes.as_slice())
}

/// Writes the request that makes `ego` the default of `service`.
pub fn set_default_request(out: &mut Stream, service: &str, ego: &Ego) -> (r: Result<(), Error>)
    ensures
        request_written(
            r,
            old(out)@,
            final(out)@,
            MESSAGE_TYPE_IDENTITY_GET_DEFAULT,
            spec_set_default_body(service@, ego.private_key.type_, ego.private_key.key@),
        ),
{
    let len: usize = service.as_bytes().len();
    if len > MAX_BODY_LEN - 41 {
        return too_long();
    }
    let mut body: Stream = Stream::new();
    body.write_u16(len as u16);
    body.write_u16(0);
    ego.private_key.write_to(&mut body);
    body.write_str_zt(service);
    let bytes: Vec<u8> = body.to_bytes();
    assert(bytes@ =~= spec_set_default_body(service@, ego.private_key.type_, ego.private_key.key@));
    out.write_message(MESSAGE_TYPE_IDENTITY_GET_DEFAULT, bytes.as_slice())
}

/// What an update message tells: one ego, and whether the listing ends with it.
pub struct Update {
    pub name: Seq<char>,
    pub type_: u32,
    pub key: Seq<u8>,
    pub end_of_list: bool,
}

/// The length of the name in the update that `s` begins with.
pub open spec fn spec_update_name_len(s: Seq<u8>) -> int {
    spec_u16_from_be(s) as int
}

/// Whether the name in an update is followed by a zero byte: it is where the
/// `max_length` bytes that the message has for its body have room for one.
pub open spec fn spec_update_terminated(s: Seq<u8>, max_length: u16) -> bool {
    max_length >= 41 + spec_update_name_len(s)
}

/// How many bytes the update that `s` begins with takes.
pub open spec fn spec_update_len(s: Seq<u8>, max_length: u16) -> int {
    40 + spec_update_name_len(s) + if spec_update_terminated(s, max_length) {
        1int
    } else {
        0int
    }
}

/// What reading an update gives from a stream that holds `s`, in a message
/// with `max_length` bytes of body.
pub open spec fn spec_read_update(s: Seq<u8>, max_length: u16) -> Result<
    Update,
    std::io::ErrorKind,
> {
    let name = s.subrange(40, 40 + spec_update_name_len(s));
    if s.len() < 40 || s.len() < spec_update_len(s, max_length) {
        Err(std::io::ErrorKind::UnexpectedEof)
    } else if !valid_utf8(name) {
        Err(std::io::ErrorKind::InvalidData)
    } else {
        Ok(
            Update {
                name: decode_utf8(name),
                type_: spec_u32_from_be(s.skip(4)),
                key: s.subrange(8, 40),
                end_of_list: spec_u16_from_be(s.skip(2)) != 0,
            },
        )
    }
}

/// Whether what was read is the update `u`.
pub open spec fn is_update(
    name: String,
    private_key: PrivateKey,
    end_of_list: bool,
    u: Update,
) -> bool {
    &&& name@ == u.name
    &&& private_key.type_ == u.type_
    &&& private_key.key@ == u.key
    &&& end_of_list == u.end_of_list
}

/// Reads the body of an update message: the length of the name, the flag
/// that ends a listing, the private key, and the name. The name is followed
/// by a zero byte that is passed over, unless the message has no room for
/// one. Where the bytes are not there or the name is no UTF-8, nothing is
/// taken.
pub fn read_update(input: &mut Stream, max_length: u16) -> (r: Result<
    (String, PrivateKey, bool),
    Error,
>)
    ensures
        match spec_read_update(old(input)@, max_length) {
            Ok(u) => {
                &&& r matches Ok((name, private_key, end_of_list))
                &&& is_update(name, private_key, end_of_list, u)
                &&& final(input)@ == old(input)@.skip(spec_update_len(old(input)@, max_length))
            },
            Err(kind) => is_fault(r, kind) && final(input)@ == old(input)@,
        },
{
    let head: Vec<u8> = input.peek_bytes(0, 40)?;
    let name_len: u16 = u16_from_be([head[0], head[1]]);
    let flag: u16 = u16_from_be([head[2], head[3]]);
    let type_: u32 = u32_from_be([head[4], head[5], head[6], head[7]]);
    let key: [u8; 32] = array_at(head.as_slice(), 8);
    let terminated: bool = max_length as usize >= 41 + name_len as usize;
    let total: usize = 40 + name_len as usize + if terminated {
        1usize
    } else {
        0usize
    };
    if input.remaining() < total {
        return Err(Error::Io(io_error(std::io::ErrorKind::UnexpectedEof)));
    }
    assert(flag == spec_u16_from_be(input@.skip(2)));
    assert(type_ == spec_u32_from_be(input@.skip(4)));
    assert(key@ =~= input@.subrange(8, 40));
    let name: String = input.peek_str(40, name_len as usize)?;
    input.skip(total)?;
    Ok((name, PrivateKey { type_, key }, flag != 0))
}

/// What the body of the update message under `header` tells, read from a
/// stream that holds `s`. A header whose size is under four is no header.
pub open spec fn spec_update_message(header: MessageHeader, s: Seq<u8>) -> Result<
    Update,
    std::io::ErrorKind,
> {
    if header.size < 4 {
        Err(std::io::ErrorKind::InvalidData)
    } else {
        spec_read_update(s, (header.size - 4) as u16)
    }
}

/// How many bytes reading that update takes from the stream.
pub open spec fn spec_update_message_len(header: MessageHeader, s: Seq<u8>) -> int {
    if spec_update_message(header, s) is Ok {
        spec_update_len(s, (header.size - 4) as u16)
    } else {
        0
    }
}

/// Reads the body of the update message under `header`.
fn read_update_message(header: MessageHeader, input: &mut Stream) -> (r: Result<
    (String, PrivateKey, bool),
    Error,
>)
    ensures
        final(input)@ == old(input)@.skip(spec_update_message_len(header, old(input)@)),
        match spec_update_message(header, old(input)@) {
            Ok(u) => {
                &&& r matches Ok((name, private_key, end_of_list))
                &&& is_update(name, private_key, end_of_list, u)
            },
            Err(kind) => is_fault(r, kind),
        },
{
    assert(input@.skip(0) =~= input@);
    if header.size < 4 {
        return Err(Error::Io(io_error(std::io::ErrorKind::InvalidData)));
    }
    read_update(input, header.size - 4)
}

/// Maps the service's verdict on a request to create an ego: success is
/// `true`, the code for an ego that exists already is `false`, and every
/// other verdict, and every fault, stays the error that it is.
pub fn create_result(result: Result<(), Error>) -> (r: Result<bool, Error>)
    ensures
        match result {
            Ok(()) => r == Ok::<bool, Error>(true),
            Err(Error::Result(e)) => if e.code == RESULT_CODE_EXISTS {
                r == Ok::<bool, Error>(false)
            } else {
                r == Err::<bool, Error>(Error::Result(e))
            },
            Err(Error::Io(e)) => r == Err::<bool, Error>(Error::Io(e)),
        },
{
    match result {
        Ok(()) => Ok(true),
        Err(Error::Result(e)) => {
            if e.code == RESULT_CODE_EXISTS {
                Ok(false)
            } else {
                Err(Error::Result(e))
            }
        },
        Err(other) => Err(other),
    }
}

/// Maps the service's verdict on a lookup: the code for an ego that the
/// service does not know is no ego and no error. Success without an ego is
/// invalid data; every other verdict, and every fault, stays the error that
/// it is.
pub fn lookup_result(result: Result<(), Error>) -> (r: Result<Option<PrivateKey>, Error>)
    ensures
        match result {
            Ok(()) => is_fault(r, std::io::ErrorKind::InvalidData),
            Err(Error::Result(e)) => if e.code == RESULT_CODE_NOT_FOUND {
                r == Ok::<Option<PrivateKey>, Error>(None)
            } else {
                r == Err::<Option<PrivateKey>, Error>(Error::Result(e))
            },
            Err(Error::Io(e)) => r == Err::<Option<PrivateKey>, Error>(Error::Io(e)),
        },
{
    match result {
        Ok(()) => Err(Error::Io(io_error(std::io::ErrorKind::InvalidData))),
        Err(Error::Result(e)) => {
            if e.code == RESULT_CODE_NOT_FOUND {
                Ok(None)
            } else {
                Err(Error::Result(e))
            }
        },
        Err(other) => Err(other),
    }
}

/// Takes one update of a listing into `egos`, and says whether the listing
/// ends with it. An update without a name tells of no ego: it only ends the
/// listing of a service that has none.
pub fn list_response(egos: &mut Egos, header: MessageHeader, input: &mut Stream) -> (r: Result<
    bool,
    Error,
>)
    requires
        old(egos).wf(),
        header.type_ == MESSAGE_TYPE_IDENTITY_UPDATE,
    ensures
        final(egos).wf(),
        final(input)@ == old(input)@.skip(spec_update_message_len(header, old(input)@)),
        match spec_update_message(header, old(input)@) {
            Ok(u) => {
                &&& r == Ok::<bool, Error>(u.end_of_list)
                &&& if u.name.len() == 0 {
                    final(egos)@ == old(egos)@
                } else {
                    &&& final(egos)@.dom().contains(u.name)
                    &&& final(egos)@[u.name].type_ == u.type_
                    &&& final(egos)@[u.name].key@ == u.key
                    &&& final(egos)@ == old(egos)@.insert(u.name, final(egos)@[u.name])
                }
            },
            Err(kind) => is_fault(r, kind) && final(egos)@ == old(egos)@,
        },
{
    let (name, private_key, end_of_list) = read_update_message(header, input)?;
    proof {
        vstd::utf8::encode_utf8_decode_utf8(name@);
    }
    if name.as_str().as_bytes().len() > 0 {
        egos.insert(name, private_key);
    } else {
        assert(encode_utf8(name@) =~= Seq::<u8>::empty());
        assert(decode_utf8(Seq::<u8>::empty()) =~= Seq::<char>::empty());
    }
    Ok(end_of_list)
}

/// Reads the answer to a lookup: the private key of the ego, or nothing
/// where the service knows no such ego.
pub fn lookup_response(header: MessageHeader, input: &mut Stream) -> (r: Result<
    Option<PrivateKey>,
    Error,
>)
    requires
        header.type_ == MESSAGE_TYPE_IDENTITY_RESULT_CODE || header.type_
            == MESSAGE_TYPE_IDENTITY_UPDATE,
    ensures
        ({
            let s = old(input)@;
            if header.type_ == MESSAGE_TYPE_IDENTITY_UPDATE {
                &&& final(input)@ == s.skip(spec_update_message_len(header, s))
                &&& match spec_update_message(header, s) {
                    Ok(u) => r matches Ok(Some(k)) && k.type_ == u.type_ && k.key@ == u.key,
                    Err(kind) => is_fault(r, kind),
                }
            } else {
                &&& final(input)@ == s.skip(spec_read_result_len(s, header.size))
                &&& match spec_read_result(s, header.size) {
                    Outcome::Success => is_fault(r, std::io::ErrorKind::InvalidData),
                    Outcome::Failure { code, msg } => if code == RESULT_CODE_NOT_FOUND {
                        r matches Ok(None)
                    } else {
                        is_verdict(r, code, msg)
                    },
                    Outcome::Fault(kind) => is_fault(r, kind),
                }
            }
        }),
{
    if header.type_ == MESSAGE_TYPE_IDENTITY_RESULT_CODE {
        let result: Result<(), Error> = input.read_result(header.size);
        lookup_result(result)
    } else {
        let (_, private_key, _) = read_update_message(header, input)?;
        Ok(Some(private_key))
    }
}

/// Reads the answer to the request to create an ego: `true` where it was
/// created, `false` where it exists already.
pub fn create_response(header: MessageHeader, input: &mut Stream) -> (r: Result<bool, Error>)
    requires
        header.type_ == MESSAGE_TYPE_IDENTITY_RESULT_CODE,
    ensures
        final(input)@ == old(input)@.skip(spec_read_result_len(old(input)@, header.size)),
        match spec_read_result(old(input)@, header.size) {
            Outcome::Success => r matches Ok(true),
            Outcome::Failure { code, msg } => if code == RESULT_CODE_EXISTS {
                r matches Ok(false)
            } else {
                is_verdict(r, code, msg)
            },
            Outcome::Fault(kind) => is_fault(r, kind),
        },
{
    let result: Result<(), Error> = input.read_result(header.size);
    create_result(result)
}

/// Reads the answer to the request for a default ego. The service answers
/// with the ego, or with a verdict that is no success.
pub fn get_default_response(header: MessageHeader, input: &mut Stream) -> (r: Result<
    Option<Ego>,
    Error,
>)
    requires
        header.type_ == MESSAGE_TYPE_IDENTITY_RESULT_CODE || header.type_
            == MESSAGE_TYPE_IDENTITY_UPDATE,
        header.type_ == MESSAGE_TYPE_IDENTITY_RESULT_CODE ==> !(spec_read_result(
            old(input)@,
            header.size,
        ) is Success),
    ensures
        ({
            let s = old(input)@;
            if header.type_ == MESSAGE_TYPE_IDENTITY_UPDATE {
                &&& final(input)@ == s.skip(spec_update_message_len(header, s))
                &&& match spec_update_message(header, s) {
                    Ok(u) => {
                        &&& r matches Ok(Some(ego))
                        &&& ego.name@ == u.name
                        &&& ego.private_key.type_ == u.type_
                        &&& ego.private_key.key@ == u.key
                    },
                    Err(kind) => is_fault(r, kind),
                }
            } else {
                &&& final(input)@ == s.skip(spec_read_result_len(s, header.size))
                &&& match spec_read_result(s, header.size) {
                    Outcome::Success => false,
                    Outcome::Failure { code, msg } => is_verdict(r, code, msg),
                    Outcome::Fault(kind) => is_fault(r, kind),
                }
            }
        }),
{
    if header.type_ == MESSAGE_TYPE_IDENTITY_UPDATE {
        let (name, private_key, _) = read_update_message(header, input)?;
        Ok(Some(Ego::new(name, private_key)))
    } else {
        match input.read_result(header.size) {
            Ok(()) => Ok(None),
            Err(e) => Err(e),
        }
    }
}

/// Reads the answer to the request that sets a default ego.
pub fn set_default_response(header: MessageHeader, input: &mut Stream) -> (r: Result<(), Error>)
    requires
        header.type_ == MESSAGE_TYPE_IDENTITY_RESULT_CODE,
    ensures
        is_outcome(r, spec_read_result(old(input)@, header.size)),
        final(input)@ == old(input)@.skip(spec_read_result_len(old(input)@, header.size)),
{
    input.read_result(header.size)
}

} // verus!

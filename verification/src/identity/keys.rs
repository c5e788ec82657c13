//! Keys, signatures and egos, and their bytes on the wire and in canonical form.

use vstd::prelude::*;
use crate::service::{spec_u32_be, Stream};

verus! {

/// The tag of an ECDSA key on the wire.
pub const KEYTYPE_ECDSA: u32 = 65536;

/// The tag of an EdDSA key on the wire.
pub const KEYTYPE_EDDSA: u32 = 65556;

/// How many bytes the canonical form of a public key has.
pub const PUBLIC_KEY_LEN: usize = 33;

/// How many bytes the canonical form of a signature has.
pub const SIGNATURE_LEN: usize = 65;

/// The kinds of key that an ego can have.
#[derive(Clone, Copy, Debug, PartialEq, Eq, Structural)]
pub enum KeyType {
    Ecdsa,
    Eddsa,
}

/// Why canonical bytes could not be written or read.
#[derive(Clone, Copy, Debug, PartialEq, Eq, Structural)]
pub enum CodecError {
    /// The bytes end before the value does.
    MissingData,
    /// The tag, or the discriminant, stands for no kind of key.
    InvalidKeyType(u32),
}

impl KeyType {
    /// The tag on the wire, a 32-bit big-endian integer there.
    pub open spec fn spec_wire_tag(self) -> u32 {
        match self {
            KeyType::Ecdsa => KEYTYPE_ECDSA,
            KeyType::Eddsa => KEYTYPE_EDDSA,
        }
    }

    pub open spec fn spec_from_wire_tag(tag: u32) -> Option<KeyType> {
        if tag == KEYTYPE_ECDSA {
            Some(KeyType::Ecdsa)
        } else if tag == KEYTYPE_EDDSA {
            Some(KeyType::Eddsa)
        } else {
            None
        }
    }

    /// The first byte of the canonical forms: 0 for ECDSA, 1 for EdDSA.
    pub open spec fn spec_discriminant(self) -> u8 {
        match self {
            KeyType::Ecdsa => 0,
            KeyType::Eddsa => 1,
        }
    }

    pub open spec fn spec_from_discriminant(d: u8) -> Option<KeyType> {
        if d == 0 {
            Some(KeyType::Ecdsa)
        } else if d == 1 {
            Some(KeyType::Eddsa)
        } else {
            None
        }
    }

    #[verifier::when_used_as_spec(spec_wire_tag)]
    pub fn wire_tag(self) -> (tag: u32)
        ensures
            tag == self.spec_wire_tag(),
    {
        match self {
            KeyType::Ecdsa => KEYTYPE_ECDSA,
            KeyType::Eddsa => KEYTYPE_EDDSA,
        }
    }

    #[verifier::when_used_as_spec(spec_from_wire_tag)]
    pub fn from_wire_tag(tag: u32) -> (r: Option<KeyType>)
        ensures
            r == Self::spec_from_wire_tag(tag),
    {
        if tag == KEYTYPE_ECDSA {
            Some(KeyType::Ecdsa)
        } else if tag == KEYTYPE_EDDSA {
            Some(KeyType::Eddsa)
        } else {
            None
        }
    }

    #[verifier::when_used_as_spec(spec_discriminant)]
    pub fn discriminant(self) -> (d: u8)
        ensures
            d == self.spec_discriminant(),
    {
        match self {
            KeyType::Ecdsa => 0,
            KeyType::Eddsa => 1,
        }
    }

    #[verifier::when_used_as_spec(spec_from_discriminant)]
    pub fn from_discriminant(d: u8) -> (r: Option<KeyType>)
        ensures
            r == Self::spec_from_discriminant(d),
    {
        if d == 0 {
            Some(KeyType::Ecdsa)
        } else if d == 1 {
            Some(KeyType::Eddsa)
        } else {
            None
        }
    }
}

/// The two kinds of key have two tags and two discriminants, and each is
/// found again from its tag and from its discriminant.
pub proof fn lemma_key_type_distinct(a: KeyType, b: KeyType)
    ensures
        a.spec_wire_tag() == b.spec_wire_tag() ==> a == b,
        a.spec_discriminant() == b.spec_discriminant() ==> a == b,
        KeyType::spec_from_wire_tag(a.spec_wire_tag()) == Some(a),
        KeyType::spec_from_discriminant(a.spec_discriminant()) == Some(a),
{
}

/// A private key: the tag of its kind, as it stands on the wire, and 32
/// bytes of key material. It is overwritten with zeros when it is dropped.
#[derive(Debug, PartialEq, Eq)]
pub struct PrivateKey {
    pub type_: u32,
    pub key: [u8; 32],
}

/// A public key: the tag of its kind and 32 bytes of key material.
#[derive(Clone, Copy, Debug, PartialEq, Eq)]
pub struct PublicKey {
    pub type_: u32,
    pub key: [u8; 32],
}

/// A signature: the tag of the kind of key that made it, and its two halves.
#[derive(Clone, Copy, Debug, PartialEq, Eq)]
pub struct Signature {
    pub type_: u32,
    pub r: [u8; 32],
    pub s: [u8; 32],
}

/// A named identity.
#[derive(Debug, PartialEq, Eq)]
pub struct Ego {
    pub name: String,
    pub private_key: PrivateKey,
}

/// The bytes of a key on the wire: the tag, big-endian, and the key material.
pub open spec fn spec_wire_key(type_: u32, key: Seq<u8>) -> Seq<u8> {
    spec_u32_be(type_) + key
}

impl PrivateKey {
    /// The private key of the given kind with the given key material.
    pub fn new(key_type: KeyType, key: [u8; 32]) -> (k: Self)
        ensures
            k.type_ == key_type.spec_wire_tag(),
            k.key == key,
    {
        PrivateKey { type_: key_type.wire_tag(), key }
    }

    /// The kind of the key, where its tag stands for one.
    pub open spec fn spec_key_type(&self) -> Option<KeyType> {
        KeyType::spec_from_wire_tag(self.type_)
    }

    #[verifier::when_used_as_spec(spec_key_type)]
    pub fn key_type(&self) -> (r: Option<KeyType>)
        ensures
            r == self.spec_key_type(),
    {
        KeyType::from_wire_tag(self.type_)
    }

    /// Overwrites the key with zeros.
    pub fn wipe(&mut self)
        ensures
            final(self).type_ == 0,
            final(self).key@ == Seq::new(32, |i: int| 0u8),
        opens_invariants none
        no_unwind
    {
        self.type_ = 0;
        self.key = [
            0, 0, 0, 0, 0, 0, 0, 0, 0, 0, 0, 0, 0, 0, 0, 0,
            0, 0, 0, 0, 0, 0, 0, 0, 0, 0, 0, 0, 0, 0, 0, 0,
        ];
        assert(self.key@ =~= Seq::new(32, |i: int| 0u8));
    }
}

impl Clone for PrivateKey {
    fn clone(&self) -> (r: Self)
        ensures
            r == *self,
    {
        PrivateKey { type_: self.type_, key: self.key }
    }
}

impl Drop for PrivateKey {
    /// No key material outlives the key: the tag and all 32 bytes are zero
    /// when the value is given up.
    fn drop(&mut self)
        ensures
            final(self).type_ == 0,
            final(self).key@ == Seq::new(32, |i: int| 0u8),
        opens_invariants none
        no_unwind
    {
        self.wipe();
    }
}

impl Ego {
    pub fn new(name: String, private_key: PrivateKey) -> (e: Self)
        ensures
            e.name == name,
            e.private_key == private_key,
    {
        Ego { name, private_key }
    }
}

/// The 32 bytes of `bytes` from `offset` on.
pub(crate) fn array_at(bytes: &[u8], offset: usize) -> (out: [u8; 32])
    requires
        offset + 32 <= bytes@.len(),
    ensures
        out@ == bytes@.subrange(offset as int, offset + 32),
{
    let mut out: [u8; 32] = [
        0, 0, 0, 0, 0, 0, 0, 0, 0, 0, 0, 0, 0, 0, 0, 0,
        0, 0, 0, 0, 0, 0, 0, 0, 0, 0, 0, 0, 0, 0, 0, 0,
    ];
    let mut i: usize = 0;
    while i < 32
        invariant
            i <= 32,
            offset + 32 <= bytes.len(),
            out@.take(i as int) == bytes@.subrange(offset as int, offset + i),
        decreases 32 - i,
    {
        out[i] = bytes[offset + i];
        i += 1;
        assert(out@.take(i as int) =~= bytes@.subrange(offset as int, offset + i));
    }
    assert(out@.take(32) =~= out@);
    out
}

/// The canonical bytes of a value with tag `type_` and the given bytes after
/// it: the discriminant of the kind of key, then the bytes. There are none
/// where the tag stands for no kind of key.
pub open spec fn spec_canonical(type_: u32, body: Seq<u8>) -> Result<Seq<u8>, CodecError> {
    match KeyType::spec_from_wire_tag(type_) {
        Some(kt) => Ok(seq![kt.spec_discriminant()] + body),
        None => Err(CodecError::InvalidKeyType(type_)),
    }
}

/// What the canonical bytes `bytes` of a value with `len` bytes after the
/// discriminant stand for: the tag and those bytes. Bytes that follow the
/// value are ignored.
pub open spec fn spec_from_canonical(bytes: Seq<u8>, len: int) -> Result<
    (u32, Seq<u8>),
    CodecError,
> {
    if bytes.len() == 0 {
        Err(CodecError::MissingData)
    } else {
        match KeyType::spec_from_discriminant(bytes[0]) {
            None => Err(CodecError::InvalidKeyType(bytes[0] as u32)),
            Some(kt) => if bytes.len() < 1 + len {
                Err(CodecError::MissingData)
            } else {
                Ok((kt.spec_wire_tag(), bytes.subrange(1, 1 + len)))
            },
        }
    }
}

/// Canonical bytes are read back as the value that they were written from,
/// whatever follows them, and are one byte longer than what follows the tag.
pub proof fn lemma_canonical_roundtrip(type_: u32, body: Seq<u8>, rest: Seq<u8>)
    requires
        KeyType::spec_from_wire_tag(type_) is Some,
    ensures
        spec_canonical(type_, body) is Ok,
        spec_canonical(type_, body)->Ok_0.len() == 1 + body.len(),
        spec_from_canonical(spec_canonical(type_, body)->Ok_0 + rest, body.len() as int) == Ok::<
            (u32, Seq<u8>),
            CodecError,
        >((type_, body)),
{
    let bytes = spec_canonical(type_, body)->Ok_0;
    assert((bytes + rest).subrange(1, 1 + body.len() as int) =~= body);
}

/// Writes the discriminant of the kind of key with tag `type_`.
fn canonical_head(type_: u32) -> (r: Result<Vec<u8>, CodecError>)
    ensures
        match r {
            Ok(v) => spec_canonical(type_, Seq::empty()) == Ok::<Seq<u8>, CodecError>(v@),
            Err(e) => spec_canonical(type_, Seq::empty()) == Err::<Seq<u8>, CodecError>(e),
        },
{
    match KeyType::from_wire_tag(type_) {
        Some(kt) => {
            let mut out: Vec<u8> = Vec::new();
            out.push(kt.discriminant());
            assert(out@ =~= seq![kt.spec_discriminant()] + Seq::<u8>::empty());
            Ok(out)
        },
        None => Err(CodecError::InvalidKeyType(type_)),
    }
}

/// Reads the discriminant in front of a value with `len` bytes after it.
fn canonical_tag(bytes: &[u8], len: usize) -> (r: Result<u32, CodecError>)
    requires
        len <= 64,
    ensures
        match r {
            Ok(t) => spec_from_canonical(bytes@, len as int) matches Ok(p) && p.0 == t,
            Err(e) => spec_from_canonical(bytes@, len as int) == Err::<(u32, Seq<u8>), CodecError>(
                e,
            ),
        },
{
    if bytes.len() == 0 {
        return Err(CodecError::MissingData);
    }
    match KeyType::from_discriminant(bytes[0]) {
        None => Err(CodecError::InvalidKeyType(bytes[0] as u32)),
        Some(kt) => if bytes.len() < 1 + len {
            Err(CodecError::MissingData)
        } else {
            Ok(kt.wire_tag())
        },
    }
}

impl PublicKey {
    /// The public key of the given kind with the given key material.
    pub fn new(key_type: KeyType, key: [u8; 32]) -> (k: Self)
        ensures
            k.type_ == key_type.spec_wire_tag(),
            k.key == key,
    {
        PublicKey { type_: key_type.wire_tag(), key }
    }

    /// The kind of the key, where its tag stands for one.
    pub open spec fn spec_key_type(&self) -> Option<KeyType> {
        KeyType::spec_from_wire_tag(self.type_)
    }

    #[verifier::when_used_as_spec(spec_key_type)]
    pub fn key_type(&self) -> (r: Option<KeyType>)
        ensures
            r == self.spec_key_type(),
    {
        KeyType::from_wire_tag(self.type_)
    }

    /// The canonical form: the discriminant and the key material, 33 bytes.
    /// A key whose tag stands for no kind of key has none.
    pub fn to_bytes(&self) -> (r: Result<Vec<u8>, CodecError>)
        ensures
            match r {
                Ok(v) => spec_canonical(self.type_, self.key@) == Ok::<Seq<u8>, CodecError>(v@)
                    && v@.len() == PUBLIC_KEY_LEN,
                Err(e) => spec_canonical(self.type_, self.key@) == Err::<Seq<u8>, CodecError>(e),
            },
    {
        let mut out: Vec<u8> = canonical_head(self.type_)?;
        let ghost head = out@;
        let mut i: usize = 0;
        while i < 32
            invariant
                i <= 32,
                out@ == head + self.key@.take(i as int),
            decreases 32 - i,
        {
            out.push(self.key[i]);
            i += 1;
            assert(out@ =~= head + self.key@.take(i as int));
        }
        assert(self.key@.take(32) =~= self.key@);
        assert(out@ =~= spec_canonical(self.type_, self.key@)->Ok_0);
        Ok(out)
    }

    /// Reads a public key from its canonical form. Bytes after the 33rd are ignored.
    pub fn from_bytes(bytes: &[u8]) -> (r: Result<Self, CodecError>)
        ensures
            match r {
                Ok(k) => spec_from_canonical(bytes@, 32) == Ok::<(u32, Seq<u8>), CodecError>(
                    (k.type_, k.key@),
                ),
                Err(e) => spec_from_canonical(bytes@, 32) == Err::<(u32, Seq<u8>), CodecError>(e),
            },
    {
        let type_: u32 = canonical_tag(bytes, 32)?;
        let key: [u8; 32] = array_at(bytes, 1);
        Ok(PublicKey { type_, key })
    }
}

impl Signature {
    /// The kind of key that made the signature, where its tag stands for one.
    pub open spec fn spec_key_type(&self) -> Option<KeyType> {
        KeyType::spec_from_wire_tag(self.type_)
    }

    #[verifier::when_used_as_spec(spec_key_type)]
    pub fn key_type(&self) -> (r: Option<KeyType>)
        ensures
            r == self.spec_key_type(),
    {
        KeyType::from_wire_tag(self.type_)
    }

    /// The canonical form: the discriminant, then `r`, then `s`, 65 bytes.
    /// A signature whose tag stands for no kind of key has none.
    pub fn to_bytes(&self) -> (r: Result<Vec<u8>, CodecError>)
        ensures
            match r {
                Ok(v) => spec_canonical(self.type_, self.r@ + self.s@) == Ok::<
                    Seq<u8>,
                    CodecError,
                >(v@) && v@.len() == SIGNATURE_LEN,
                Err(e) => spec_canonical(self.type_, self.r@ + self.s@) == Err::<
                    Seq<u8>,
                    CodecError,
                >(e),
            },
    {
        let mut out: Vec<u8> = canonical_head(self.type_)?;
        let ghost head = out@;
        let mut i: usize = 0;
        while i < 32
            invariant
                i <= 32,
                out@ == head + self.r@.take(i as int),
            decreases 32 - i,
        {
            out.push(self.r[i]);
            i += 1;
            assert(out@ =~= head + self.r@.take(i as int));
        }
        assert(self.r@.take(32) =~= self.r@);
        i = 0;
        while i < 32
            invariant
                i <= 32,
                out@ == head + self.r@ + self.s@.take(i as int),
            decreases 32 - i,
        {
            out.push(self.s[i]);
            i += 1;
            assert(out@ =~= head + self.r@ + self.s@.take(i as int));
        }
        assert(self.s@.take(32) =~= self.s@);
        assert(out@ =~= spec_canonical(self.type_, self.r@ + self.s@)->Ok_0);
        Ok(out)
    }

    /// Reads a signature from its canonical form. Bytes after the 65th are ignored.
    pub fn from_bytes(bytes: &[u8]) -> (r: Result<Self, CodecError>)
        ensures
            match r {
                Ok(g) => spec_from_canonical(bytes@, 64) == Ok::<(u32, Seq<u8>), CodecError>(
                    (g.type_, g.r@ + g.s@),
                ),
                Err(e) => spec_from_canonical(bytes@, 64) == Err::<(u32, Seq<u8>), CodecError>(e),
            },
    {
        let type_: u32 = canonical_tag(bytes, 64)?;
        let r: [u8; 32] = array_at(bytes, 1);
        let s: [u8; 32] = array_at(bytes, 33);
        assert(r@ + s@ =~= bytes@.subrange(1, 65));
        Ok(Signature { type_, r, s })
    }
}

/// What a signature is made over and checked against: the length of `data`
/// and the purpose, both 32-bit big-endian, and then `data`.
pub open spec fn spec_signed_bytes(data: Seq<u8>, purpose: u32) -> Seq<u8> {
    spec_u32_be(data.len() as u32) + spec_u32_be(purpose) + data
}

/// The bytes that are handed to the signing primitive, and to the one that
/// verifies, for `data` under `purpose`.
pub fn signed_bytes(data: &[u8], purpose: u32) -> (out: Vec<u8>)
    requires
        data@.len() < u32::MAX,
    ensures
        out@ == spec_signed_bytes(data@, purpose),
        out@.len() == 8 + data@.len(),
{
    let mut out: Stream = Stream::new();
    out.write_u32(data.len() as u32);
    out.write_u32(purpose);
    out.write(data);
    let bytes: Vec<u8> = out.to_bytes();
    assert(bytes@ =~= spec_signed_bytes(data@, purpose));
    bytes
}

impl PrivateKey {
    /// Writes the key as it stands on the wire: the tag, then the key material.
    pub fn write_to(&self, out: &mut Stream)
        ensures
            final(out)@ == old(out)@ + spec_wire_key(self.type_, self.key@),
    {
        out.write_u32(self.type_);
        out.write(self.key.as_slice());
        assert(out@ =~= old(out)@ + spec_wire_key(self.type_, self.key@));
    }
}

} // verus!

//! Egos and their keys, and the conversation with the identity service.

pub mod client;
pub mod egos;
pub mod keys;

pub use client::{
    create_request, create_response, create_result, get_default_request, get_default_response,
    list_request, list_response, lookup_request, lookup_response, lookup_result, read_update,
    set_default_request, set_default_response, MESSAGE_TYPE_IDENTITY_CREATE,
    MESSAGE_TYPE_IDENTITY_GET_DEFAULT, MESSAGE_TYPE_IDENTITY_LOOKUP,
    MESSAGE_TYPE_IDENTITY_RESULT_CODE, MESSAGE_TYPE_IDENTITY_START, MESSAGE_TYPE_IDENTITY_UPDATE,
    RESULT_CODE_EXISTS, RESULT_CODE_NOT_FOUND,
};
pub use egos::Egos;
pub use keys::{
    signed_bytes, CodecError, Ego, KeyType, PrivateKey, PublicKey, Signature, KEYTYPE_ECDSA,
    KEYTYPE_EDDSA, PUBLIC_KEY_LEN, SIGNATURE_LEN,
};

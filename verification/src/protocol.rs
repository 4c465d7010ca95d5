//! Wire frames and digests.
//!
//! Every frame is a tagged record in a fixed binary layout: a variant is
//! identified by its zero-based declaration index as a little-endian 32-bit
//! integer, a `u8` is one octet, and a digest is emitted as 32 raw octets
//! without a length prefix.

use vstd::prelude::*;
use vstd::string::StringSliceAdditionalSpecFns;

verus! {

/// Width of a digest in octets.
pub const HASH_WIDTH_IN_BYTES: usize = 32;

/// The protocol version this server announces in its hello.
pub const CURRENT_PROTO_VERSION: u8 = 1;

/// Length of an encoded [`Hello`].
pub const HELLO_LEN: usize = 37;

/// Length of an encoded [`Auth`].
pub const AUTH_LEN: usize = 32;

/// Length of an encoded [`Ack`].
pub const ACK_LEN: usize = 4;

/// Length of an encoded [`ControlChannelCmd`] or [`DataChannelCmd`].
pub const CMD_LEN: usize = 4;

/// A SHA-256 value: a service digest, a nonce or a session key.
pub type Digest = [u8; 32];

/// SHA-256 of a byte string, as the `sha2` crate computes it.
pub uninterp spec fn sha256(data: Seq<u8>) -> Seq<u8>;

/// Calls `sha2::Sha256::digest` (the one-shot form of `Digest` for `Sha256`).
/// The contract names the result: the 32 octets returned are `sha256` of the
/// input octets. Nothing about the hash function itself is proved here.
#[verifier::external_body]
fn sha256_of(data: &[u8]) -> (d: Digest)
    ensures
        d@ == sha256(data@),
{
    <sha2::Sha256 as sha2::Digest>::digest(data).into()
}

/// SHA-256 of `data`.
pub fn digest(data: &[u8]) -> (d: Digest)
    ensures
        d@ == sha256(data@),
{
    sha256_of(data)
}

/// Appends the octets of `src` to `dst`.
pub fn append_bytes(dst: &mut Vec<u8>, src: &[u8])
    ensures
        final(dst)@ == old(dst)@ + src@,
{
    let n: usize = src.len();
    let mut i: usize = 0;
    while i < n
        invariant
            n == src@.len(),
            i <= n,
            dst@ == old(dst)@ + src@.subrange(0, i as int),
        decreases n - i,
    {
        dst.push(src[i]);
        i = i + 1;
        assert(src@.subrange(0, i as int) == src@.subrange(0, i - 1).push(src@[i - 1]));
    }
    assert(src@.subrange(0, n as int) == src@);
}

/// Whether two digests hold the same octets.
pub fn digest_eq(a: &Digest, b: &Digest) -> (same: bool)
    ensures
        same == (a@ == b@),
{
    let mut i: usize = 0;
    while i < 32
        invariant
            i <= 32,
            forall|j: int| 0 <= j < i ==> a@[j] == b@[j],
        decreases 32 - i,
    {
        if a[i] != b[i] {
            return false;
        }
        i = i + 1;
    }
    assert(a@ =~= b@);
    true
}

/// The digest that names a service on the wire: SHA-256 of the UTF-8 octets
/// of its name.
pub fn service_digest(name: &str) -> (d: Digest)
    ensures
        d@ == sha256(name.spec_bytes()),
{
    sha256_of(name.as_bytes())
}

/// The session key a client must present: SHA-256 of the UTF-8 octets of the
/// service token followed by the 32 octets of the server's nonce.
pub fn session_key(token: &str, nonce: &Digest) -> (d: Digest)
    ensures
        d@ == sha256(token.spec_bytes() + nonce@),
{
    let mut concat: Vec<u8> = Vec::new();
    append_bytes(&mut concat, token.as_bytes());
    append_bytes(&mut concat, nonce.as_slice());
    sha256_of(concat.as_slice())
}

/// Why a frame could not be decoded.
#[derive(Clone, Copy, Debug, PartialEq, Eq, Structural)]
pub enum DecodeError {
    /// The buffer does not have the length of the frame.
    WrongLength,
    /// The leading variant index names no variant of the record.
    UnknownVariant,
}

/// The four octets that identify the variant with declaration index `index`.
pub open spec fn variant_tag(index: u8) -> Seq<u8> {
    seq![index, 0u8, 0u8, 0u8]
}

/// The variant index that a frame starts with, if its first four octets are a
/// little-endian integer below 256.
pub open spec fn spec_variant_index(b: Seq<u8>) -> Option<u8> {
    if b.len() >= 4 && b[1] == 0 && b[2] == 0 && b[3] == 0 {
        Some(b[0])
    } else {
        None
    }
}

/// First frame on every connection from a client.
#[derive(Clone, Copy, Debug, PartialEq, Eq)]
pub enum Hello {
    /// Protocol version and, from the client, the digest of the service it
    /// serves; from the server, the nonce it challenges the client with.
    ControlChannelHello(u8, Digest),
    /// Protocol version and the nonce of the control channel that asked for
    /// this data channel.
    DataChannelHello(u8, Digest),
}

/// What a [`Hello`] holds, with its digest as a sequence of octets.
pub enum HelloView {
    ControlChannelHello(u8, Seq<u8>),
    DataChannelHello(u8, Seq<u8>),
}

impl View for Hello {
    type V = HelloView;

    open spec fn view(&self) -> HelloView {
        match *self {
            Hello::ControlChannelHello(v, d) => HelloView::ControlChannelHello(v, d@),
            Hello::DataChannelHello(v, d) => HelloView::DataChannelHello(v, d@),
        }
    }
}

/// The client's answer to the server's challenge: its session key.
#[derive(Clone, Copy, Debug, PartialEq, Eq)]
pub struct Auth(pub Digest);

impl View for Auth {
    type V = Seq<u8>;

    open spec fn view(&self) -> Seq<u8> {
        self.0@
    }
}

/// The server's verdict on a control-channel handshake.
#[derive(Clone, Copy, Debug, PartialEq, Eq, Structural)]
pub enum Ack {
    Okay,
    AuthFailed,
    ServiceNotExist,
}

/// Commands the server sends on a control channel.
#[derive(Clone, Copy, Debug, PartialEq, Eq, Structural)]
pub enum ControlChannelCmd {
    CreateDataChannel,
}

/// Commands the server sends on a data channel.
#[derive(Clone, Copy, Debug, PartialEq, Eq, Structural)]
pub enum DataChannelCmd {
    StartForward,
}

/// The octets of a hello.
pub open spec fn spec_encode_hello(h: HelloView) -> Seq<u8> {
    match h {
        HelloView::ControlChannelHello(v, d) => variant_tag(0).push(v) + d,
        HelloView::DataChannelHello(v, d) => variant_tag(1).push(v) + d,
    }
}

/// The hello that a buffer holds.
pub open spec fn spec_decode_hello(b: Seq<u8>) -> Result<HelloView, DecodeError> {
    if b.len() != HELLO_LEN {
        Err(DecodeError::WrongLength)
    } else {
        match spec_variant_index(b) {
            Some(0u8) => Ok(HelloView::ControlChannelHello(b[4], b.subrange(5, 37))),
            Some(1u8) => Ok(HelloView::DataChannelHello(b[4], b.subrange(5, 37))),
            _ => Err(DecodeError::UnknownVariant),
        }
    }
}

/// The octets of an auth frame: the session key itself.
pub open spec fn spec_encode_auth(key: Seq<u8>) -> Seq<u8> {
    key
}

/// The session key that a buffer holds.
pub open spec fn spec_decode_auth(b: Seq<u8>) -> Result<Seq<u8>, DecodeError> {
    if b.len() != AUTH_LEN {
        Err(DecodeError::WrongLength)
    } else {
        Ok(b)
    }
}

/// The octets of an ack.
pub open spec fn spec_encode_ack(a: Ack) -> Seq<u8> {
    match a {
        Ack::Okay => variant_tag(0),
        Ack::AuthFailed => variant_tag(1),
        Ack::ServiceNotExist => variant_tag(2),
    }
}

/// The ack that a buffer holds.
pub open spec fn spec_decode_ack(b: Seq<u8>) -> Result<Ack, DecodeError> {
    if b.len() != ACK_LEN {
        Err(DecodeError::WrongLength)
    } else {
        match spec_variant_index(b) {
            Some(0u8) => Ok(Ack::Okay),
            Some(1u8) => Ok(Ack::AuthFailed),
            Some(2u8) => Ok(Ack::ServiceNotExist),
            _ => Err(DecodeError::UnknownVariant),
        }
    }
}

/// The octets of a control-channel command.
pub open spec fn spec_encode_control_cmd(c: ControlChannelCmd) -> Seq<u8> {
    match c {
        ControlChannelCmd::CreateDataChannel => variant_tag(0),
    }
}

/// The control-channel command that a buffer holds.
pub open spec fn spec_decode_control_cmd(b: Seq<u8>) -> Result<ControlChannelCmd, DecodeError> {
    if b.len() != CMD_LEN {
        Err(DecodeError::WrongLength)
    } else {
        match spec_variant_index(b) {
            Some(0u8) => Ok(ControlChannelCmd::CreateDataChannel),
            _ => Err(DecodeError::UnknownVariant),
        }
    }
}

/// The octets of a data-channel command.
pub open spec fn spec_encode_data_cmd(c: DataChannelCmd) -> Seq<u8> {
    match c {
        DataChannelCmd::StartForward => variant_tag(0),
    }
}

/// The data-channel command that a buffer holds.
pub open spec fn spec_decode_data_cmd(b: Seq<u8>) -> Result<DataChannelCmd, DecodeError> {
    if b.len() != CMD_LEN {
        Err(DecodeError::WrongLength)
    } else {
        match spec_variant_index(b) {
            Some(0u8) => Ok(DataChannelCmd::StartForward),
            _ => Err(DecodeError::UnknownVariant),
        }
    }
}

/// A fresh buffer holding the tag of variant `index`.
fn tag_vec(index: u8) -> (out: Vec<u8>)
    ensures
        out@ == variant_tag(index),
{
    let mut out: Vec<u8> = Vec::new();
    out.push(index);
    out.push(0u8);
    out.push(0u8);
    out.push(0u8);
    assert(out@ =~= variant_tag(index));
    out
}

/// The variant index at the head of `bytes`.
fn read_variant_index(bytes: &[u8]) -> (index: Option<u8>)
    ensures
        index == spec_variant_index(bytes@),
{
    if bytes.len() >= 4 && bytes[1] == 0 && bytes[2] == 0 && bytes[3] == 0 {
        Some(bytes[0])
    } else {
        None
    }
}

/// The digest stored in `bytes` from offset `at`.
fn read_digest(bytes: &[u8], at: usize) -> (d: Digest)
    requires
        at + 32 <= bytes@.len(),
    ensures
        d@ == bytes@.subrange(at as int, at + 32),
{
    let n: usize = bytes.len();
    let mut d: Digest = [0u8; 32];
    let mut i: usize = 0;
    while i < 32
        invariant
            i <= 32,
            n == bytes@.len(),
            at + 32 <= n,
            forall|j: int| 0 <= j < i ==> d@[j] == bytes@[at + j],
        decreases 32 - i,
    {
        d[i] = bytes[at + i];
        i = i + 1;
    }
    assert(d@ =~= bytes@.subrange(at as int, at + 32));
    d
}

/// Encodes a hello.
pub fn encode_hello(h: &Hello) -> (out: Vec<u8>)
    ensures
        out@ == spec_encode_hello(h@),
{
    match h {
        Hello::ControlChannelHello(v, d) => {
            let mut out = tag_vec(0);
            out.push(*v);
            append_bytes(&mut out, d.as_slice());
            out
        },
        Hello::DataChannelHello(v, d) => {
            let mut out = tag_vec(1);
            out.push(*v);
            append_bytes(&mut out, d.as_slice());
            out
        },
    }
}

/// Decodes a hello from a buffer of exactly [`HELLO_LEN`] octets.
pub fn decode_hello(bytes: &[u8]) -> (r: Result<Hello, DecodeError>)
    ensures
        match r {
            Ok(h) => spec_decode_hello(bytes@) == Ok::<HelloView, DecodeError>(h@),
            Err(e) => spec_decode_hello(bytes@) == Err::<HelloView, DecodeError>(e),
        },
{
    if bytes.len() != HELLO_LEN {
        return Err(DecodeError::WrongLength);
    }
    match read_variant_index(bytes) {
        Some(0u8) => Ok(Hello::ControlChannelHello(bytes[4], read_digest(bytes, 5))),
        Some(1u8) => Ok(Hello::DataChannelHello(bytes[4], read_digest(bytes, 5))),
        _ => Err(DecodeError::UnknownVariant),
    }
}

/// Encodes an auth frame.
pub fn encode_auth(a: &Auth) -> (out: Vec<u8>)
    ensures
        out@ == spec_encode_auth(a@),
{
    let mut out: Vec<u8> = Vec::new();
    append_bytes(&mut out, a.0.as_slice());
    out
}

/// Decodes an auth frame from a buffer of exactly [`AUTH_LEN`] octets.
pub fn decode_auth(bytes: &[u8]) -> (r: Result<Auth, DecodeError>)
    ensures
        match r {
            Ok(a) => spec_decode_auth(bytes@) == Ok::<Seq<u8>, DecodeError>(a@),
            Err(e) => spec_decode_auth(bytes@) == Err::<Seq<u8>, DecodeError>(e),
        },
{
    if bytes.len() != AUTH_LEN {
        return Err(DecodeError::WrongLength);
    }
    let d = read_digest(bytes, 0);
    assert(bytes@.subrange(0, 32) == bytes@);
    Ok(Auth(d))
}

/// Encodes an ack.
pub fn encode_ack(a: &Ack) -> (out: Vec<u8>)
    ensures
        out@ == spec_encode_ack(*a),
{
    match a {
        Ack::Okay => tag_vec(0),
        Ack::AuthFailed => tag_vec(1),
        Ack::ServiceNotExist => tag_vec(2),
    }
}

/// Decodes an ack from a buffer of exactly [`ACK_LEN`] octets.
pub fn decode_ack(bytes: &[u8]) -> (r: Result<Ack, DecodeError>)
    ensures
        r == spec_decode_ack(bytes@),
{
    if bytes.len() != ACK_LEN {
        return Err(DecodeError::WrongLength);
    }
    match read_variant_index(bytes) {
        Some(0u8) => Ok(Ack::Okay),
        Some(1u8) => Ok(Ack::AuthFailed),
        Some(2u8) => Ok(Ack::ServiceNotExist),
        _ => Err(DecodeError::UnknownVariant),
    }
}

/// Encodes a control-channel command.
pub fn encode_control_cmd(c: &ControlChannelCmd) -> (out: Vec<u8>)
    ensures
        out@ == spec_encode_control_cmd(*c),
{
    match c {
        ControlChannelCmd::CreateDataChannel => tag_vec(0),
    }
}

/// Decodes a control-channel command from a buffer of exactly [`CMD_LEN`]
/// octets.
pub fn decode_control_cmd(bytes: &[u8]) -> (r: Result<ControlChannelCmd, DecodeError>)
    ensures
        r == spec_decode_control_cmd(bytes@),
{
    if bytes.len() != CMD_LEN {
        return Err(DecodeError::WrongLength);
    }
    match read_variant_index(bytes) {
        Some(0u8) => Ok(ControlChannelCmd::CreateDataChannel),
        _ => Err(DecodeError::UnknownVariant),
    }
}

/// Encodes a data-channel command.
pub fn encode_data_cmd(c: &DataChannelCmd) -> (out: Vec<u8>)
    ensures
        out@ == spec_encode_data_cmd(*c),
{
    match c {
        DataChannelCmd::StartForward => tag_vec(0),
    }
}

/// Decodes a data-channel command from a buffer of exactly [`CMD_LEN`] octets.
pub fn decode_data_cmd(bytes: &[u8]) -> (r: Result<DataChannelCmd, DecodeError>)
    ensures
        r == spec_decode_data_cmd(bytes@),
{
    if bytes.len() != CMD_LEN {
        return Err(DecodeError::WrongLength);
    }
    match read_variant_index(bytes) {
        Some(0u8) => Ok(DataChannelCmd::StartForward),
        _ => Err(DecodeError::UnknownVariant),
    }
}

/// Two digests with the same octets are the same digest.
pub proof fn digest_view_injective(a: Digest, b: Digest)
    requires
        a@ == b@,
    ensures
        a == b,
{
    assert forall|i: int| 0 <= i < 32 implies a[i] == b[i] by {
        assert(a@[i] == b@[i]);
    }
    assert(a =~= b);
}

/// Two hellos with the same view are the same hello.
pub proof fn hello_view_injective(a: Hello, b: Hello)
    requires
        a@ == b@,
    ensures
        a == b,
{
    match (a, b) {
        (Hello::ControlChannelHello(_, x), Hello::ControlChannelHello(_, y)) => {
            digest_view_injective(x, y);
        },
        (Hello::DataChannelHello(_, x), Hello::DataChannelHello(_, y)) => {
            digest_view_injective(x, y);
        },
        _ => {},
    }
}

/// Decoding the encoding of a hello gives that hello back, and the encoding
/// has the length of the frame.
pub proof fn hello_round_trip(h: Hello)
    ensures
        spec_encode_hello(h@).len() == HELLO_LEN,
        spec_decode_hello(spec_encode_hello(h@)) == Ok::<HelloView, DecodeError>(h@),
{
    let b = spec_encode_hello(h@);
    match h {
        Hello::ControlChannelHello(v, d) => {
            assert(b.subrange(5, 37) =~= d@);
        },
        Hello::DataChannelHello(v, d) => {
            assert(b.subrange(5, 37) =~= d@);
        },
    }
}

/// A buffer that decodes to a hello is the encoding of that hello: no two
/// buffers hold the same hello.
pub proof fn hello_encoding_canonical(b: Seq<u8>)
    ensures
        match spec_decode_hello(b) {
            Ok(h) => spec_encode_hello(h) == b,
            Err(_) => true,
        },
{
    match spec_decode_hello(b) {
        Ok(h) => {
            assert(spec_encode_hello(h) =~= b);
        },
        Err(_) => {},
    }
}

/// Decoding the encoding of an auth frame gives that frame back.
pub proof fn auth_round_trip(a: Auth)
    ensures
        spec_encode_auth(a@).len() == AUTH_LEN,
        spec_decode_auth(spec_encode_auth(a@)) == Ok::<Seq<u8>, DecodeError>(a@),
{
}

/// Decoding the encoding of an ack gives that ack back, and a buffer that
/// decodes to an ack is its encoding.
pub proof fn ack_round_trip(a: Ack)
    ensures
        spec_encode_ack(a).len() == ACK_LEN,
        spec_decode_ack(spec_encode_ack(a)) == Ok::<Ack, DecodeError>(a),
        forall|b: Seq<u8>| spec_decode_ack(b) == Ok::<Ack, DecodeError>(a) ==> b == spec_encode_ack(a),
{
    assert forall|b: Seq<u8>| spec_decode_ack(b) == Ok::<Ack, DecodeError>(a) implies b
        == spec_encode_ack(a) by {
        assert(b =~= spec_encode_ack(a));
    }
}

/// Decoding the encoding of a control-channel command gives that command back.
pub proof fn control_cmd_round_trip(c: ControlChannelCmd)
    ensures
        spec_encode_control_cmd(c).len() == CMD_LEN,
        spec_decode_control_cmd(spec_encode_control_cmd(c)) == Ok::<ControlChannelCmd, DecodeError>(c),
{
}

/// Decoding the encoding of a data-channel command gives that command back.
pub proof fn data_cmd_round_trip(c: DataChannelCmd)
    ensures
        spec_encode_data_cmd(c).len() == CMD_LEN,
        spec_decode_data_cmd(spec_encode_data_cmd(c)) == Ok::<DataChannelCmd, DecodeError>(c),
{
}

} // verus!

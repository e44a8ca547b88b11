//! Wire format of the binary transport.
//!
//! A frame is a two-byte big-endian length `N` followed by `N` payload bytes.
//! The payload is the JSON text of one request or response; this module moves
//! payloads in and out of byte buffers and leaves the JSON text itself to the
//! caller.

use crate::text::texts;
use byteorder::BigEndian;
use byteorder::ByteOrder;
use bytes::BufMut;
use bytes::BytesMut;
use vstd::prelude::*;

verus! {

/// What a client may ask over the binary transport.
#[derive(Debug, Clone, PartialEq, Eq)]
pub enum ChatRequest {
    /// Ask for the names of all rooms.
    List,
    /// Move to the named room.
    Join(String),
    /// Say something in the current room.
    Message(String),
    /// Liveness signal.
    Ping,
}

/// What the server may tell a client over the binary transport.
#[derive(Debug, Clone, PartialEq, Eq)]
pub enum ChatResponse {
    /// Liveness probe.
    Ping,
    /// The names of all rooms.
    Rooms(Vec<String>),
    /// The room that was joined.
    Joined(String),
    /// A line of chat.
    Message(String),
}

/// A request as a value.
pub enum ChatRequestView {
    List,
    Join(Seq<char>),
    Message(Seq<char>),
    Ping,
}

impl View for ChatRequest {
    type V = ChatRequestView;

    open spec fn view(&self) -> ChatRequestView {
        match self {
            ChatRequest::List => ChatRequestView::List,
            ChatRequest::Join(room) => ChatRequestView::Join(room@),
            ChatRequest::Message(text) => ChatRequestView::Message(text@),
            ChatRequest::Ping => ChatRequestView::Ping,
        }
    }
}

/// A response as a value.
pub enum ChatResponseView {
    Ping,
    Rooms(Seq<Seq<char>>),
    Joined(Seq<char>),
    Message(Seq<char>),
}

impl View for ChatResponse {
    type V = ChatResponseView;

    open spec fn view(&self) -> ChatResponseView {
        match self {
            ChatResponse::Ping => ChatResponseView::Ping,
            ChatResponse::Rooms(rooms) => ChatResponseView::Rooms(texts(rooms@)),
            ChatResponse::Joined(room) => ChatResponseView::Joined(room@),
            ChatResponse::Message(text) => ChatResponseView::Message(text@),
        }
    }
}

/// Largest payload that the two-byte length field can announce.
pub const MAX_PAYLOAD: usize = 65535;

/// The payload is longer than a frame can carry.
#[derive(Debug, Clone, Copy, PartialEq, Eq)]
pub struct TooLong;

#[verifier::external_type_specification]
#[verifier::external_body]
pub struct ExBytesMut(BytesMut);

/// The bytes that a buffer holds, first to last.
pub uninterp spec fn buffered(buf: BytesMut) -> Seq<u8>;

/// The number that two bytes spell in big-endian order.
pub open spec fn be_u16(hi: u8, lo: u8) -> int {
    hi as int * 256 + lo as int
}

/// The two bytes that spell `n` in big-endian order.
pub open spec fn length_prefix(n: int) -> Seq<u8> {
    seq![(n / 256) as u8, (n % 256) as u8]
}

/// The frame that carries `payload`.
pub open spec fn frame(payload: Seq<u8>) -> Seq<u8> {
    length_prefix(payload.len() as int) + payload
}

/// The payload length that the first two bytes of `buf` announce.
pub open spec fn announced(buf: Seq<u8>) -> int
    recommends
        buf.len() >= 2,
{
    be_u16(buf[0], buf[1])
}

/// Whether `buf` starts with a complete frame.
pub open spec fn frame_ready(buf: Seq<u8>) -> bool {
    buf.len() >= 2 && buf.len() >= 2 + announced(buf)
}

/// The payload of the frame at the start of `buf`.
pub open spec fn first_payload(buf: Seq<u8>) -> Seq<u8>
    recommends
        frame_ready(buf),
{
    buf.subrange(2, 2 + announced(buf))
}

/// What is left of `buf` once its first frame is taken away.
pub open spec fn after_frame(buf: Seq<u8>) -> Seq<u8>
    recommends
        frame_ready(buf),
{
    buf.skip(2 + announced(buf))
}

/// `BytesMut::len`: the number of bytes the buffer holds.
#[verifier::external_body]
fn buf_len(buf: &BytesMut) -> (n: usize)
    ensures
        n == buffered(*buf).len(),
{
    buf.len()
}

/// `AsRef<[u8]>::as_ref` of `BytesMut`: the held bytes as a slice.
#[verifier::external_body]
fn buf_bytes(buf: &BytesMut) -> (bytes: &[u8])
    ensures
        bytes@ == buffered(*buf),
{
    buf.as_ref()
}

/// `BytesMut::split_to`: the returned buffer holds the first `at` bytes and
/// `buf` keeps the rest. The call panics when `at` exceeds the length.
#[verifier::external_body]
fn buf_split_to(buf: &mut BytesMut, at: usize) -> (head: BytesMut)
    requires
        at <= buffered(*old(buf)).len(),
    ensures
        buffered(head) == buffered(*old(buf)).take(at as int),
        buffered(*final(buf)) == buffered(*old(buf)).skip(at as int),
{
    buf.split_to(at)
}

/// `BytesMut::reserve`: makes room and leaves the held bytes as they are.
/// The call panics when the new capacity overflows.
#[verifier::external_body]
fn buf_reserve(buf: &mut BytesMut, additional: usize)
    requires
        buffered(*old(buf)).len() + additional <= isize::MAX,
    ensures
        buffered(*final(buf)) == buffered(*old(buf)),
{
    buf.reserve(additional)
}

/// `BufMut::put_u16` on `BytesMut`: appends `n` as two big-endian bytes.
#[verifier::external_body]
fn buf_put_u16(buf: &mut BytesMut, n: u16)
    requires
        buffered(*old(buf)).len() + 2 <= isize::MAX,
    ensures
        buffered(*final(buf)) == buffered(*old(buf)) + length_prefix(n as int),
{
    buf.put_u16(n)
}

/// `BufMut::put` on `BytesMut` with a byte slice: appends the slice.
#[verifier::external_body]
fn buf_put(buf: &mut BytesMut, bytes: &[u8])
    requires
        buffered(*old(buf)).len() + bytes@.len() <= isize::MAX,
    ensures
        buffered(*final(buf)) == buffered(*old(buf)) + bytes@,
{
    buf.put(bytes)
}

/// `BigEndian::read_u16` of byteorder: the number that the first two bytes
/// spell. The call panics on fewer than two bytes.
#[verifier::external_body]
fn read_u16_be(bytes: &[u8]) -> (n: u16)
    requires
        bytes@.len() >= 2,
    ensures
        n == be_u16(bytes@[0], bytes@[1]),
{
    BigEndian::read_u16(bytes)
}

/// Takes the payload of the first frame out of `src` once the whole frame
/// has arrived; until then `src` is left untouched.
pub fn take_frame(src: &mut BytesMut) -> (payload: Option<BytesMut>)
    ensures
        frame_ready(buffered(*old(src))) ==> payload is Some
            && buffered(payload->0) == first_payload(buffered(*old(src)))
            && buffered(*final(src)) == after_frame(buffered(*old(src))),
        !frame_ready(buffered(*old(src))) ==> payload is None
            && buffered(*final(src)) == buffered(*old(src)),
{
    if buf_len(src) < 2 {
        return None;
    }
    let size: usize = read_u16_be(buf_bytes(src)) as usize;
    if buf_len(src) >= size + 2 {
        let _ = buf_split_to(src, 2);
        let payload = buf_split_to(src, size);
        proof {
            let whole = buffered(*old(src));
            assert(whole.skip(2).take(size as int) =~= first_payload(whole));
            assert(whole.skip(2).skip(size as int) =~= after_frame(whole));
        }
        return Some(payload);
    }
    None
}

/// Whether the frame of `payload` can be appended to a buffer that holds
/// `held`: the length field can spell the payload's length, and the buffer
/// does not outgrow what memory can address.
pub open spec fn fits(payload: Seq<u8>, held: Seq<u8>) -> bool {
    payload.len() <= MAX_PAYLOAD && held.len() + payload.len() + 2 <= isize::MAX
}

/// Appends the frame that carries `payload` to `dst`, or leaves `dst` as it
/// is and reports the payload as too long where the frame does not fit.
pub fn put_frame(payload: &[u8], dst: &mut BytesMut) -> (done: Result<(), TooLong>)
    ensures
        done is Ok <==> fits(payload@, buffered(*old(dst))),
        done is Ok ==> buffered(*final(dst)) == buffered(*old(dst)) + frame(payload@),
        done is Err ==> buffered(*final(dst)) == buffered(*old(dst)),
{
    if payload.len() > MAX_PAYLOAD {
        return Err(TooLong);
    }
    let room: usize = isize::MAX as usize - 2 - payload.len();
    if buf_len(dst) > room {
        return Err(TooLong);
    }
    buf_reserve(dst, payload.len() + 2);
    buf_put_u16(dst, payload.len() as u16);
    buf_put(dst, payload);
    proof {
        let before = buffered(*old(dst));
        assert(before + length_prefix(payload@.len() as int) + payload@ =~= before + frame(
            payload@,
        ));
    }
    Ok(())
}

/// Server side of the binary transport: requests come in, responses go out.
pub struct ChatCodec;

impl ChatCodec {
    /// Takes the payload of the next request frame out of `src`, or `None`
    /// while the frame is still incomplete.
    pub fn decode(&mut self, src: &mut BytesMut) -> (payload: Option<BytesMut>)
        ensures
            frame_ready(buffered(*old(src))) ==> payload is Some
                && buffered(payload->0) == first_payload(buffered(*old(src)))
                && buffered(*final(src)) == after_frame(buffered(*old(src))),
            !frame_ready(buffered(*old(src))) ==> payload is None
                && buffered(*final(src)) == buffered(*old(src)),
    {
        take_frame(src)
    }

    /// Appends the frame of one response payload to `dst`, or leaves `dst`
    /// as it is where the frame does not fit.
    pub fn encode(&mut self, item: &[u8], dst: &mut BytesMut) -> (done: Result<(), TooLong>)
        ensures
            done is Ok <==> fits(item@, buffered(*old(dst))),
            done is Ok ==> buffered(*final(dst)) == buffered(*old(dst)) + frame(item@),
            done is Err ==> buffered(*final(dst)) == buffered(*old(dst)),
    {
        put_frame(item, dst)
    }
}

/// Client side of the binary transport: responses come in, requests go out.
pub struct ClientChatCodec;

impl ClientChatCodec {
    /// Takes the payload of the next response frame out of `src`, or `None`
    /// while the frame is still incomplete.
    pub fn decode(&mut self, src: &mut BytesMut) -> (payload: Option<BytesMut>)
        ensures
            frame_ready(buffered(*old(src))) ==> payload is Some
                && buffered(payload->0) == first_payload(buffered(*old(src)))
                && buffered(*final(src)) == after_frame(buffered(*old(src))),
            !frame_ready(buffered(*old(src))) ==> payload is None
                && buffered(*final(src)) == buffered(*old(src)),
    {
        take_frame(src)
    }

    /// Appends the frame of one request payload to `dst`, or leaves `dst`
    /// as it is where the frame does not fit.
    pub fn encode(&mut self, item: &[u8], dst: &mut BytesMut) -> (done: Result<(), TooLong>)
        ensures
            done is Ok <==> fits(item@, buffered(*old(dst))),
            done is Ok ==> buffered(*final(dst)) == buffered(*old(dst)) + frame(item@),
            done is Err ==> buffered(*final(dst)) == buffered(*old(dst)),
    {
        put_frame(item, dst)
    }
}

/// A frame followed by anything decodes to its payload and leaves what
/// followed.
pub proof fn frame_round_trip(payload: Seq<u8>, rest: Seq<u8>)
    requires
        payload.len() <= MAX_PAYLOAD,
    ensures
        frame_ready(frame(payload) + rest),
        first_payload(frame(payload) + rest) == payload,
        after_frame(frame(payload) + rest) == rest,
{
    let n = payload.len() as int;
    let whole = frame(payload) + rest;
    assert(whole[0] == (n / 256) as u8);
    assert(whole[1] == (n % 256) as u8);
    assert(announced(whole) == n);
    assert(whole.subrange(2, 2 + n) =~= payload);
    assert(whole.skip(2 + n) =~= rest);
}

/// A frame that arrives in pieces is taken for complete only once its last
/// byte is there, and then it decodes to its payload with nothing left.
pub proof fn frame_fed_in_pieces(payload: Seq<u8>, k: int)
    requires
        payload.len() <= MAX_PAYLOAD,
        0 <= k <= frame(payload).len(),
    ensures
        frame_ready(frame(payload).take(k)) == (k == frame(payload).len()),
        k == frame(payload).len() ==> first_payload(frame(payload).take(k)) == payload
            && after_frame(frame(payload).take(k)) == Seq::<u8>::empty(),
{
    let n = payload.len() as int;
    let part = frame(payload).take(k);
    if k >= 2 {
        assert(part[0] == (n / 256) as u8);
        assert(part[1] == (n % 256) as u8);
        assert(announced(part) == n);
    }
    if k == frame(payload).len() {
        frame_round_trip(payload, Seq::empty());
        assert(part =~= frame(payload) + Seq::<u8>::empty());
    }
}

} // verus!

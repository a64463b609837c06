//! The messages of the control channel and their length-prefixed frames.

use crate::wire::{
    announced_len, put_text, put_u32, put_u64, starts_with_text, take_text, take_u32, take_u64,
    text_bytes,
};
use vstd::bytes::*;
use vstd::prelude::*;
use vstd::slice::slice_subrange;
use vstd::utf8::*;

verus! {

broadcast use vstd::utf8::group_utf8_lib;

/// The closed set of messages that travel over a control connection.
pub enum ControlMessage {
    /// "Who are you?"
    IdRequest,
    /// The answer to `IdRequest`: the service's process id.
    IdResponse(u32),
    /// The caller's whole argument vector, in order.
    Args(Vec<String>),
    /// One chunk of streamed output.
    Packet(String),
    /// Nothing more will be sent on this connection.
    CloseSocket,
}

/// What a `ControlMessage` holds, with texts as character sequences.
pub enum MessageModel {
    IdRequest,
    IdResponse(u32),
    Args(Seq<Seq<char>>),
    Packet(Seq<char>),
    CloseSocket,
}

impl View for ControlMessage {
    type V = MessageModel;

    open spec fn view(&self) -> MessageModel {
        match self {
            ControlMessage::IdRequest => MessageModel::IdRequest,
            ControlMessage::IdResponse(pid) => MessageModel::IdResponse(*pid),
            ControlMessage::Args(args) => MessageModel::Args(args.deep_view()),
            ControlMessage::Packet(text) => MessageModel::Packet(text@),
            ControlMessage::CloseSocket => MessageModel::CloseSocket,
        }
    }
}

/// Why a frame could not be read as a message.
#[derive(Debug, PartialEq, Eq, Structural)]
pub enum DecodeError {
    /// The length prefix is missing or does not give the length of the body.
    BadLength,
    /// The body is no message: an unknown tag, a truncated or invalid field,
    /// or bytes left over after the message.
    BadPayload,
}

/// The tag of `IdRequest`; the tags number the variants in declaration order.
pub const TAG_ID_REQUEST: u32 = 0;
/// The tag of `IdResponse`.
pub const TAG_ID_RESPONSE: u32 = 1;
/// The tag of `Args`.
pub const TAG_ARGS: u32 = 2;
/// The tag of `Packet`.
pub const TAG_PACKET: u32 = 3;
/// The tag of `CloseSocket`.
pub const TAG_CLOSE_SOCKET: u32 = 4;

/// Width of the length prefix that opens every frame.
pub const PREFIX_LEN: usize = 8;

/// The texts of an argument vector, one after the other.
pub open spec fn texts_bytes(ts: Seq<Seq<char>>) -> Seq<u8>
    decreases ts.len(),
{
    if ts.len() == 0 {
        Seq::empty()
    } else {
        texts_bytes(ts.drop_last()) + text_bytes(ts.last())
    }
}

/// An argument vector on the wire: its length as eight little-endian bytes,
/// then its texts.
pub open spec fn args_bytes(args: Seq<Seq<char>>) -> Seq<u8> {
    spec_u64_to_le_bytes(args.len() as u64) + texts_bytes(args)
}

/// The tag that opens the body of each variant.
pub open spec fn tag_of(m: MessageModel) -> u32 {
    match m {
        MessageModel::IdRequest => TAG_ID_REQUEST,
        MessageModel::IdResponse(_) => TAG_ID_RESPONSE,
        MessageModel::Args(_) => TAG_ARGS,
        MessageModel::Packet(_) => TAG_PACKET,
        MessageModel::CloseSocket => TAG_CLOSE_SOCKET,
    }
}

/// The fields of a message, as they follow its tag.
pub open spec fn fields_bytes(m: MessageModel) -> Seq<u8> {
    match m {
        MessageModel::IdResponse(pid) => spec_u32_to_le_bytes(pid),
        MessageModel::Args(args) => args_bytes(args),
        MessageModel::Packet(text) => text_bytes(text),
        _ => Seq::empty(),
    }
}

/// The body of a frame: the variant's tag as a little-endian `u32`, then its fields.
pub open spec fn payload_bytes(m: MessageModel) -> Seq<u8> {
    spec_u32_to_le_bytes(tag_of(m)) + fields_bytes(m)
}

/// A whole frame: the body's length as eight little-endian bytes, then the body.
pub open spec fn frame_bytes(m: MessageModel) -> Seq<u8> {
    spec_u64_to_le_bytes(payload_bytes(m).len() as u64) + payload_bytes(m)
}

/// A text whose UTF-8 length a length prefix can hold.
pub open spec fn text_fits(t: Seq<char>) -> bool {
    encode_utf8(t).len() <= u64::MAX
}

/// An argument vector whose count and texts fit their length prefixes.
pub open spec fn args_fit(args: Seq<Seq<char>>) -> bool {
    &&& args.len() <= u64::MAX
    &&& forall|i: int| 0 <= i < args.len() ==> text_fits(#[trigger] args[i])
}

/// The fields of `m` fit their length prefixes.
pub open spec fn fields_fit(m: MessageModel) -> bool {
    match m {
        MessageModel::Args(args) => args_fit(args),
        MessageModel::Packet(text) => text_fits(text),
        _ => true,
    }
}

/// Every length that the message's frame writes down fits its prefix; `encode`
/// shows it of every message in memory.
pub open spec fn message_fits(m: MessageModel) -> bool {
    fields_fit(m) && payload_bytes(m).len() <= u64::MAX
}

/// `b` is the body of some message's frame.
pub open spec fn is_payload(b: Seq<u8>) -> bool {
    exists|m: MessageModel| message_fits(m) && payload_bytes(m) == b
}

/// `b` is some message's whole frame.
pub open spec fn is_frame(b: Seq<u8>) -> bool {
    exists|m: MessageModel| message_fits(m) && frame_bytes(m) == b
}

/// Appends the bytes of `src` to `dst`.
fn push_all(dst: &mut Vec<u8>, src: Vec<u8>)
    ensures
        final(dst)@ == old(dst)@ + src@,
{
    let mut src = src;
    dst.append(&mut src);
}

/// The body of the frame of `m`.
pub fn encode_payload(m: &ControlMessage) -> (r: Vec<u8>)
    ensures
        r@ == payload_bytes(m@),
{
    match m {
        ControlMessage::IdRequest => put_u32(TAG_ID_REQUEST),
        ControlMessage::IdResponse(pid) => {
            let mut out = put_u32(TAG_ID_RESPONSE);
            push_all(&mut out, put_u32(*pid));
            assert(out@ =~= payload_bytes(m@));
            out
        },
        ControlMessage::Args(args) => {
            let mut out = put_u32(TAG_ARGS);
            push_all(&mut out, put_u64(args.len() as u64));
            let ghost head = out@;
            let mut i: usize = 0;
            while i < args.len()
                invariant
                    i <= args.len(),
                    out@ == head + texts_bytes(args.deep_view().subrange(0, i as int)),
                decreases args.len() - i,
            {
                push_all(&mut out, put_text(&args[i]));
                proof {
                    let ts = args.deep_view().subrange(0, i + 1);
                    assert(ts.drop_last() =~= args.deep_view().subrange(0, i as int));
                }
                i = i + 1;
            }
            assert(args.deep_view().subrange(0, args.len() as int) =~= args.deep_view());
            assert(out@ =~= payload_bytes(m@));
            out
        },
        ControlMessage::Packet(text) => {
            let mut out = put_u32(TAG_PACKET);
            push_all(&mut out, put_text(text));
            assert(out@ =~= payload_bytes(m@));
            out
        },
        ControlMessage::CloseSocket => put_u32(TAG_CLOSE_SOCKET),
    }
}

/// The texts of two vectors, one after the other, are the texts of the
/// vectors' concatenation.
pub proof fn lemma_texts_concat(x: Seq<Seq<char>>, y: Seq<Seq<char>>)
    ensures
        texts_bytes(x + y) == texts_bytes(x) + texts_bytes(y),
    decreases y.len(),
{
    if y.len() == 0 {
        assert(x + y =~= x);
        assert(texts_bytes(x) + texts_bytes(y) =~= texts_bytes(x));
    } else {
        lemma_texts_concat(x, y.drop_last());
        assert((x + y).drop_last() =~= x + y.drop_last());
        assert(texts_bytes(x + y) =~= texts_bytes(x) + texts_bytes(y));
    }
}

/// The texts of a vector are its first text, then the texts of the others.
proof fn lemma_texts_first(ts: Seq<Seq<char>>)
    requires
        ts.len() > 0,
    ensures
        texts_bytes(ts) == text_bytes(ts[0]) + texts_bytes(ts.drop_first()),
{
    let first = seq![ts[0]];
    lemma_texts_concat(first, ts.drop_first());
    assert(first + ts.drop_first() =~= ts);
    assert(first.drop_last() =~= Seq::<Seq<char>>::empty());
    assert(texts_bytes(Seq::<Seq<char>>::empty()) =~= Seq::<u8>::empty());
    assert(texts_bytes(first) =~= text_bytes(ts[0]));
}

/// A text followed by anything reads back as that text, and its bytes end
/// where its length prefix says.
pub proof fn lemma_text_prefix(t: Seq<char>, more: Seq<u8>)
    requires
        text_fits(t),
    ensures
        starts_with_text(text_bytes(t) + more),
        announced_len(text_bytes(t) + more) == encode_utf8(t).len(),
        (text_bytes(t) + more).subrange(8, 8 + encode_utf8(t).len() as int) == encode_utf8(t),
        decode_utf8((text_bytes(t) + more).subrange(8, 8 + encode_utf8(t).len() as int)) == t,
        (text_bytes(t) + more).subrange(
            8 + encode_utf8(t).len() as int,
            text_bytes(t).len() + more.len() as int,
        )
            == more,
{
    lemma_auto_spec_u64_to_from_le_bytes();
    let b = text_bytes(t) + more;
    let n = encode_utf8(t).len() as int;
    assert(b.subrange(0, 8) =~= spec_u64_to_le_bytes(n as u64));
    assert(b.subrange(8, 8 + n) =~= encode_utf8(t));
    assert(b.subrange(8 + n, b.len() as int) =~= more);
}

/// The first four bytes of a body are its tag; the rest are its fields.
proof fn lemma_split_payload(m: MessageModel)
    ensures
        payload_bytes(m).len() >= 4,
        payload_bytes(m).subrange(0, 4) == spec_u32_to_le_bytes(tag_of(m)),
        payload_bytes(m).subrange(4, payload_bytes(m).len() as int) == fields_bytes(m),
        spec_u32_from_le_bytes(spec_u32_to_le_bytes(tag_of(m))) == tag_of(m),
{
    lemma_auto_spec_u32_to_from_le_bytes();
    let p = payload_bytes(m);
    assert(p.subrange(0, 4) =~= spec_u32_to_le_bytes(tag_of(m)));
    assert(p.subrange(4, p.len() as int) =~= fields_bytes(m));
}

/// Reads an argument vector that fills `b` exactly.
fn decode_args(b: &[u8]) -> (r: Option<Vec<String>>)
    ensures
        match r {
            Some(args) => args_bytes(args.deep_view()) == b@ && args_fit(args.deep_view()),
            None => forall|a: Seq<Seq<char>>| args_fit(a) ==> args_bytes(a) != b@,
        },
{
    proof {
        lemma_auto_spec_u64_to_from_le_bytes();
    }
    let count = match take_u64(b) {
        Some(c) => c,
        None => {
            assert forall|a: Seq<Seq<char>>| args_fit(a) implies args_bytes(a) != b@ by {
                assert(args_bytes(a).len() >= 8);
            }
            return None;
        },
    };
    // Any vector whose bytes are `b` has `count` texts.
    assert forall|a: Seq<Seq<char>>| args_fit(a) && args_bytes(a) == b@ implies a.len()
        == count by {
        assert(b@.subrange(0, 8) =~= spec_u64_to_le_bytes(a.len() as u64));
    }
    let mut out: Vec<String> = Vec::new();
    let mut pos: usize = 8;
    let mut k: u64 = 0;
    while k < count
        invariant
            8 <= pos <= b@.len(),
            out@.len() == k,
            k <= count,
            count == spec_u64_from_le_bytes(b@.subrange(0, 8)),
            b@.subrange(8, pos as int) == texts_bytes(out.deep_view()),
            forall|i: int| 0 <= i < out@.len() ==> text_fits(#[trigger] out.deep_view()[i]),
            forall|a: Seq<Seq<char>>|
                args_fit(a) && args_bytes(a) == b@ ==> {
                    &&& a.len() == count
                    &&& a.subrange(0, k as int) == out.deep_view()
                },
        decreases count - k,
    {
        proof {
            lemma_auto_spec_u64_to_from_le_bytes();
        }
        let tail = slice_subrange(b, pos, b.len());
        // Where a vector with these bytes exists, its next text starts here.
        assert forall|a: Seq<Seq<char>>| args_fit(a) && args_bytes(a) == b@ implies {
            &&& tail@ == text_bytes(a[k as int]) + texts_bytes(a.subrange(k + 1, a.len() as int))
        } by {
            let done = a.subrange(0, k as int);
            let left = a.subrange(k as int, a.len() as int);
            assert(done + left =~= a);
            lemma_texts_concat(done, left);
            lemma_texts_first(left);
            assert(left.drop_first() =~= a.subrange(k + 1, a.len() as int));
            assert(b@ =~= spec_u64_to_le_bytes(a.len() as u64) + texts_bytes(a));
            assert(tail@ =~= b@.subrange(8 + texts_bytes(done).len() as int, b@.len() as int));
        }
        let text = match take_text(tail) {
            Some(t) => t,
            None => {
                assert forall|a: Seq<Seq<char>>| args_fit(a) implies args_bytes(a) != b@ by {
                    if args_bytes(a) == b@ {
                        lemma_text_prefix(a[k as int], texts_bytes(a.subrange(k + 1, a.len() as int)));
                    }
                }
                return None;
            },
        };
        let n = text.as_str().len();
        proof {
            let bytes = tail@.subrange(8, 8 + announced_len(tail@));
            assert(encode_utf8(decode_utf8(bytes)) == bytes);
            assert(tail@.subrange(0, 8) == spec_u64_to_le_bytes(
                spec_u64_from_le_bytes(tail@.subrange(0, 8)),
            ));
            assert(tail@.subrange(0, 8 + n) =~= text_bytes(text@));
            assert forall|a: Seq<Seq<char>>| args_fit(a) && args_bytes(a) == b@ implies a[k as int]
                == text@ by {
                lemma_text_prefix(a[k as int], texts_bytes(a.subrange(k + 1, a.len() as int)));
            }
        }
        let ghost old_view = out.deep_view();
        let ghost old_pos = pos;
        pos = pos + 8 + n;
        out.push(text);
        k = k + 1;
        proof {
            assert(out.deep_view() =~= old_view.push(text@));
            assert(out.deep_view().drop_last() =~= old_view);
            assert(b@.subrange(8, pos as int) =~= b@.subrange(8, old_pos as int) + tail@.subrange(
                0,
                8 + n,
            ));
            assert forall|a: Seq<Seq<char>>| args_fit(a) && args_bytes(a) == b@ implies a.subrange(
                0,
                k as int,
            ) == out.deep_view() by {
                assert(a.subrange(0, k as int) =~= a.subrange(0, k - 1).push(a[k - 1]));
            }
            assert forall|i: int| 0 <= i < out@.len() implies text_fits(
                #[trigger] out.deep_view()[i],
            ) by {
                if i == out@.len() - 1 {
                    assert(encode_utf8(text@).len() <= b@.len());
                }
            }
        }
    }
    if pos == b.len() {
        proof {
            assert(b@ =~= b@.subrange(0, 8) + b@.subrange(8, pos as int));
        }
        Some(out)
    } else {
        assert forall|a: Seq<Seq<char>>| args_fit(a) implies args_bytes(a) != b@ by {
            if args_bytes(a) == b@ {
                assert(a.subrange(0, k as int) =~= a);
            }
        }
        None
    }
}

/// Reads the fields of the variant that `tag` names; they must fill `b` exactly.
fn decode_fields(tag: u32, b: &[u8]) -> (r: Option<ControlMessage>)
    ensures
        match r {
            Some(m) => tag_of(m@) == tag && fields_bytes(m@) == b@ && fields_fit(m@),
            None => forall|m: MessageModel|
                fields_fit(m) && tag_of(m) == tag ==> fields_bytes(m) != b@,
        },
{
    if tag == TAG_ID_REQUEST || tag == TAG_CLOSE_SOCKET {
        if b.len() == 0 {
            if tag == TAG_ID_REQUEST {
                Some(ControlMessage::IdRequest)
            } else {
                Some(ControlMessage::CloseSocket)
            }
        } else {
            None
        }
    } else if tag == TAG_ID_RESPONSE {
        proof {
            lemma_auto_spec_u32_to_from_le_bytes();
        }
        if b.len() == 4 {
            match take_u32(b) {
                Some(pid) => {
                    assert(b@ =~= b@.subrange(0, 4));
                    Some(ControlMessage::IdResponse(pid))
                },
                None => None,
            }
        } else {
            None
        }
    } else if tag == TAG_ARGS {
        match decode_args(b) {
            Some(args) => Some(ControlMessage::Args(args)),
            None => None,
        }
    } else if tag == TAG_PACKET {
        match take_text(b) {
            Some(text) => {
                let n = text.as_str().len();
                proof {
                    lemma_auto_spec_u64_to_from_le_bytes();
                    let bytes = b@.subrange(8, 8 + announced_len(b@));
                    assert(encode_utf8(decode_utf8(bytes)) == bytes);
                    assert(b@.subrange(0, 8) == spec_u64_to_le_bytes(
                        spec_u64_from_le_bytes(b@.subrange(0, 8)),
                    ));
                }
                if n == b.len() - 8 {
                    assert(b@ =~= text_bytes(text@));
                    Some(ControlMessage::Packet(text))
                } else {
                    assert forall|m: MessageModel|
                        fields_fit(m) && tag_of(m) == tag implies fields_bytes(m) != b@ by {
                        if fields_bytes(m) == b@ {
                            lemma_text_prefix(m->Packet_0, Seq::empty());
                            assert(text_bytes(m->Packet_0) + Seq::<u8>::empty() =~= b@);
                        }
                    }
                    None
                }
            },
            None => {
                assert forall|m: MessageModel|
                    fields_fit(m) && tag_of(m) == tag implies fields_bytes(m) != b@ by {
                    if fields_bytes(m) == b@ {
                        lemma_text_prefix(m->Packet_0, Seq::empty());
                        assert(text_bytes(m->Packet_0) + Seq::<u8>::empty() =~= b@);
                    }
                }
                None
            },
        }
    } else {
        None
    }
}

/// Reads the body of a frame as a message. It succeeds exactly when the body
/// is the body of some message's frame, and then gives that message.
pub fn decode_payload(p: &[u8]) -> (r: Result<ControlMessage, DecodeError>)
    ensures
        match r {
            Ok(m) => payload_bytes(m@) == p@ && message_fits(m@),
            Err(e) => e == DecodeError::BadPayload && !is_payload(p@),
        },
{
    proof {
        lemma_auto_spec_u32_to_from_le_bytes();
    }
    let tag = match take_u32(p) {
        Some(t) => t,
        None => {
            assert forall|m: MessageModel| message_fits(m) implies payload_bytes(m) != p@ by {
                lemma_split_payload(m);
            }
            return Err(DecodeError::BadPayload);
        },
    };
    let rest = slice_subrange(p, 4, p.len());
    assert forall|m: MessageModel| message_fits(m) && payload_bytes(m) == p@ implies tag_of(m)
        == tag && fields_bytes(m) == rest@ by {
        lemma_split_payload(m);
    }
    match decode_fields(tag, rest) {
        Some(m) => {
            proof {
                lemma_split_payload(m@);
                assert(p@ =~= p@.subrange(0, 4) + rest@);
                assert(p@.subrange(0, 4) == spec_u32_to_le_bytes(
                    spec_u32_from_le_bytes(p@.subrange(0, 4)),
                ));
            }
            Ok(m)
        },
        None => Err(DecodeError::BadPayload),
    }
}

/// The body length that a frame's eight-byte prefix announces.
pub fn body_len(prefix: &[u8]) -> (r: u64)
    requires
        prefix@.len() == PREFIX_LEN,
    ensures
        r == spec_u64_from_le_bytes(prefix@),
{
    u64_from_le_bytes(prefix)
}

/// Each text of a vector takes its length prefix and its bytes within the
/// vector's bytes, so the vector's bytes are at least eight per text.
proof fn lemma_texts_len(a: Seq<Seq<char>>)
    ensures
        texts_bytes(a).len() >= 8 * a.len(),
        forall|i: int|
            0 <= i < a.len() ==> 8 + encode_utf8(#[trigger] a[i]).len() <= texts_bytes(a).len(),
    decreases a.len(),
{
    lemma_auto_spec_u64_to_from_le_bytes();
    if a.len() > 0 {
        lemma_texts_len(a.drop_last());
        assert forall|i: int| 0 <= i < a.len() implies 8 + encode_utf8(#[trigger] a[i]).len()
            <= texts_bytes(a).len() by {
            if i < a.len() - 1 {
                assert(a[i] == a.drop_last()[i]);
            }
        }
    }
}

/// The frame of `m`: the length of its body, then the body. Every message in
/// memory fits its frame.
pub fn encode(m: &ControlMessage) -> (r: Vec<u8>)
    ensures
        r@ == frame_bytes(m@),
        message_fits(m@),
{
    let body = encode_payload(m);
    let n = body.len();
    proof {
        lemma_auto_spec_u32_to_from_le_bytes();
        lemma_auto_spec_u64_to_from_le_bytes();
        match m@ {
            MessageModel::Args(a) => {
                lemma_texts_len(a);
                assert forall|i: int| 0 <= i < a.len() implies text_fits(#[trigger] a[i]) by {}
            },
            _ => {},
        }
    }
    let mut out = u64_to_le_bytes(n as u64);
    push_all(&mut out, body);
    out
}

/// The prefix of `b` announces exactly the length of the rest of `b`.
pub open spec fn length_matches(b: Seq<u8>) -> bool {
    b.len() >= 8 && spec_u64_from_le_bytes(b.subrange(0, 8)) == b.len() - 8
}

/// Reads a whole frame as a message. It succeeds exactly when `frame` is some
/// message's frame, and then gives that message; otherwise the error says
/// whether the length prefix or the body is at fault.
pub fn decode(frame: &[u8]) -> (r: Result<ControlMessage, DecodeError>)
    ensures
        r is Ok <==> is_frame(frame@),
        match r {
            Ok(m) => frame_bytes(m@) == frame@ && message_fits(m@),
            Err(DecodeError::BadLength) => !length_matches(frame@),
            Err(DecodeError::BadPayload) => length_matches(frame@) && !is_payload(
                frame@.subrange(8, frame@.len() as int),
            ),
        },
{
    proof {
        lemma_auto_spec_u64_to_from_le_bytes();
    }
    assert forall|m: MessageModel| message_fits(m) && #[trigger] frame_bytes(m) == frame@ implies {
        &&& length_matches(frame@)
        &&& payload_bytes(m) == frame@.subrange(8, frame@.len() as int)
    } by {
        assert(frame@.subrange(0, 8) =~= spec_u64_to_le_bytes(payload_bytes(m).len() as u64));
        assert(frame@.subrange(8, frame@.len() as int) =~= payload_bytes(m));
    }
    if frame.len() < PREFIX_LEN {
        return Err(DecodeError::BadLength);
    }
    let prefix = slice_subrange(frame, 0, PREFIX_LEN);
    let announced = body_len(prefix);
    if announced != (frame.len() - PREFIX_LEN) as u64 {
        return Err(DecodeError::BadLength);
    }
    let body = slice_subrange(frame, PREFIX_LEN, frame.len());
    match decode_payload(body) {
        Ok(m) => {
            proof {
                assert(frame@.subrange(0, 8) == spec_u64_to_le_bytes(
                    spec_u64_from_le_bytes(frame@.subrange(0, 8)),
                ));
                assert(frame@ =~= frame@.subrange(0, 8) + body@);
            }
            Ok(m)
        },
        Err(e) => Err(e),
    }
}

/// Two argument vectors of one length whose texts have the same bytes are equal.
proof fn lemma_texts_injective(a1: Seq<Seq<char>>, a2: Seq<Seq<char>>)
    requires
        args_fit(a1),
        args_fit(a2),
        a1.len() == a2.len(),
        texts_bytes(a1) == texts_bytes(a2),
    ensures
        a1 == a2,
    decreases a1.len(),
{
    if a1.len() == 0 {
        assert(a1 =~= a2);
    } else {
        lemma_texts_first(a1);
        lemma_texts_first(a2);
        let rest1 = texts_bytes(a1.drop_first());
        let rest2 = texts_bytes(a2.drop_first());
        lemma_text_prefix(a1[0], rest1);
        lemma_text_prefix(a2[0], rest2);
        assert(a1[0] == a2[0]);
        assert(rest1 == rest2);
        assert forall|i: int| 0 <= i < a1.drop_first().len() implies text_fits(
            #[trigger] a1.drop_first()[i],
        ) by {
            assert(a1.drop_first()[i] == a1[i + 1]);
        }
        assert forall|i: int| 0 <= i < a2.drop_first().len() implies text_fits(
            #[trigger] a2.drop_first()[i],
        ) by {
            assert(a2.drop_first()[i] == a2[i + 1]);
        }
        lemma_texts_injective(a1.drop_first(), a2.drop_first());
        assert(a1 =~= seq![a1[0]] + a1.drop_first());
        assert(a2 =~= seq![a2[0]] + a2.drop_first());
    }
}

/// No two messages share a body.
pub proof fn lemma_payload_injective(m1: MessageModel, m2: MessageModel)
    requires
        message_fits(m1),
        message_fits(m2),
        payload_bytes(m1) == payload_bytes(m2),
    ensures
        m1 == m2,
{
    lemma_auto_spec_u32_to_from_le_bytes();
    lemma_auto_spec_u64_to_from_le_bytes();
    lemma_split_payload(m1);
    lemma_split_payload(m2);
    assert(tag_of(m1) == tag_of(m2));
    assert(fields_bytes(m1) == fields_bytes(m2));
    match m1 {
        MessageModel::IdResponse(p1) => {
            let p2 = m2->IdResponse_0;
            assert(spec_u32_from_le_bytes(spec_u32_to_le_bytes(p1)) == p1);
            assert(spec_u32_from_le_bytes(spec_u32_to_le_bytes(p2)) == p2);
        },
        MessageModel::Args(a1) => {
            let a2 = m2->Args_0;
            let c1 = spec_u64_to_le_bytes(a1.len() as u64);
            let c2 = spec_u64_to_le_bytes(a2.len() as u64);
            assert(args_bytes(a1).subrange(0, 8) =~= c1);
            assert(args_bytes(a2).subrange(0, 8) =~= c2);
            assert(a1.len() == a2.len());
            assert(args_bytes(a1).subrange(8, args_bytes(a1).len() as int) =~= texts_bytes(a1));
            assert(args_bytes(a2).subrange(8, args_bytes(a2).len() as int) =~= texts_bytes(a2));
            lemma_texts_injective(a1, a2);
        },
        MessageModel::Packet(t1) => {
            let t2 = m2->Packet_0;
            lemma_text_prefix(t1, Seq::empty());
            lemma_text_prefix(t2, Seq::empty());
            assert(text_bytes(t1) + Seq::<u8>::empty() =~= text_bytes(t1));
            assert(text_bytes(t2) + Seq::<u8>::empty() =~= text_bytes(t2));
        },
        _ => {},
    }
}

/// Round trip: the frame of a message decodes, and only to that message, so
/// `decode(&encode(m))` gives back `m`.
pub proof fn lemma_round_trip(m: MessageModel)
    requires
        message_fits(m),
    ensures
        is_frame(frame_bytes(m)),
        forall|m2: MessageModel|
            message_fits(m2) && #[trigger] frame_bytes(m2) == frame_bytes(m) ==> m2 == m,
{
    lemma_auto_spec_u64_to_from_le_bytes();
    assert forall|m2: MessageModel|
        message_fits(m2) && #[trigger] frame_bytes(m2) == frame_bytes(m) implies m2 == m by {
        let f = frame_bytes(m);
        assert(f.subrange(8, f.len() as int) =~= payload_bytes(m));
        assert(frame_bytes(m2).subrange(8, f.len() as int) =~= payload_bytes(m2));
        lemma_payload_injective(m, m2);
    }
}

} // verus!

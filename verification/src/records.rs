use vstd::prelude::*;
use vstd::slice::slice_to_vec;
use vstd::string::StrSliceExecFns;
use vstd::utf8::decode_utf8;
use vstd::utf8::encode_utf8;
use vstd::utf8::encode_utf8_decode_utf8;
use vstd::utf8::encode_utf8_valid_utf8;
use vstd::utf8::valid_utf8;
use crate::codec::decode;
use crate::codec::encodable;
use crate::codec::encode;
use crate::codec::encoding;
use crate::codec::law_decode_inverts_encode;
use crate::codec::parsing;
use crate::codec::text_of;
use crate::message::Message;
use crate::message::MessageView;
use crate::network::Publication;

verus! {

/// A record for a request or a reply: the sender's identity and the message.
#[derive(Debug, PartialEq, Eq)]
pub struct Request {
    pub from: String,
    pub msg: Message,
}

/// The three frames of a publication: the key, the sender, the message.
pub open spec fn publication_frames(topic: Seq<char>, from: Seq<char>, msg: MessageView) -> Seq<
    Seq<u8>,
> {
    seq![encode_utf8(topic), encode_utf8(from), encoding(msg)]
}

/// The two frames of a request or a reply: the sender, the message.
pub open spec fn request_frames(from: Seq<char>, msg: MessageView) -> Seq<Seq<u8>> {
    seq![encode_utf8(from), encoding(msg)]
}

/// What three frames say when they are a publication: two texts and a
/// message.
pub open spec fn publication_read(frames: Seq<Seq<u8>>) -> Option<
    (Seq<char>, Seq<char>, MessageView),
> {
    if frames.len() == 3 && valid_utf8(frames[0]) && valid_utf8(frames[1]) {
        match parsing(frames[2]) {
            Some(msg) => Some((decode_utf8(frames[0]), decode_utf8(frames[1]), msg)),
            None => None,
        }
    } else {
        None
    }
}

/// What two frames say when they are a request or a reply: a text and a
/// message.
pub open spec fn request_read(frames: Seq<Seq<u8>>) -> Option<(Seq<char>, MessageView)> {
    if frames.len() == 2 && valid_utf8(frames[0]) {
        match parsing(frames[1]) {
            Some(msg) => Some((decode_utf8(frames[0]), msg)),
            None => None,
        }
    } else {
        None
    }
}

/// The frames of `frames` as sequences of bytes.
pub open spec fn frames_view(frames: Seq<Vec<u8>>) -> Seq<Seq<u8>> {
    Seq::new(frames.len(), |i: int| frames[i]@)
}

fn text_frame(text: &String) -> (frame: Vec<u8>)
    ensures
        frame@ == encode_utf8(text@),
{
    text.as_str().as_bytes_vec()
}

fn frame_text(frame: &Vec<u8>) -> (text: Option<String>)
    ensures
        text is Some <==> valid_utf8(frame@),
        text matches Some(t) ==> t@ == decode_utf8(frame@),
{
    match text_of(slice_to_vec(frame.as_slice())) {
        Some(t) => {
            proof {
                encode_utf8_decode_utf8(t@);
            }
            Some(t)
        },
        None => None,
    }
}

/// Writes a publication as the frames that go out on the publisher socket.
pub fn write_publication(record: &Publication) -> (frames: Vec<Vec<u8>>)
    ensures
        frames_view(frames@) == publication_frames(record.topic@, record.from@, record.msg@),
        encodable(record.msg@),
{
    let mut frames: Vec<Vec<u8>> = Vec::new();
    frames.push(text_frame(&record.topic));
    frames.push(text_frame(&record.from));
    frames.push(encode(&record.msg));
    assert(frames_view(frames@) =~= publication_frames(
        record.topic@,
        record.from@,
        record.msg@,
    ));
    frames
}

/// Reads the frames that came in on the subscriber socket. Frames that are
/// no publication give nothing.
pub fn read_publication(frames: &Vec<Vec<u8>>) -> (record: Option<Publication>)
    ensures
        match record {
            Some(r) => publication_read(frames_view(frames@)) == Some((r.topic@, r.from@, r.msg@)),
            None => publication_read(frames_view(frames@)) is None,
        },
{
    if frames.len() != 3 {
        return None;
    }
    assert(frames_view(frames@)[0] == frames@[0]@);
    assert(frames_view(frames@)[1] == frames@[1]@);
    assert(frames_view(frames@)[2] == frames@[2]@);
    let topic = match frame_text(&frames[0]) {
        Some(text) => text,
        None => {
            return None;
        },
    };
    let from = match frame_text(&frames[1]) {
        Some(text) => text,
        None => {
            return None;
        },
    };
    match decode(frames[2].as_slice()) {
        Some(msg) => Some(Publication { topic, from, msg }),
        None => None,
    }
}

/// Writes a request or a reply as the frames that go out on a request or
/// reply socket.
pub fn write_request(record: &Request) -> (frames: Vec<Vec<u8>>)
    ensures
        frames_view(frames@) == request_frames(record.from@, record.msg@),
        encodable(record.msg@),
{
    let mut frames: Vec<Vec<u8>> = Vec::new();
    frames.push(text_frame(&record.from));
    frames.push(encode(&record.msg));
    assert(frames_view(frames@) =~= request_frames(record.from@, record.msg@));
    frames
}

/// Reads the frames that came in on a request or reply socket. Frames that
/// are no request give nothing.
pub fn read_request(frames: &Vec<Vec<u8>>) -> (record: Option<Request>)
    ensures
        match record {
            Some(r) => request_read(frames_view(frames@)) == Some((r.from@, r.msg@)),
            None => request_read(frames_view(frames@)) is None,
        },
{
    if frames.len() != 2 {
        return None;
    }
    assert(frames_view(frames@)[0] == frames@[0]@);
    assert(frames_view(frames@)[1] == frames@[1]@);
    let from = match frame_text(&frames[0]) {
        Some(text) => text,
        None => {
            return None;
        },
    };
    match decode(frames[1].as_slice()) {
        Some(msg) => Some(Request { from, msg }),
        None => None,
    }
}

/// What is written as a publication is read as the same publication.
pub proof fn law_publication_round_trip(topic: Seq<char>, from: Seq<char>, msg: MessageView)
    requires
        encodable(msg),
    ensures
        publication_read(publication_frames(topic, from, msg)) == Some((topic, from, msg)),
{
    encode_utf8_valid_utf8(topic);
    encode_utf8_valid_utf8(from);
    encode_utf8_decode_utf8(topic);
    encode_utf8_decode_utf8(from);
    law_decode_inverts_encode(msg);
}

/// What is written as a request is read as the same request.
pub proof fn law_request_round_trip(from: Seq<char>, msg: MessageView)
    requires
        encodable(msg),
    ensures
        request_read(request_frames(from, msg)) == Some((from, msg)),
{
    encode_utf8_valid_utf8(from);
    encode_utf8_decode_utf8(from);
    law_decode_inverts_encode(msg);
}

} // verus!

use vstd::prelude::*;
use vstd::bytes::spec_u32_from_le_bytes;
use vstd::bytes::spec_u32_to_le_bytes;
use vstd::bytes::spec_u64_from_le_bytes;
use vstd::bytes::spec_u64_to_le_bytes;
use vstd::bytes::u32_from_le_bytes;
use vstd::bytes::u32_to_le_bytes;
use vstd::bytes::u64_from_le_bytes;
use vstd::bytes::u64_to_le_bytes;
use vstd::bytes::lemma_auto_spec_u32_to_from_le_bytes;
use vstd::bytes::lemma_auto_spec_u64_to_from_le_bytes;
use vstd::slice::slice_subrange;
use vstd::slice::slice_to_vec;
use vstd::utf8::decode_utf8;
use vstd::utf8::encode_utf8;
use vstd::utf8::valid_utf8;
use vstd::utf8::encode_utf8_decode_utf8;
use vstd::utf8::encode_utf8_valid_utf8;
use vstd::utf8::decode_utf8_encode_utf8;
use crate::message::table_view;
use crate::message::Ip;
use crate::message::Message;
use crate::message::MessageView;
use crate::message::Port;

verus! {

/// First byte of a cell of the map to be written.
pub const TAG_MAP_SET: u8 = 0;

/// First byte of a cell of the map to be read.
pub const TAG_MAP_GET: u8 = 1;

/// First byte of an agent on its way to another island.
pub const TAG_AGENT: u8 = 2;

/// First byte of a host that makes itself known.
pub const TAG_HELLO: u8 = 3;

/// First byte of the membership table.
pub const TAG_IP_TABLE: u8 = 4;

/// First byte of the start of the simulation.
pub const TAG_START_SIM: u8 = 5;

/// First byte of the end of the simulation.
pub const TAG_FIN_SIM: u8 = 6;

/// First byte of a host that is ready.
pub const TAG_HOST_READY: u8 = 7;

/// First byte of the release of a turn.
pub const TAG_NEXT_TURN: u8 = 8;

/// First byte of a turn that is done.
pub const TAG_TURN_DONE: u8 = 9;

/// First byte of an acceptance.
pub const TAG_OKAY: u8 = 10;

/// First byte of a refusal.
pub const TAG_ERROR: u8 = 11;

/// One address of a membership table, as plain values.
pub type AddrView = (Seq<char>, u32);

/// A run of bytes behind its length, which is written as eight bytes, lowest
/// first.
pub open spec fn framed(raw: Seq<u8>) -> Seq<u8> {
    spec_u64_to_le_bytes(raw.len() as u64) + raw
}

/// A text: its UTF-8 bytes behind their number.
pub open spec fn text_encoding(text: Seq<char>) -> Seq<u8> {
    framed(encode_utf8(text))
}

/// An address: the text of the ip, then the port as four bytes, lowest first.
pub open spec fn addr_encoding(addr: AddrView) -> Seq<u8> {
    text_encoding(addr.0) + spec_u32_to_le_bytes(addr.1)
}

/// The addresses of a table, one behind the other.
pub open spec fn addrs_encoding(table: Seq<AddrView>) -> Seq<u8>
    decreases table.len(),
{
    if table.len() == 0 {
        Seq::empty()
    } else {
        addr_encoding(table[0]) + addrs_encoding(table.drop_first())
    }
}

/// A cell of the map: two coordinates of eight bytes each and a value of
/// four, lowest byte first.
pub open spec fn cell_encoding(x: u64, y: u64, value: i32) -> Seq<u8> {
    spec_u64_to_le_bytes(x) + spec_u64_to_le_bytes(y) + spec_u32_to_le_bytes(value as u32)
}

/// The bytes that stand for a message on the wire: one byte that tells the
/// kind, then what the kind carries.
pub open spec fn encoding(msg: MessageView) -> Seq<u8> {
    match msg {
        MessageView::MapSet(x, y, value) => seq![TAG_MAP_SET] + cell_encoding(x, y, value),
        MessageView::MapGet(x, y, value) => seq![TAG_MAP_GET] + cell_encoding(x, y, value),
        MessageView::Agent(payload) => seq![TAG_AGENT] + framed(payload),
        MessageView::Hello(ip, port) => seq![TAG_HELLO] + addr_encoding((ip, port)),
        MessageView::IpTable(table) => seq![TAG_IP_TABLE] + spec_u64_to_le_bytes(
            table.len() as u64,
        ) + addrs_encoding(table),
        MessageView::StartSim => seq![TAG_START_SIM],
        MessageView::FinSim => seq![TAG_FIN_SIM],
        MessageView::HostReady => seq![TAG_HOST_READY],
        MessageView::NextTurn(turn) => seq![TAG_NEXT_TURN] + spec_u32_to_le_bytes(turn),
        MessageView::TurnDone => seq![TAG_TURN_DONE],
        MessageView::Okay => seq![TAG_OKAY],
        MessageView::Error => seq![TAG_ERROR],
    }
}

/// Whether every length in `msg` can be written in eight bytes.
pub open spec fn encodable(msg: MessageView) -> bool {
    match msg {
        MessageView::Agent(payload) => payload.len() <= u64::MAX,
        MessageView::Hello(ip, _) => encode_utf8(ip).len() <= u64::MAX,
        MessageView::IpTable(table) => {
            &&& table.len() <= u64::MAX
            &&& forall|i: int| 0 <= i < table.len() ==> encode_utf8(#[trigger] table[i].0).len() <= u64::MAX
        },
        _ => true,
    }
}

fn put_framed(out: &mut Vec<u8>, raw: &[u8])
    ensures
        final(out)@ == old(out)@ + framed(raw@),
        raw@.len() <= u64::MAX,
{
    let mut length = u64_to_le_bytes(raw.len() as u64);
    let mut body = slice_to_vec(raw);
    out.append(&mut length);
    out.append(&mut body);
    assert(out@ =~= old(out)@ + framed(raw@));
}

fn put_u32(out: &mut Vec<u8>, value: u32)
    ensures
        final(out)@ == old(out)@ + spec_u32_to_le_bytes(value),
{
    let mut bytes = u32_to_le_bytes(value);
    out.append(&mut bytes);
}

fn put_u64(out: &mut Vec<u8>, value: u64)
    ensures
        final(out)@ == old(out)@ + spec_u64_to_le_bytes(value),
{
    let mut bytes = u64_to_le_bytes(value);
    out.append(&mut bytes);
}

fn put_addr(out: &mut Vec<u8>, ip: &str, port: u32)
    ensures
        final(out)@ == old(out)@ + addr_encoding((ip@, port)),
        encode_utf8(ip@).len() <= u64::MAX,
{
    put_framed(out, ip.as_bytes());
    put_u32(out, port);
    assert(out@ =~= old(out)@ + addr_encoding((ip@, port)));
}

fn put_cell(out: &mut Vec<u8>, x: u64, y: u64, value: i32)
    ensures
        final(out)@ == old(out)@ + cell_encoding(x, y, value),
{
    put_u64(out, x);
    put_u64(out, y);
    put_u32(out, value as u32);
    assert(out@ =~= old(out)@ + cell_encoding(x, y, value));
}

/// Writes a message as the bytes that go on the wire.
pub fn encode(msg: &Message) -> (bytes: Vec<u8>)
    ensures
        bytes@ == encoding(msg@),
        encodable(msg@),
{
    let mut out: Vec<u8> = Vec::new();
    match msg {
        Message::MapSet(x, y, value) => {
            out.push(TAG_MAP_SET);
            put_cell(&mut out, *x, *y, *value);
        },
        Message::MapGet(x, y, value) => {
            out.push(TAG_MAP_GET);
            put_cell(&mut out, *x, *y, *value);
        },
        Message::Agent(payload) => {
            out.push(TAG_AGENT);
            put_framed(&mut out, payload.as_slice());
        },
        Message::Hello(ip, port) => {
            out.push(TAG_HELLO);
            put_addr(&mut out, ip.as_str(), *port);
        },
        Message::IpTable(table) => {
            out.push(TAG_IP_TABLE);
            put_u64(&mut out, table.len() as u64);
            let ghost head = out@;
            let mut i: usize = 0;
            assert(table_view(table@).skip(0) =~= table_view(table@));
            while i < table.len()
                invariant
                    i <= table@.len(),
                    forall|k: int|
                        0 <= k < i ==> encode_utf8(#[trigger] table_view(table@)[k].0).len()
                            <= u64::MAX,
                    out@ + addrs_encoding(table_view(table@).skip(i as int)) == head
                        + addrs_encoding(table_view(table@)),
                decreases table@.len() - i,
            {
                let ghost before = out@;
                let ghost rest = table_view(table@).skip(i as int);
                put_addr(&mut out, table[i].0.as_str(), table[i].1);
                assert(rest[0] == (table@[i as int].0@, table@[i as int].1));
                assert(rest.drop_first() =~= table_view(table@).skip(i + 1));
                assert(out@ + addrs_encoding(rest.drop_first()) =~= before + addrs_encoding(rest));
                i += 1;
            }
            assert(table_view(table@).skip(i as int) =~= Seq::<AddrView>::empty());
            assert(out@ =~= head + addrs_encoding(table_view(table@)));
        },
        Message::StartSim => {
            out.push(TAG_START_SIM);
        },
        Message::FinSim => {
            out.push(TAG_FIN_SIM);
        },
        Message::HostReady => {
            out.push(TAG_HOST_READY);
        },
        Message::NextTurn(turn) => {
            out.push(TAG_NEXT_TURN);
            put_u32(&mut out, *turn);
        },
        Message::TurnDone => {
            out.push(TAG_TURN_DONE);
        },
        Message::Okay => {
            out.push(TAG_OKAY);
        },
        Message::Error => {
            out.push(TAG_ERROR);
        },
    }
    assert(out@ =~= encoding(msg@));
    out
}

/// Four bytes read as a number, and what follows them.
pub open spec fn split_u32(bytes: Seq<u8>) -> Option<(u32, Seq<u8>)> {
    if bytes.len() >= 4 {
        Some((spec_u32_from_le_bytes(bytes.take(4)), bytes.skip(4)))
    } else {
        None
    }
}

/// Eight bytes read as a number, and what follows them.
pub open spec fn split_u64(bytes: Seq<u8>) -> Option<(u64, Seq<u8>)> {
    if bytes.len() >= 8 {
        Some((spec_u64_from_le_bytes(bytes.take(8)), bytes.skip(8)))
    } else {
        None
    }
}

/// A run of bytes read behind its length, and what follows it.
pub open spec fn split_framed(bytes: Seq<u8>) -> Option<(Seq<u8>, Seq<u8>)> {
    match split_u64(bytes) {
        Some((length, rest)) => if length <= rest.len() {
            Some((rest.take(length as int), rest.skip(length as int)))
        } else {
            None
        },
        None => None,
    }
}

/// A text read from its framed UTF-8 bytes, and what follows it.
pub open spec fn split_text(bytes: Seq<u8>) -> Option<(Seq<char>, Seq<u8>)> {
    match split_framed(bytes) {
        Some((raw, rest)) => if valid_utf8(raw) {
            Some((decode_utf8(raw), rest))
        } else {
            None
        },
        None => None,
    }
}

/// An address, and what follows it.
pub open spec fn split_addr(bytes: Seq<u8>) -> Option<(AddrView, Seq<u8>)> {
    match split_text(bytes) {
        Some((ip, rest)) => match split_u32(rest) {
            Some((port, rest)) => Some(((ip, port), rest)),
            None => None,
        },
        None => None,
    }
}

/// `front` put before what `part` has read.
pub open spec fn prepend(front: Seq<AddrView>, part: Option<(Seq<AddrView>, Seq<u8>)>) -> Option<
    (Seq<AddrView>, Seq<u8>),
> {
    match part {
        Some((more, rest)) => Some((front + more, rest)),
        None => None,
    }
}

/// `count` addresses, and what follows them.
pub open spec fn split_addrs(bytes: Seq<u8>, count: nat) -> Option<(Seq<AddrView>, Seq<u8>)>
    decreases count,
{
    if count == 0 {
        Some((Seq::empty(), bytes))
    } else {
        match split_addr(bytes) {
            Some((addr, rest)) => prepend(seq![addr], split_addrs(rest, (count - 1) as nat)),
            None => None,
        }
    }
}

/// A cell of the map, and what follows it.
pub open spec fn split_cell(bytes: Seq<u8>) -> Option<((u64, u64, i32), Seq<u8>)> {
    match split_u64(bytes) {
        Some((x, rest)) => match split_u64(rest) {
            Some((y, rest)) => match split_u32(rest) {
                Some((value, rest)) => Some(((x, y, value as i32), rest)),
                None => None,
            },
            None => None,
        },
        None => None,
    }
}

/// What was read, if nothing follows it.
pub open spec fn whole<T>(part: Option<(T, Seq<u8>)>) -> Option<T> {
    match part {
        Some((value, rest)) => if rest.len() == 0 {
            Some(value)
        } else {
            None
        },
        None => None,
    }
}

/// The table behind its number of addresses.
pub open spec fn split_table(bytes: Seq<u8>) -> Option<(Seq<AddrView>, Seq<u8>)> {
    match split_u64(bytes) {
        Some((count, rest)) => split_addrs(rest, count as nat),
        None => None,
    }
}

/// The message that `bytes` stand for, if they stand for one: a known kind,
/// all that the kind carries, and nothing after it.
pub open spec fn parsing(bytes: Seq<u8>) -> Option<MessageView> {
    if bytes.len() == 0 {
        None
    } else {
        let tag = bytes[0];
        let body = bytes.skip(1);
        if tag == TAG_MAP_SET {
            match whole(split_cell(body)) {
                Some((x, y, value)) => Some(MessageView::MapSet(x, y, value)),
                None => None,
            }
        } else if tag == TAG_MAP_GET {
            match whole(split_cell(body)) {
                Some((x, y, value)) => Some(MessageView::MapGet(x, y, value)),
                None => None,
            }
        } else if tag == TAG_AGENT {
            match whole(split_framed(body)) {
                Some(payload) => Some(MessageView::Agent(payload)),
                None => None,
            }
        } else if tag == TAG_HELLO {
            match whole(split_addr(body)) {
                Some((ip, port)) => Some(MessageView::Hello(ip, port)),
                None => None,
            }
        } else if tag == TAG_IP_TABLE {
            match whole(split_table(body)) {
                Some(table) => Some(MessageView::IpTable(table)),
                None => None,
            }
        } else if tag == TAG_NEXT_TURN {
            match whole(split_u32(body)) {
                Some(turn) => Some(MessageView::NextTurn(turn)),
                None => None,
            }
        } else if body.len() > 0 {
            None
        } else if tag == TAG_START_SIM {
            Some(MessageView::StartSim)
        } else if tag == TAG_FIN_SIM {
            Some(MessageView::FinSim)
        } else if tag == TAG_HOST_READY {
            Some(MessageView::HostReady)
        } else if tag == TAG_TURN_DONE {
            Some(MessageView::TurnDone)
        } else if tag == TAG_OKAY {
            Some(MessageView::Okay)
        } else if tag == TAG_ERROR {
            Some(MessageView::Error)
        } else {
            None
        }
    }
}

/// `String::from_utf8`: the text whose UTF-8 encoding `bytes` are, where they
/// are the encoding of one.
#[verifier::external_body]
pub(crate) fn text_of(bytes: Vec<u8>) -> (r: Option<String>)
    ensures
        r is Some <==> valid_utf8(bytes@),
        r matches Some(text) ==> encode_utf8(text@) == bytes@,
{
    match String::from_utf8(bytes) {
        Ok(text) => Some(text),
        Err(_) => None,
    }
}

fn take_u32(bytes: &[u8], pos: usize) -> (r: Option<(u32, usize)>)
    requires
        pos <= bytes@.len(),
    ensures
        match r {
            Some((value, next)) => {
                &&& pos <= next <= bytes@.len()
                &&& split_u32(bytes@.skip(pos as int)) == Some((value, bytes@.skip(next as int)))
            },
            None => split_u32(bytes@.skip(pos as int)) is None,
        },
{
    if bytes.len() - pos < 4 {
        return None;
    }
    let value = u32_from_le_bytes(slice_subrange(bytes, pos, pos + 4));
    assert(bytes@.skip(pos as int).take(4) =~= bytes@.subrange(pos as int, pos + 4));
    assert(bytes@.skip(pos as int).skip(4) =~= bytes@.skip(pos + 4));
    Some((value, pos + 4))
}

fn take_u64(bytes: &[u8], pos: usize) -> (r: Option<(u64, usize)>)
    requires
        pos <= bytes@.len(),
    ensures
        match r {
            Some((value, next)) => {
                &&& pos <= next <= bytes@.len()
                &&& split_u64(bytes@.skip(pos as int)) == Some((value, bytes@.skip(next as int)))
            },
            None => split_u64(bytes@.skip(pos as int)) is None,
        },
{
    if bytes.len() - pos < 8 {
        return None;
    }
    let value = u64_from_le_bytes(slice_subrange(bytes, pos, pos + 8));
    assert(bytes@.skip(pos as int).take(8) =~= bytes@.subrange(pos as int, pos + 8));
    assert(bytes@.skip(pos as int).skip(8) =~= bytes@.skip(pos + 8));
    Some((value, pos + 8))
}

fn take_framed(bytes: &[u8], pos: usize) -> (r: Option<(Vec<u8>, usize)>)
    requires
        pos <= bytes@.len(),
    ensures
        match r {
            Some((raw, next)) => {
                &&& pos <= next <= bytes@.len()
                &&& split_framed(bytes@.skip(pos as int)) == Some(
                    (raw@, bytes@.skip(next as int)),
                )
            },
            None => split_framed(bytes@.skip(pos as int)) is None,
        },
{
    match take_u64(bytes, pos) {
        Some((length, start)) => {
            if length > (bytes.len() - start) as u64 {
                return None;
            }
            let end = start + length as usize;
            let raw = slice_to_vec(slice_subrange(bytes, start, end));
            assert(bytes@.skip(start as int).take(length as int) =~= bytes@.subrange(
                start as int,
                end as int,
            ));
            assert(bytes@.skip(start as int).skip(length as int) =~= bytes@.skip(end as int));
            Some((raw, end))
        },
        None => None,
    }
}

fn take_text(bytes: &[u8], pos: usize) -> (r: Option<(String, usize)>)
    requires
        pos <= bytes@.len(),
    ensures
        match r {
            Some((text, next)) => {
                &&& pos <= next <= bytes@.len()
                &&& split_text(bytes@.skip(pos as int)) == Some(
                    (text@, bytes@.skip(next as int)),
                )
            },
            None => split_text(bytes@.skip(pos as int)) is None,
        },
{
    match take_framed(bytes, pos) {
        Some((raw, next)) => {
            let ghost raw_bytes = raw@;
            match text_of(raw) {
                Some(text) => {
                    proof {
                        encode_utf8_decode_utf8(text@);
                    }
                    Some((text, next))
                },
                None => None,
            }
        },
        None => None,
    }
}

fn take_addr(bytes: &[u8], pos: usize) -> (r: Option<((Ip, Port), usize)>)
    requires
        pos <= bytes@.len(),
    ensures
        match r {
            Some((addr, next)) => {
                &&& pos <= next <= bytes@.len()
                &&& split_addr(bytes@.skip(pos as int)) == Some(
                    ((addr.0@, addr.1), bytes@.skip(next as int)),
                )
            },
            None => split_addr(bytes@.skip(pos as int)) is None,
        },
{
    match take_text(bytes, pos) {
        Some((ip, after_ip)) => match take_u32(bytes, after_ip) {
            Some((port, next)) => Some(((ip, port), next)),
            None => None,
        },
        None => None,
    }
}

fn take_cell(bytes: &[u8], pos: usize) -> (r: Option<((u64, u64, i32), usize)>)
    requires
        pos <= bytes@.len(),
    ensures
        match r {
            Some((cell, next)) => {
                &&& pos <= next <= bytes@.len()
                &&& split_cell(bytes@.skip(pos as int)) == Some((cell, bytes@.skip(next as int)))
            },
            None => split_cell(bytes@.skip(pos as int)) is None,
        },
{
    match take_u64(bytes, pos) {
        Some((x, after_x)) => match take_u64(bytes, after_x) {
            Some((y, after_y)) => match take_u32(bytes, after_y) {
                Some((value, next)) => Some(((x, y, value as i32), next)),
                None => None,
            },
            None => None,
        },
        None => None,
    }
}

fn take_addrs(bytes: &[u8], pos: usize, count: u64) -> (r: Option<(Vec<(Ip, Port)>, usize)>)
    requires
        pos <= bytes@.len(),
    ensures
        match r {
            Some((table, next)) => {
                &&& pos <= next <= bytes@.len()
                &&& split_addrs(bytes@.skip(pos as int), count as nat) == Some(
                    (table_view(table@), bytes@.skip(next as int)),
                )
            },
            None => split_addrs(bytes@.skip(pos as int), count as nat) is None,
        },
{
    let mut table: Vec<(Ip, Port)> = Vec::new();
    let mut at: usize = pos;
    let mut i: u64 = 0;
    proof {
        let all = split_addrs(bytes@.skip(pos as int), count as nat);
        if all is Some {
            assert(table_view(table@) + all.unwrap().0 =~= all.unwrap().0);
        }
    }
    while i < count
        invariant
            pos <= at <= bytes@.len(),
            i <= count,
            split_addrs(bytes@.skip(pos as int), count as nat) == prepend(
                table_view(table@),
                split_addrs(bytes@.skip(at as int), (count - i) as nat),
            ),
        decreases count - i,
    {
        let ghost front = table_view(table@);
        let ghost here = bytes@.skip(at as int);
        match take_addr(bytes, at) {
            Some((addr, next)) => {
                let ghost entry = (addr.0@, addr.1);
                table.push(addr);
                proof {
                    let after = split_addrs(bytes@.skip(next as int), (count - i - 1) as nat);
                    assert(table_view(table@) =~= front + seq![entry]);
                    if after is Some {
                        assert(front + (seq![entry] + after.unwrap().0) =~= table_view(table@)
                            + after.unwrap().0);
                    }
                }
                at = next;
                i += 1;
            },
            None => {
                return None;
            },
        }
    }
    proof {
        assert(table_view(table@) + Seq::<AddrView>::empty() =~= table_view(table@));
    }
    Some((table, at))
}

/// Reads a message from the bytes that came over the wire. Bytes that stand
/// for no message give `None`.
pub fn decode(bytes: &[u8]) -> (r: Option<Message>)
    ensures
        match r {
            Some(msg) => parsing(bytes@) == Some(msg@),
            None => parsing(bytes@) is None,
        },
{
    if bytes.len() == 0 {
        return None;
    }
    let tag = bytes[0];
    let end = bytes.len();
    assert(bytes@.skip(end as int).len() == 0);
    if tag == TAG_MAP_SET {
        match take_cell(bytes, 1) {
            Some((cell, next)) => if next == end {
                Some(Message::MapSet(cell.0, cell.1, cell.2))
            } else {
                None
            },
            None => None,
        }
    } else if tag == TAG_MAP_GET {
        match take_cell(bytes, 1) {
            Some((cell, next)) => if next == end {
                Some(Message::MapGet(cell.0, cell.1, cell.2))
            } else {
                None
            },
            None => None,
        }
    } else if tag == TAG_AGENT {
        match take_framed(bytes, 1) {
            Some((payload, next)) => if next == end {
                Some(Message::Agent(payload))
            } else {
                None
            },
            None => None,
        }
    } else if tag == TAG_HELLO {
        match take_addr(bytes, 1) {
            Some((addr, next)) => if next == end {
                Some(Message::Hello(addr.0, addr.1))
            } else {
                None
            },
            None => None,
        }
    } else if tag == TAG_IP_TABLE {
        match take_u64(bytes, 1) {
            Some((count, start)) => match take_addrs(bytes, start, count) {
                Some((table, next)) => if next == end {
                    Some(Message::IpTable(table))
                } else {
                    None
                },
                None => None,
            },
            None => None,
        }
    } else if tag == TAG_NEXT_TURN {
        match take_u32(bytes, 1) {
            Some((turn, next)) => if next == end {
                Some(Message::NextTurn(turn))
            } else {
                None
            },
            None => None,
        }
    } else if end > 1 {
        None
    } else if tag == TAG_START_SIM {
        Some(Message::StartSim)
    } else if tag == TAG_FIN_SIM {
        Some(Message::FinSim)
    } else if tag == TAG_HOST_READY {
        Some(Message::HostReady)
    } else if tag == TAG_TURN_DONE {
        Some(Message::TurnDone)
    } else if tag == TAG_OKAY {
        Some(Message::Okay)
    } else if tag == TAG_ERROR {
        Some(Message::Error)
    } else {
        None
    }
}

proof fn lemma_split_u32(value: u32, tail: Seq<u8>)
    ensures
        split_u32(spec_u32_to_le_bytes(value) + tail) == Some((value, tail)),
{
    lemma_auto_spec_u32_to_from_le_bytes();
    let head = spec_u32_to_le_bytes(value);
    assert((head + tail).take(4) =~= head);
    assert((head + tail).skip(4) =~= tail);
}

proof fn lemma_split_u64(value: u64, tail: Seq<u8>)
    ensures
        split_u64(spec_u64_to_le_bytes(value) + tail) == Some((value, tail)),
{
    lemma_auto_spec_u64_to_from_le_bytes();
    let head = spec_u64_to_le_bytes(value);
    assert((head + tail).take(8) =~= head);
    assert((head + tail).skip(8) =~= tail);
}

proof fn lemma_split_framed(raw: Seq<u8>, tail: Seq<u8>)
    requires
        raw.len() <= u64::MAX,
    ensures
        split_framed(framed(raw) + tail) == Some((raw, tail)),
{
    let length = raw.len() as u64;
    lemma_split_u64(length, raw + tail);
    assert(framed(raw) + tail =~= spec_u64_to_le_bytes(length) + (raw + tail));
    assert((raw + tail).take(length as int) =~= raw);
    assert((raw + tail).skip(length as int) =~= tail);
}

proof fn lemma_split_addr(addr: AddrView, tail: Seq<u8>)
    requires
        encode_utf8(addr.0).len() <= u64::MAX,
    ensures
        split_addr(addr_encoding(addr) + tail) == Some((addr, tail)),
{
    let raw = encode_utf8(addr.0);
    let port = spec_u32_to_le_bytes(addr.1);
    lemma_split_framed(raw, port + tail);
    assert(addr_encoding(addr) + tail =~= framed(raw) + (port + tail));
    encode_utf8_valid_utf8(addr.0);
    encode_utf8_decode_utf8(addr.0);
    lemma_split_u32(addr.1, tail);
}

proof fn lemma_split_addrs(table: Seq<AddrView>, tail: Seq<u8>)
    requires
        forall|i: int| 0 <= i < table.len() ==> encode_utf8(#[trigger] table[i].0).len() <= u64::MAX,
    ensures
        split_addrs(addrs_encoding(table) + tail, table.len()) == Some((table, tail)),
    decreases table.len(),
{
    if table.len() == 0 {
        assert(addrs_encoding(table) + tail =~= tail);
    } else {
        let rest = table.drop_first();
        assert forall|i: int| 0 <= i < rest.len() implies encode_utf8(#[trigger] rest[i].0).len()
            <= u64::MAX by {
            assert(rest[i] == table[i + 1]);
        }
        lemma_split_addr(table[0], addrs_encoding(rest) + tail);
        assert(addrs_encoding(table) + tail =~= addr_encoding(table[0]) + (addrs_encoding(rest)
            + tail));
        lemma_split_addrs(rest, tail);
        assert(seq![table[0]] + rest =~= table);
    }
}

proof fn lemma_split_cell(x: u64, y: u64, value: i32, tail: Seq<u8>)
    ensures
        split_cell(cell_encoding(x, y, value) + tail) == Some(((x, y, value), tail)),
{
    let bx = spec_u64_to_le_bytes(x);
    let by = spec_u64_to_le_bytes(y);
    let bv = spec_u32_to_le_bytes(value as u32);
    lemma_split_u64(x, by + bv + tail);
    lemma_split_u64(y, bv + tail);
    lemma_split_u32(value as u32, tail);
    assert(cell_encoding(x, y, value) + tail =~= bx + (by + bv + tail));
    assert(by + bv + tail =~= by + (bv + tail));
    assert(((value as u32) as i32) == value) by (bit_vector);
}

/// Reading inverts writing: the bytes written for a message stand for that
/// message and for no other.
pub proof fn law_decode_inverts_encode(msg: MessageView)
    requires
        encodable(msg),
    ensures
        parsing(encoding(msg)) == Some(msg),
{
    let bytes = encoding(msg);
    let nothing = Seq::<u8>::empty();
    match msg {
        MessageView::MapSet(x, y, value) => {
            lemma_split_cell(x, y, value, nothing);
            assert(bytes.skip(1) =~= cell_encoding(x, y, value) + nothing);
        },
        MessageView::MapGet(x, y, value) => {
            lemma_split_cell(x, y, value, nothing);
            assert(bytes.skip(1) =~= cell_encoding(x, y, value) + nothing);
        },
        MessageView::Agent(payload) => {
            lemma_split_framed(payload, nothing);
            assert(bytes.skip(1) =~= framed(payload) + nothing);
        },
        MessageView::Hello(ip, port) => {
            lemma_split_addr((ip, port), nothing);
            assert(bytes.skip(1) =~= addr_encoding((ip, port)) + nothing);
        },
        MessageView::IpTable(table) => {
            let count = table.len() as u64;
            lemma_split_u64(count, addrs_encoding(table) + nothing);
            lemma_split_addrs(table, nothing);
            assert(bytes.skip(1) =~= spec_u64_to_le_bytes(count) + (addrs_encoding(table)
                + nothing));
        },
        MessageView::NextTurn(turn) => {
            lemma_split_u32(turn, nothing);
            assert(bytes.skip(1) =~= spec_u32_to_le_bytes(turn) + nothing);
        },
        _ => {
            assert(bytes.skip(1) =~= nothing);
        },
    }
}

proof fn lemma_join_u32(bytes: Seq<u8>)
    requires
        split_u32(bytes) is Some,
    ensures
        bytes == spec_u32_to_le_bytes(split_u32(bytes).unwrap().0) + split_u32(bytes).unwrap().1,
{
    lemma_auto_spec_u32_to_from_le_bytes();
    let head = bytes.take(4);
    assert(spec_u32_to_le_bytes(spec_u32_from_le_bytes(head)) == head);
    assert(bytes =~= head + bytes.skip(4));
}

proof fn lemma_join_u64(bytes: Seq<u8>)
    requires
        split_u64(bytes) is Some,
    ensures
        bytes == spec_u64_to_le_bytes(split_u64(bytes).unwrap().0) + split_u64(bytes).unwrap().1,
{
    lemma_auto_spec_u64_to_from_le_bytes();
    let head = bytes.take(8);
    assert(spec_u64_to_le_bytes(spec_u64_from_le_bytes(head)) == head);
    assert(bytes =~= head + bytes.skip(8));
}

proof fn lemma_join_framed(bytes: Seq<u8>)
    requires
        split_framed(bytes) is Some,
    ensures
        bytes == framed(split_framed(bytes).unwrap().0) + split_framed(bytes).unwrap().1,
        split_framed(bytes).unwrap().0.len() <= u64::MAX,
{
    lemma_join_u64(bytes);
    let (length, rest) = split_u64(bytes).unwrap();
    let raw = rest.take(length as int);
    assert(rest =~= raw + rest.skip(length as int));
    assert(bytes =~= framed(raw) + rest.skip(length as int));
}

proof fn lemma_join_addr(bytes: Seq<u8>)
    requires
        split_addr(bytes) is Some,
    ensures
        bytes == addr_encoding(split_addr(bytes).unwrap().0) + split_addr(bytes).unwrap().1,
        encode_utf8(split_addr(bytes).unwrap().0.0).len() <= u64::MAX,
{
    lemma_join_framed(bytes);
    let (raw, rest) = split_framed(bytes).unwrap();
    decode_utf8_encode_utf8(raw);
    lemma_join_u32(rest);
    let (port, tail) = split_u32(rest).unwrap();
    assert(bytes =~= addr_encoding((decode_utf8(raw), port)) + tail);
}

proof fn lemma_join_addrs(bytes: Seq<u8>, count: nat)
    requires
        split_addrs(bytes, count) is Some,
    ensures
        bytes == addrs_encoding(split_addrs(bytes, count).unwrap().0) + split_addrs(
            bytes,
            count,
        ).unwrap().1,
        split_addrs(bytes, count).unwrap().0.len() == count,
        forall|i: int|
            0 <= i < count ==> encode_utf8(
                #[trigger] split_addrs(bytes, count).unwrap().0[i].0,
            ).len() <= u64::MAX,
    decreases count,
{
    if count == 0 {
        assert(bytes =~= addrs_encoding(Seq::<AddrView>::empty()) + bytes);
    } else {
        lemma_join_addr(bytes);
        let (addr, rest) = split_addr(bytes).unwrap();
        lemma_join_addrs(rest, (count - 1) as nat);
        let (more, tail) = split_addrs(rest, (count - 1) as nat).unwrap();
        let table = seq![addr] + more;
        assert(table.drop_first() =~= more);
        assert(bytes =~= addrs_encoding(table) + tail);
        assert forall|i: int| 0 <= i < count implies encode_utf8(#[trigger] table[i].0).len()
            <= u64::MAX by {
            if i > 0 {
                assert(table[i] == more[i - 1]);
            }
        }
    }
}

proof fn lemma_join_cell(bytes: Seq<u8>)
    requires
        split_cell(bytes) is Some,
    ensures
        ({
            let ((x, y, value), tail) = split_cell(bytes).unwrap();
            bytes == cell_encoding(x, y, value) + tail
        }),
{
    lemma_join_u64(bytes);
    let (x, after_x) = split_u64(bytes).unwrap();
    lemma_join_u64(after_x);
    let (y, after_y) = split_u64(after_x).unwrap();
    lemma_join_u32(after_y);
    let (raw, tail) = split_u32(after_y).unwrap();
    assert(((raw as i32) as u32) == raw) by (bit_vector);
    assert(bytes =~= cell_encoding(x, y, raw as i32) + tail);
}

/// Writing inverts reading: bytes that stand for a message are the very bytes
/// that are written for it. With [`law_decode_inverts_encode`] this makes
/// reading and writing one-to-one.
pub proof fn law_encode_inverts_decode(bytes: Seq<u8>)
    requires
        parsing(bytes) is Some,
    ensures
        encodable(parsing(bytes).unwrap()),
        encoding(parsing(bytes).unwrap()) == bytes,
{
    let tag = bytes[0];
    let body = bytes.skip(1);
    let nothing = Seq::<u8>::empty();
    assert(bytes =~= seq![tag] + body);
    if tag == TAG_MAP_SET || tag == TAG_MAP_GET {
        lemma_join_cell(body);
        let (cell, tail) = split_cell(body).unwrap();
        assert(body =~= cell_encoding(cell.0, cell.1, cell.2));
    } else if tag == TAG_AGENT {
        lemma_join_framed(body);
        assert(body =~= framed(split_framed(body).unwrap().0));
    } else if tag == TAG_HELLO {
        lemma_join_addr(body);
        assert(body =~= addr_encoding(split_addr(body).unwrap().0));
    } else if tag == TAG_IP_TABLE {
        lemma_join_u64(body);
        let (count, rest) = split_u64(body).unwrap();
        lemma_join_addrs(rest, count as nat);
        let table = split_addrs(rest, count as nat).unwrap().0;
        assert(rest =~= addrs_encoding(table));
        assert(body =~= spec_u64_to_le_bytes(table.len() as u64) + addrs_encoding(table));
    } else if tag == TAG_NEXT_TURN {
        lemma_join_u32(body);
        assert(body =~= spec_u32_to_le_bytes(split_u32(body).unwrap().0));
    } else {
        assert(body =~= nothing);
    }
}

} // verus!

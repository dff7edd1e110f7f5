use vstd::prelude::*;
use vstd::string::StringExecFns;
use crate::text::addr_list;
use crate::text::addr_list_string;
use crate::text::byte_list;
use crate::text::byte_list_string;
use crate::text::decimal;
use crate::text::decimal_string;
use crate::text::signed_decimal;
use crate::text::signed_decimal_string;

verus! {

/// Textual address of a host, as written in the settings.
pub type Ip = String;

/// Number of the port on which a host publishes.
pub type Port = u32;

/// Logical clock value carried by `NextTurn`.
pub type TurnNumber = u32;

/// Everything that travels between islands, hosts and the sync server.
#[derive(Debug, PartialEq, Eq)]
pub enum Message {
    MapSet(u64, u64, i32),
    MapGet(u64, u64, i32),
    Agent(Vec<u8>),
    Hello(Ip, Port),
    IpTable(Vec<(Ip, Port)>),
    StartSim,
    FinSim,
    HostReady,
    NextTurn(TurnNumber),
    TurnDone,
    Okay,
    Error,
}

/// Mathematical value of a [`Message`]: payloads as sequences, text as
/// sequences of characters.
pub enum MessageView {
    MapSet(u64, u64, i32),
    MapGet(u64, u64, i32),
    Agent(Seq<u8>),
    Hello(Seq<char>, u32),
    IpTable(Seq<(Seq<char>, u32)>),
    StartSim,
    FinSim,
    HostReady,
    NextTurn(u32),
    TurnDone,
    Okay,
    Error,
}

/// A membership table as a sequence of `(ip, port)` pairs of plain values.
pub open spec fn table_view(table: Seq<(Ip, Port)>) -> Seq<(Seq<char>, u32)> {
    Seq::new(table.len(), |i: int| (table[i].0@, table[i].1))
}

impl View for Message {
    type V = MessageView;

    open spec fn view(&self) -> MessageView {
        match *self {
            Message::MapSet(x, y, v) => MessageView::MapSet(x, y, v),
            Message::MapGet(x, y, v) => MessageView::MapGet(x, y, v),
            Message::Agent(bytes) => MessageView::Agent(bytes@),
            Message::Hello(ip, port) => MessageView::Hello(ip@, port),
            Message::IpTable(table) => MessageView::IpTable(table_view(table@)),
            Message::StartSim => MessageView::StartSim,
            Message::FinSim => MessageView::FinSim,
            Message::HostReady => MessageView::HostReady,
            Message::NextTurn(n) => MessageView::NextTurn(n),
            Message::TurnDone => MessageView::TurnDone,
            Message::Okay => MessageView::Okay,
            Message::Error => MessageView::Error,
        }
    }
}

/// Copies a membership table entry by entry.
pub fn clone_table(table: &Vec<(Ip, Port)>) -> (r: Vec<(Ip, Port)>)
    ensures
        table_view(r@) == table_view(table@),
{
    let mut out: Vec<(Ip, Port)> = Vec::new();
    let mut i: usize = 0;
    while i < table.len()
        invariant
            i <= table.len(),
            out@.len() == i,
            forall|k: int| 0 <= k < i ==> out@[k].0@ == table@[k].0@ && out@[k].1 == table@[k].1,
        decreases table.len() - i,
    {
        let ip = table[i].0.clone();
        out.push((ip, table[i].1));
        i += 1;
    }
    assert(table_view(out@) =~= table_view(table@));
    out
}

impl Clone for Message {
    fn clone(&self) -> (r: Message)
        ensures
            r@ == self@,
    {
        match self {
            Message::MapSet(x, y, v) => Message::MapSet(*x, *y, *v),
            Message::MapGet(x, y, v) => Message::MapGet(*x, *y, *v),
            Message::Agent(bytes) => {
                let copy = bytes.clone();
                assert(copy@ =~= bytes@);
                Message::Agent(copy)
            },
            Message::Hello(ip, port) => Message::Hello(ip.clone(), *port),
            Message::IpTable(table) => Message::IpTable(clone_table(table)),
            Message::StartSim => Message::StartSim,
            Message::FinSim => Message::FinSim,
            Message::HostReady => Message::HostReady,
            Message::NextTurn(n) => Message::NextTurn(*n),
            Message::TurnDone => Message::TurnDone,
            Message::Okay => Message::Okay,
            Message::Error => Message::Error,
        }
    }
}

/// The line that stands for a cell of the map in a log, behind the word for
/// what is done to it.
pub open spec fn cell_text(x: u64, y: u64, value: i32) -> Seq<char> {
    " ("@ + decimal(x as nat) + ", "@ + decimal(y as nat) + ") -> "@ + signed_decimal(value as int)
}

/// The line that stands for a message in a log.
pub open spec fn message_text(msg: MessageView) -> Seq<char> {
    match msg {
        MessageView::MapSet(x, y, value) => "MAP SET"@ + cell_text(x, y, value),
        MessageView::MapGet(x, y, value) => "MAP GET"@ + cell_text(x, y, value),
        MessageView::Agent(payload) => byte_list(payload),
        MessageView::Hello(ip, port) => "HELLO FROM "@ + ip + ":"@ + decimal(port as nat),
        MessageView::IpTable(table) => "IP TABLE "@ + addr_list(table),
        MessageView::StartSim => "START SIM"@,
        MessageView::FinSim => "FIN SIM"@,
        MessageView::HostReady => "HOST READY"@,
        MessageView::NextTurn(turn) => "NEXT TURN ("@ + decimal(turn as nat) + ")"@,
        MessageView::TurnDone => "TURN DONE"@,
        MessageView::Okay => "OK"@,
        MessageView::Error => "ERROR"@,
    }
}

fn append_cell(s: &mut String, x: u64, y: u64, value: i32)
    ensures
        final(s)@ == old(s)@ + cell_text(x, y, value),
{
    s.append(" (");
    let xs = decimal_string(x);
    s.append(xs.as_str());
    s.append(", ");
    let ys = decimal_string(y);
    s.append(ys.as_str());
    s.append(") -> ");
    let vs = signed_decimal_string(value);
    s.append(vs.as_str());
    assert(s@ =~= old(s)@ + cell_text(x, y, value));
}

impl Message {
    /// Writes the message as a line for a log.
    pub fn as_string(&self) -> (s: String)
        ensures
            s@ == message_text(self@),
    {
        match self {
            Message::MapSet(x, y, value) => {
                let mut s = String::from_str("MAP SET");
                append_cell(&mut s, *x, *y, *value);
                s
            },
            Message::MapGet(x, y, value) => {
                let mut s = String::from_str("MAP GET");
                append_cell(&mut s, *x, *y, *value);
                s
            },
            Message::Agent(payload) => byte_list_string(payload),
            Message::Hello(ip, port) => {
                let mut s = String::from_str("HELLO FROM ");
                s.append(ip.as_str());
                s.append(":");
                let digits = decimal_string(*port as u64);
                s.append(digits.as_str());
                s
            },
            Message::IpTable(table) => {
                let mut s = String::from_str("IP TABLE ");
                let list = addr_list_string(table);
                s.append(list.as_str());
                s
            },
            Message::StartSim => String::from_str("START SIM"),
            Message::FinSim => String::from_str("FIN SIM"),
            Message::HostReady => String::from_str("HOST READY"),
            Message::NextTurn(turn) => {
                let mut s = String::from_str("NEXT TURN (");
                let digits = decimal_string(*turn as u64);
                s.append(digits.as_str());
                s.append(")");
                s
            },
            Message::TurnDone => String::from_str("TURN DONE"),
            Message::Okay => String::from_str("OK"),
            Message::Error => String::from_str("ERROR"),
        }
    }
}

} // verus!

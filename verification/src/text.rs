use vstd::prelude::*;
use vstd::string::StringExecFns;
use crate::message::table_view;

verus! {

/// Topic under which the coordinator announces the membership table and the
/// start of the simulation.
pub const COORD_INFO_KEY: &'static str = "COORD_INFO";

/// Topic under which the sync server drives the turns.
pub const SERVER_INFO_KEY: &'static str = "SERVER_INFO";

/// Topic that every host subscribes to.
pub const BROADCAST_KEY: &'static str = "BROADCAST";

/// The character that writes the digit `d`.
pub open spec fn digit_char(d: nat) -> char {
    if d == 0 {
        '0'
    } else if d == 1 {
        '1'
    } else if d == 2 {
        '2'
    } else if d == 3 {
        '3'
    } else if d == 4 {
        '4'
    } else if d == 5 {
        '5'
    } else if d == 6 {
        '6'
    } else if d == 7 {
        '7'
    } else if d == 8 {
        '8'
    } else {
        '9'
    }
}

/// Decimal notation of `n`, most significant digit first, without padding.
pub open spec fn decimal(n: nat) -> Seq<char>
    decreases n,
{
    if n < 10 {
        seq![digit_char(n)]
    } else {
        decimal(n / 10).push(digit_char(n % 10))
    }
}

/// `ip:port`, the key that names one host: its subscription topic and its
/// identity as a sender.
pub open spec fn key_text(ip: Seq<char>, port: u32) -> Seq<char> {
    ip + seq![':'] + decimal(port as nat)
}

/// `tcp://ip:port`, the transport endpoint of a socket.
pub open spec fn endpoint_text(ip: Seq<char>, port: u32) -> Seq<char> {
    seq!['t', 'c', 'p', ':', '/', '/'] + key_text(ip, port)
}

fn digit_str(d: u8) -> (s: &'static str)
    requires
        d < 10,
    ensures
        s@ == seq![digit_char(d as nat)],
{
    proof {
        reveal_strlit("0");
        reveal_strlit("1");
        reveal_strlit("2");
        reveal_strlit("3");
        reveal_strlit("4");
        reveal_strlit("5");
        reveal_strlit("6");
        reveal_strlit("7");
        reveal_strlit("8");
        reveal_strlit("9");
    }
    let s = if d == 0 {
        "0"
    } else if d == 1 {
        "1"
    } else if d == 2 {
        "2"
    } else if d == 3 {
        "3"
    } else if d == 4 {
        "4"
    } else if d == 5 {
        "5"
    } else if d == 6 {
        "6"
    } else if d == 7 {
        "7"
    } else if d == 8 {
        "8"
    } else {
        "9"
    };
    assert(s@ =~= seq![digit_char(d as nat)]);
    s
}

/// Writes `n` in decimal.
pub fn decimal_string(n: u64) -> (s: String)
    ensures
        s@ == decimal(n as nat),
    decreases n,
{
    if n < 10 {
        String::from_str(digit_str(n as u8))
    } else {
        let mut s = decimal_string(n / 10);
        s.append(digit_str((n % 10) as u8));
        assert(s@ =~= decimal(n as nat));
        s
    }
}

/// Builds the key `ip:port` of a host.
pub fn address_key(ip: &str, port: u32) -> (key: String)
    ensures
        key@ == key_text(ip@, port),
{
    proof {
        reveal_strlit(":");
    }
    let mut key = String::from_str(ip);
    key.append(":");
    let digits = decimal_string(port as u64);
    key.append(digits.as_str());
    assert(key@ =~= key_text(ip@, port));
    key
}

/// Builds the endpoint `tcp://ip:port` that a socket binds or connects to.
pub fn endpoint(ip: &str, port: u32) -> (address: String)
    ensures
        address@ == endpoint_text(ip@, port),
{
    proof {
        reveal_strlit("tcp://");
    }
    let mut address = String::from_str("tcp://");
    let key = address_key(ip, port);
    address.append(key.as_str());
    assert(address@ =~= endpoint_text(ip@, port));
    address
}

/// Decimal notation of a whole number, with a minus sign where it is below
/// zero.
pub open spec fn signed_decimal(n: int) -> Seq<char> {
    if n < 0 {
        seq!['-'] + decimal((-n) as nat)
    } else {
        decimal(n as nat)
    }
}

/// Writes `n` in decimal, with a minus sign where it is below zero.
pub fn signed_decimal_string(n: i32) -> (s: String)
    ensures
        s@ == signed_decimal(n as int),
{
    if n < 0 {
        proof {
            reveal_strlit("-");
        }
        let mut s = String::from_str("-");
        let digits = decimal_string((-(n as i64)) as u64);
        s.append(digits.as_str());
        assert(s@ =~= signed_decimal(n as int));
        s
    } else {
        decimal_string(n as u64)
    }
}

/// A text as a reader of logs sees it: between double quotes, with the
/// characters that would break the line or the quotes written as escapes.
pub uninterp spec fn quoted_text(text: Seq<char>) -> Seq<char>;

/// `format!("{:?}", text)`, the `Debug` form of `str`: the text between
/// double quotes, escaped character by character.
#[verifier::external_body]
pub(crate) fn quoted(text: &str) -> (r: String)
    ensures
        r@ == quoted_text(text@),
{
    format!("{:?}", text)
}

/// The lines of a list of bytes, one number to a line.
pub open spec fn byte_lines(bytes: Seq<u8>) -> Seq<char>
    decreases bytes.len(),
{
    if bytes.len() == 0 {
        Seq::empty()
    } else {
        byte_lines(bytes.drop_last()) + seq![' ', ' ', ' ', ' '] + decimal(bytes.last() as nat)
            + seq![',', '\n']
    }
}

/// A list of bytes laid out over several lines.
pub open spec fn byte_list(bytes: Seq<u8>) -> Seq<char> {
    if bytes.len() == 0 {
        seq!['[', ']']
    } else {
        seq!['[', '\n'] + byte_lines(bytes) + seq![']']
    }
}

/// Lays a list of bytes out over several lines.
pub fn byte_list_string(bytes: &Vec<u8>) -> (s: String)
    ensures
        s@ == byte_list(bytes@),
{
    proof {
        reveal_strlit("[]");
        reveal_strlit("[\n");
        reveal_strlit("    ");
        reveal_strlit(",\n");
        reveal_strlit("]");
    }
    if bytes.len() == 0 {
        let s = String::from_str("[]");
        assert(s@ =~= byte_list(bytes@));
        return s;
    }
    let mut s = String::from_str("[\n");
    let mut i: usize = 0;
    assert(bytes@.take(0) =~= Seq::<u8>::empty());
    assert(s@ =~= seq!['[', '\n'] + byte_lines(bytes@.take(0)));
    while i < bytes.len()
        invariant
            i <= bytes@.len(),
            s@ == seq!['[', '\n'] + byte_lines(bytes@.take(i as int)),
        decreases bytes@.len() - i,
    {
        let ghost before = s@;
        let ghost seen = bytes@.take(i + 1);
        assert(seen.drop_last() =~= bytes@.take(i as int));
        assert(seen.last() == bytes@[i as int]);
        s.append("    ");
        let digits = decimal_string(bytes[i] as u64);
        s.append(digits.as_str());
        s.append(",\n");
        proof {
            reveal_strlit("    ");
            reveal_strlit(",\n");
            let line = seq![' ', ' ', ' ', ' '] + decimal(bytes@[i as int] as nat) + seq![
                ',',
                '\n',
            ];
            let lines = byte_lines(bytes@.take(i as int));
            assert(s@ =~= before + line);
            assert(byte_lines(seen) =~= lines + line);
            assert((seq!['[', '\n'] + lines) + line =~= seq!['[', '\n'] + (lines + line));
        }
        i += 1;
    }
    assert(bytes@.take(i as int) =~= bytes@);
    s.append("]");
    assert(s@ =~= byte_list(bytes@));
    s
}

/// The lines of one entry of a list of addresses: the text of the host and
/// the port between parentheses, one to a line.
pub open spec fn entry_lines(host: Seq<char>, port: u32) -> Seq<char> {
    seq![' ', ' ', ' ', ' ', '(', '\n'] + seq![' ', ' ', ' ', ' ', ' ', ' ', ' ', ' '] + host
        + seq![',', '\n'] + seq![' ', ' ', ' ', ' ', ' ', ' ', ' ', ' '] + decimal(port as nat)
        + seq![',', '\n'] + seq![' ', ' ', ' ', ' ', ')', ',', '\n']
}

/// The lines of a list of entries, one entry behind the other.
pub open spec fn entries_lines(entries: Seq<(Seq<char>, u32)>) -> Seq<char>
    decreases entries.len(),
{
    if entries.len() == 0 {
        Seq::empty()
    } else {
        entries_lines(entries.drop_last()) + entry_lines(entries.last().0, entries.last().1)
    }
}

/// A list of entries laid out over several lines, the text of each host
/// written as it is given.
pub open spec fn entries_list(entries: Seq<(Seq<char>, u32)>) -> Seq<char> {
    if entries.len() == 0 {
        seq!['[', ']']
    } else {
        seq!['[', '\n'] + entries_lines(entries) + seq![']']
    }
}

/// The addresses of `table`, the text of each host between quotes.
pub open spec fn quoted_table(table: Seq<(Seq<char>, u32)>) -> Seq<(Seq<char>, u32)> {
    Seq::new(table.len(), |i: int| (quoted_text(table[i].0), table[i].1))
}

/// A list of addresses laid out over several lines, the text of each host
/// between quotes.
pub open spec fn addr_list(table: Seq<(Seq<char>, u32)>) -> Seq<char> {
    entries_list(quoted_table(table))
}

/// Lays a list of entries out over several lines, the text of each host
/// written as it is given.
pub fn entries_list_string(entries: &Vec<(String, u32)>) -> (s: String)
    ensures
        s@ == entries_list(table_view(entries@)),
{
    proof {
        reveal_strlit("[]");
        reveal_strlit("[\n");
        reveal_strlit("]");
    }
    if entries.len() == 0 {
        let s = String::from_str("[]");
        assert(s@ =~= entries_list(table_view(entries@)));
        return s;
    }
    let mut s = String::from_str("[\n");
    let mut i: usize = 0;
    assert(table_view(entries@).take(0) =~= Seq::<(Seq<char>, u32)>::empty());
    assert(s@ =~= seq!['[', '\n'] + entries_lines(table_view(entries@).take(0)));
    while i < entries.len()
        invariant
            i <= entries@.len(),
            s@ == seq!['[', '\n'] + entries_lines(table_view(entries@).take(i as int)),
        decreases entries@.len() - i,
    {
        let ghost before = s@;
        let ghost seen = table_view(entries@).take(i + 1);
        assert(seen.drop_last() =~= table_view(entries@).take(i as int));
        assert(seen.last() == (entries@[i as int].0@, entries@[i as int].1));
        s.append("    (\n");
        s.append("        ");
        s.append(entries[i].0.as_str());
        s.append(",\n");
        s.append("        ");
        let port = decimal_string(entries[i].1 as u64);
        s.append(port.as_str());
        s.append(",\n");
        s.append("    ),\n");
        proof {
            reveal_strlit("    (\n");
            reveal_strlit("        ");
            reveal_strlit(",\n");
            reveal_strlit("    ),\n");
            let entry = entry_lines(seen.last().0, seen.last().1);
            let lines = entries_lines(table_view(entries@).take(i as int));
            assert(s@ =~= before + entry);
            assert(entries_lines(seen) =~= lines + entry);
            assert((seq!['[', '\n'] + lines) + entry =~= seq!['[', '\n'] + (lines + entry));
        }
        i += 1;
    }
    assert(table_view(entries@).take(i as int) =~= table_view(entries@));
    s.append("]");
    assert(s@ =~= entries_list(table_view(entries@)));
    s
}

/// Lays a list of addresses out over several lines, the text of each host
/// between quotes.
pub fn addr_list_string(table: &Vec<(String, u32)>) -> (s: String)
    ensures
        s@ == addr_list(table_view(table@)),
{
    let mut entries: Vec<(String, u32)> = Vec::new();
    let mut i: usize = 0;
    while i < table.len()
        invariant
            i <= table@.len(),
            entries@.len() == i,
            forall|k: int|
                0 <= k < i ==> entries@[k].0@ == quoted_text(table@[k].0@) && entries@[k].1
                    == table@[k].1,
        decreases table@.len() - i,
    {
        let host = quoted(table[i].0.as_str());
        entries.push((host, table[i].1));
        i += 1;
    }
    assert(table_view(entries@) =~= quoted_table(table_view(table@)));
    entries_list_string(&entries)
}

} // verus!

//! The line in which a server tells its port and its key.

use crate::server::options;
use crate::text;
use crate::text::push_decimal;
use crate::words;
use crate::words::chars_of;
use crate::words::has_prefix;
use crate::words::parse_port;
use crate::words::split_words;
use vstd::prelude::*;

verus! {

/// What a server tells: its port and its key.
#[derive(Debug)]
pub struct ConnectInfo {
    pub port: u16,
    pub key: String,
}

/// The port and the key in a line: its third and fourth word, if it starts as it should.
pub open spec fn connect_info_of(line: Seq<char>) -> Option<(u16, Seq<char>)> {
    let parts = words::words_of(line);
    if words::starts_with(line, "MOSH CONNECT"@) && parts.len() >= 4 {
        match words::port_of(parts[2]) {
            Some(port) => Some((port, parts[3])),
            None => None,
        }
    } else {
        None
    }
}

/// Reads a line that the server printed. Most lines tell nothing.
pub fn parse_connect_line(line: &str) -> (res: Option<ConnectInfo>)
    ensures
        match res {
            Some(info) => connect_info_of(line@) == Some((info.port, info.key@)),
            None => connect_info_of(line@) is None,
        },
{
    let chars = chars_of(line);
    if has_prefix(&chars, "MOSH CONNECT") {
        let parts = split_words(line);
        if parts.len() >= 4 {
            let ghost all = words::words_of(line@);
            assert(parts@[2]@ == all[2] && parts@[3]@ == all[3]);
            if let Some(port) = parse_port(parts[2].as_str()) {
                return Some(ConnectInfo { port, key: parts[3].clone() });
            }
        }
    }
    None
}

/// What the server prints, the wrapper reads.
pub proof fn connect_line_is_read(port: u16, key: Seq<char>)
    requires
        words::is_word(key),
    ensures
        connect_info_of(options::connect_text(port, key)) == Some((port, key)),
{
    reveal_strlit("MOSH CONNECT ");
    reveal_strlit("MOSH CONNECT");
    reveal_strlit(" ");
    let number = text::decimal(port as nat);
    text::decimal_roundtrip(port as nat);
    words::port_roundtrip(port);
    let line = options::connect_text(port, key);
    let mosh = seq!['M', 'O', 'S', 'H'];
    let connect = seq!['C', 'O', 'N', 'N', 'E', 'C', 'T'];
    let parts = seq![mosh, connect, number, key];
    let blank = seq![' '];
    assert(words::is_word(number)) by {
        assert forall|k: int| 0 <= k < number.len() implies !words::is_space(
            #[trigger] number[k],
        ) by {
            assert(text::is_digit_char(number[k]));
        }
    }
    assert forall|i: int| 0 <= i < parts.len() implies words::is_word(#[trigger] parts[i]) by {}
    assert(line.take("MOSH CONNECT"@.len() as int) =~= "MOSH CONNECT"@);
    let three = parts.drop_last();
    let two = three.drop_last();
    let one = two.drop_last();
    assert(three =~= seq![mosh, connect, number]);
    assert(two =~= seq![mosh, connect]);
    assert(one =~= seq![mosh]);
    assert(words::joined(one, blank) == mosh);
    assert(words::joined(two, blank) == mosh + blank + connect);
    assert(words::joined(three, blank) == mosh + blank + connect + blank + number);
    assert(words::joined(parts, blank) == mosh + blank + connect + blank + number + blank + key);
    assert(line =~= mosh + blank + connect + blank + number + blank + key);
    words::words_of_joined(parts);
}

/// An address and a port, with a colon between them.
pub open spec fn address_text(ip: Seq<char>, port: u16) -> Seq<char> {
    ip + ":"@ + text::decimal(port as nat)
}

/// The address that the client is given.
pub fn server_address(ip: &str, port: u16) -> (res: String)
    ensures
        res@ == address_text(ip@, port),
        res@ == ip@ + ":"@ + text::decimal(port as nat),
{
    let mut out = ip.to_owned();
    out.push_str(":");
    push_decimal(&mut out, port as u64);
    out
}

/// The server tells its port and its key in four words, the first two of which are always the same.
pub proof fn connect_line_has_four_words(port: u16, key: Seq<char>)
    ensures
        options::connect_text(port, key) == seq![
            'M',
            'O',
            'S',
            'H',
            ' ',
            'C',
            'O',
            'N',
            'N',
            'E',
            'C',
            'T',
            ' ',
        ] + text::decimal(port as nat) + seq![' '] + key,
{
    reveal_strlit("MOSH CONNECT ");
    reveal_strlit(" ");
    assert("MOSH CONNECT "@ =~= seq![
        'M',
        'O',
        'S',
        'H',
        ' ',
        'C',
        'O',
        'N',
        'N',
        'E',
        'C',
        'T',
        ' ',
    ]);
    assert(" "@ =~= seq![' ']);
}

/// A line that does not begin as it should, or has fewer than four words, or no port as its third
/// one, tells nothing; what follows the fourth word does not matter.
pub proof fn other_lines_tell_nothing(line: Seq<char>)
    ensures
        connect_info_of(line) is Some ==> {
            let parts = words::words_of(line);
            &&& line.len() >= 12
            &&& line.take(12) == seq![
                'M',
                'O',
                'S',
                'H',
                ' ',
                'C',
                'O',
                'N',
                'N',
                'E',
                'C',
                'T',
            ]
            &&& parts.len() >= 4
            &&& words::port_of(parts[2]) == Some(connect_info_of(line).unwrap().0)
            &&& connect_info_of(line).unwrap().1 == parts[3]
        },
{
    reveal_strlit("MOSH CONNECT");
    assert("MOSH CONNECT"@ =~= seq!['M', 'O', 'S', 'H', ' ', 'C', 'O', 'N', 'N', 'E', 'C', 'T']);
}

/// The address that the client is given ends with the port of the server, after the last colon.
pub proof fn port_follows_last_colon(ip: Seq<char>, port: u16)
    ensures
        ({
            let address = address_text(ip, port);
            let n = words::after_last(address, ':');
            &&& n == ip.len() + 1
            &&& address.take(n - 1) == ip
            &&& words::port_of(address.skip(n)) == Some(port)
        }),
{
    reveal_strlit(":");
    let number = text::decimal(port as nat);
    text::decimal_roundtrip(port as nat);
    words::port_roundtrip(port);
    let address = address_text(ip, port);
    let n = ip.len() as int + 1;
    assert(address.skip(n) =~= number);
    assert(!number.contains(':')) by {
        assert forall|k: int| 0 <= k < number.len() implies number[k] != ':' by {
            assert(text::is_digit_char(number[k]));
        }
    }
    words::after_last_is(address, ':', n);
    assert(address.take(n - 1) =~= ip);
}

} // verus!

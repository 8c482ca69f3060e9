//! The server locator: reads the address server's answer and names the
//! configuration server it points to.
use vstd::prelude::*;

use crate::error::Error;
use crate::text::{decimal, lemma_split_nonempty, split, split_on, to_decimal, views};

verus! {

/// An IPv4 address, by its four octets.
#[derive(Clone, Copy, Debug, PartialEq, Eq, Structural)]
pub struct Ipv4Addr(pub u8, pub u8, pub u8, pub u8);

pub open spec fn is_digit(c: char) -> bool {
    '0' <= c && c <= '9'
}

pub open spec fn digit_value(c: char) -> nat {
    (c as int - '0' as int) as nat
}

/// The number that a string of decimal digits denotes.
pub open spec fn digits_value(t: Seq<char>) -> nat
    decreases t.len(),
{
    if t.len() == 0 {
        0
    } else {
        digits_value(t.drop_last()) * 10 + digit_value(t.last())
    }
}

/// One to three decimal digits, without a leading zero, worth at most 255.
pub open spec fn is_octet_text(t: Seq<char>) -> bool {
    &&& 1 <= t.len() <= 3
    &&& forall|i: int| 0 <= i < t.len() ==> is_digit(#[trigger] t[i])
    &&& (t.len() == 1 || t[0] != '0')
    &&& digits_value(t) <= 255
}

/// The address that a dotted-quad text denotes, if it is one.
pub open spec fn parse_ipv4(s: Seq<char>) -> Option<Ipv4Addr> {
    let f = split(s, '.');
    if f.len() == 4 && is_octet_text(f[0]) && is_octet_text(f[1]) && is_octet_text(f[2])
        && is_octet_text(f[3]) {
        Some(
            Ipv4Addr(
                digits_value(f[0]) as u8,
                digits_value(f[1]) as u8,
                digits_value(f[2]) as u8,
                digits_value(f[3]) as u8,
            ),
        )
    } else {
        None
    }
}

/// The dotted-quad notation of an address.
pub open spec fn ipv4_text(a: Ipv4Addr) -> Seq<char> {
    decimal(a.0 as nat) + "."@ + decimal(a.1 as nat) + "."@ + decimal(a.2 as nat) + "."@
        + decimal(a.3 as nat)
}

/// The first line of a text: what precedes its first newline.
pub open spec fn first_line(s: Seq<char>) -> Seq<char> {
    split(s, '\n')[0]
}

/// The text of the error for an address line that does not parse.
pub open spec fn invalid_address_message(line: Seq<char>) -> Seq<char> {
    line + " is not a valid ipv4 address"@
}

/// What the locator makes of the address server's answer.
pub open spec fn resolve_spec(response: Seq<char>) -> Result<Ipv4Addr, Seq<char>> {
    match parse_ipv4(first_line(response)) {
        Some(a) => Ok(a),
        None => Err(invalid_address_message(first_line(response))),
    }
}

/// The address server's URL that names the configuration server.
pub open spec fn address_url_spec(address_server: Seq<char>) -> Seq<char> {
    "http://"@ + address_server + "/diamond-server/diamond"@
}

impl Ipv4Addr {
    /// The address in dotted-quad notation.
    pub fn to_text(&self) -> (r: String)
        ensures
            r@ == ipv4_text(*self),
    {
        let mut s = to_decimal(self.0 as u64);
        s.append(".");
        s.append(to_decimal(self.1 as u64).as_str());
        s.append(".");
        s.append(to_decimal(self.2 as u64).as_str());
        s.append(".");
        s.append(to_decimal(self.3 as u64).as_str());
        s
    }
}

fn parse_octet(t: &str) -> (r: Option<u8>)
    ensures
        r == (if is_octet_text(t@) {
            Some(digits_value(t@) as u8)
        } else {
            None::<u8>
        }),
{
    let n = t.unicode_len();
    if n == 0 || n > 3 {
        return None;
    }
    if n > 1 && t.get_char(0) == '0' {
        return None;
    }
    let mut v: u32 = 0;
    let mut i: usize = 0;
    assert(t@.take(0) =~= Seq::<char>::empty());
    while i < n
        invariant
            n == t@.len(),
            1 <= n <= 3,
            i <= n,
            forall|j: int| 0 <= j < i ==> is_digit(#[trigger] t@[j]),
            v == digits_value(t@.take(i as int)),
            i == 0 ==> v == 0,
            i == 1 ==> v < 10,
            i == 2 ==> v < 100,
            i == 3 ==> v < 1000,
        decreases n - i,
    {
        let c = t.get_char(i);
        if !('0' <= c && c <= '9') {
            assert(!is_digit(t@[i as int]));
            return None;
        }
        assert(t@.take(i as int + 1).drop_last() =~= t@.take(i as int));
        v = v * 10 + (c as u32 - '0' as u32);
        i = i + 1;
    }
    assert(t@.take(n as int) =~= t@);
    if v > 255 {
        None
    } else {
        Some(v as u8)
    }
}

fn parse_ipv4_exec(s: &str) -> (r: Option<Ipv4Addr>)
    ensures
        r == parse_ipv4(s@),
{
    let parts = split_on(s, '.');
    if parts.len() != 4 {
        return None;
    }
    assert(views(parts@)[0] == parts@[0]@);
    assert(views(parts@)[1] == parts@[1]@);
    assert(views(parts@)[2] == parts@[2]@);
    assert(views(parts@)[3] == parts@[3]@);
    let a = match parse_octet(parts[0].as_str()) {
        Some(x) => x,
        None => return None,
    };
    let b = match parse_octet(parts[1].as_str()) {
        Some(x) => x,
        None => return None,
    };
    let c = match parse_octet(parts[2].as_str()) {
        Some(x) => x,
        None => return None,
    };
    let d = match parse_octet(parts[3].as_str()) {
        Some(x) => x,
        None => return None,
    };
    Some(Ipv4Addr(a, b, c, d))
}

/// Reads the address server's answer: the first line, which must be an IPv4
/// address in dotted-quad notation. Otherwise the error is `Custom`, and its
/// text names the line.
pub fn get_acm_server(response: &str) -> (r: Result<Ipv4Addr, Error>)
    ensures
        match resolve_spec(response@) {
            Ok(a) => r == Ok::<Ipv4Addr, Error>(a),
            Err(m) => r matches Err(Error::Custom(e)) && e@ == m,
        },
{
    let lines = split_on(response, '\n');
    proof {
        lemma_split_nonempty(response@, '\n');
    }
    let line = lines[0].as_str();
    assert(views(lines@)[0] == line@);
    match parse_ipv4_exec(line) {
        Some(a) => Ok(a),
        None => {
            let mut message = String::from_str(line);
            message.append(" is not a valid ipv4 address");
            Err(Error::Custom(message))
        },
    }
}

/// The URL at which the address server names the configuration server.
pub fn address_url(address_server: &str) -> (r: String)
    ensures
        r@ == address_url_spec(address_server@),
{
    let mut url = String::from_str("http://");
    url.append(address_server);
    url.append("/diamond-server/diamond");
    url
}

} // verus!

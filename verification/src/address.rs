//! The address of a message: the server's address and the message's
//! identifier, written in decimal.

use crate::hex;
use vstd::prelude::*;
use vstd::string::*;

verus! {

/// The address at which the server is taken to listen where none is
/// configured.
pub const DEFAULT_ADDRESS: &'static str = "127.0.0.1";

/// The port at which the server is taken to listen where none is configured.
pub const DEFAULT_PORT: &'static str = "8080";

/// The text that is configured, or `default` where nothing is.
pub open spec fn configured_or(configured: Option<&str>, default: Seq<char>) -> Seq<char> {
    match configured {
        Some(text) => text@,
        None => default,
    }
}

/// The decimal digits of `n`, without a sign.
pub open spec fn digits_spec(n: nat) -> Seq<char>
    decreases n,
{
    if n < 10 {
        seq![hex::digit_of(n as int)]
    } else {
        digits_spec(n / 10).push(hex::digit_of((n % 10) as int))
    }
}

/// An identifier as it stands in a URL: in decimal, with a minus sign where
/// it is negative.
pub open spec fn id_text_spec(id: int) -> Seq<char> {
    if id < 0 {
        seq!['-'] + digits_spec((-id) as nat)
    } else {
        digits_spec(id as nat)
    }
}

/// The address under which the message `id` can be fetched from the server
/// at `address` and `port`.
pub open spec fn url_spec(address: Seq<char>, port: Seq<char>, id: int) -> Seq<char> {
    "http://"@ + address + ":"@ + port + "/messages/"@ + id_text_spec(id)
}

/// An identifier's text holds nothing but digits and, in front of them, at
/// most one minus sign: it can stand in a URL path as it is.
pub proof fn lemma_id_text_is_plain(id: int)
    ensures
        id_text_spec(id).len() >= 1,
        forall|k: int|
            0 <= k < id_text_spec(id).len() ==> {
                let c = #[trigger] id_text_spec(id)[k];
                ('0' <= c && c <= '9') || (c == '-' && k == 0 && id < 0)
            },
{
    if id < 0 {
        lemma_digits_are_digits((-id) as nat);
    } else {
        lemma_digits_are_digits(id as nat);
    }
}

/// Two different identifiers never have the same text, and so never the same
/// address on one server.
pub proof fn lemma_id_text_injective(first: int, second: int)
    requires
        id_text_spec(first) == id_text_spec(second),
    ensures
        first == second,
{
    let a: nat = if first < 0 {
        (-first) as nat
    } else {
        first as nat
    };
    let b: nat = if second < 0 {
        (-second) as nat
    } else {
        second as nat
    };
    lemma_digits_are_digits(a);
    lemma_digits_are_digits(b);
    if first < 0 && second < 0 {
        assert(id_text_spec(first).drop_first() =~= digits_spec(a));
        assert(id_text_spec(second).drop_first() =~= digits_spec(b));
        lemma_digits_injective(a, b);
    } else if first >= 0 && second >= 0 {
        lemma_digits_injective(a, b);
    } else if first < 0 {
        assert(id_text_spec(first)[0] == '-');
        assert(id_text_spec(second)[0] == digits_spec(b)[0]);
    } else {
        assert(id_text_spec(second)[0] == '-');
        assert(id_text_spec(first)[0] == digits_spec(a)[0]);
    }
}

/// On one server, two different messages never have the same address.
pub proof fn lemma_url_injective(address: Seq<char>, port: Seq<char>, first: int, second: int)
    requires
        url_spec(address, port, first) == url_spec(address, port, second),
    ensures
        first == second,
{
    let front = "http://"@ + address + ":"@ + port + "/messages/"@;
    let a = id_text_spec(first);
    let b = id_text_spec(second);
    assert((front + a).subrange(front.len() as int, (front + a).len() as int) =~= a);
    assert((front + b).subrange(front.len() as int, (front + b).len() as int) =~= b);
    lemma_id_text_injective(first, second);
}

proof fn lemma_digits_injective(a: nat, b: nat)
    requires
        digits_spec(a) == digits_spec(b),
    ensures
        a == b,
    decreases a,
{
    lemma_digits_are_digits(a / 10);
    lemma_digits_are_digits(b / 10);
    if a < 10 && b < 10 {
        assert(digits_spec(a)[0] == hex::digit_of(a as int));
        assert(digits_spec(b)[0] == hex::digit_of(b as int));
    } else if a >= 10 && b >= 10 {
        let front_a = digits_spec(a / 10);
        let front_b = digits_spec(b / 10);
        let last_a = hex::digit_of((a % 10) as int);
        let last_b = hex::digit_of((b % 10) as int);
        assert(front_a.push(last_a).drop_last() =~= front_a);
        assert(front_b.push(last_b).drop_last() =~= front_b);
        assert(front_a.push(last_a).last() == last_a);
        assert(front_b.push(last_b).last() == last_b);
        lemma_digits_injective(a / 10, b / 10);
        assert(a % 10 == b % 10);
    } else if a < 10 {
        assert(digits_spec(a).len() == 1);
        assert(digits_spec(b).len() == digits_spec(b / 10).len() + 1);
    } else {
        assert(digits_spec(b).len() == 1);
        assert(digits_spec(a).len() == digits_spec(a / 10).len() + 1);
    }
}

proof fn lemma_digits_are_digits(n: nat)
    ensures
        digits_spec(n).len() >= 1,
        forall|k: int|
            0 <= k < digits_spec(n).len() ==> '0' <= #[trigger] digits_spec(n)[k] && digits_spec(
                n,
            )[k] <= '9',
    decreases n,
{
    if n >= 10 {
        lemma_digits_are_digits(n / 10);
    }
}

/// Writes `n` in decimal.
fn digits(n: u64) -> (text: String)
    ensures
        text@ == digits_spec(n as nat),
    decreases n,
{
    if n < 10 {
        let text = String::from_str(hex::digit_text(n as u8));
        text
    } else {
        let mut text = digits(n / 10);
        text.append(hex::digit_text((n % 10) as u8));
        assert(text@ =~= digits_spec(n as nat));
        text
    }
}

/// Writes an identifier as it stands in a URL.
pub fn id_text(id: i64) -> (text: String)
    ensures
        text@ == id_text_spec(id as int),
{
    if id < 0 {
        let magnitude: u64 = (-(id + 1)) as u64 + 1;
        let mut text = String::from_str("-");
        proof {
            reveal_strlit("-");
        }
        let tail = digits(magnitude);
        text.append(tail.as_str());
        assert(text@ =~= id_text_spec(id as int));
        text
    } else {
        digits(id as u64)
    }
}

/// The address under which the message `id` can be fetched from the server
/// that listens at `address` and `port`.
pub fn message_url(address: &str, port: &str, id: i64) -> (url: String)
    ensures
        url@ == url_spec(address@, port@, id as int),
{
    let mut url = String::from_str("http://");
    url.append(address);
    url.append(":");
    url.append(port);
    url.append("/messages/");
    let text = id_text(id);
    url.append(text.as_str());
    url
}

/// The address under which the message `id` can be fetched, from what is
/// configured of the server: where no address is configured it is taken to
/// be `DEFAULT_ADDRESS`, where no port is, `DEFAULT_PORT`.
pub fn message_address(address: Option<&str>, port: Option<&str>, id: i64) -> (url: String)
    ensures
        url@ == url_spec(
            configured_or(address, "127.0.0.1"@),
            configured_or(port, "8080"@),
            id as int,
        ),
{
    let address: &str = match address {
        Some(text) => text,
        None => DEFAULT_ADDRESS,
    };
    let port: &str = match port {
        Some(text) => text,
        None => DEFAULT_PORT,
    };
    message_url(address, port, id)
}

} // verus!

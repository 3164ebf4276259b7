//! Where the worker connects: the address of the server's clock, the address
//! of the message channel, and the reading of the timestamp that the clock
//! gives.

use vstd::prelude::*;
use vstd::string::{StrSliceExecFns, StringExecFns};

verus! {

/// `url::ParseError`, why a text is no URL.
#[verifier::external_type_specification]
#[verifier::external_body]
pub struct ExParseError(url::ParseError);

/// `String::push`: appends one character.
pub assume_specification[ String::push ](text: &mut String, ch: char)
    ensures
        final(text)@ == old(text)@.push(ch),
;

/// What `url::Url::parse` makes of `text`: the address as the parsed URL
/// writes it, and the host that it holds, if any; `None` where `text` is no
/// absolute URL.
pub uninterp spec fn parsed_url(text: Seq<char>) -> Option<(Seq<char>, Option<Seq<char>>)>;

/// The view of a text that may be missing.
pub open spec fn view_of(text: Option<String>) -> Option<Seq<char>> {
    match text {
        Some(text) => Some(text@),
        None => None,
    }
}

/// Calls `url::Url::parse` and hands out the parsed URL's serialization and
/// its `host_str`.
#[verifier::external_body]
fn parse_url(text: &str) -> (parsed: Result<(String, Option<String>), url::ParseError>)
    ensures
        match parsed {
            Ok((address, host)) => parsed_url(text@) == Some((address@, view_of(host))),
            Err(_) => parsed_url(text@) is None,
        },
{
    match url::Url::parse(text) {
        Ok(url) => Ok((url.to_string(), url.host_str().map(|host| host.to_string()))),
        Err(error) => Err(error),
    }
}

/// The character of one decimal digit, for values below ten.
pub open spec fn digit_spec(value: u8) -> char {
    if value == 0 {
        '0'
    } else if value == 1 {
        '1'
    } else if value == 2 {
        '2'
    } else if value == 3 {
        '3'
    } else if value == 4 {
        '4'
    } else if value == 5 {
        '5'
    } else if value == 6 {
        '6'
    } else if value == 7 {
        '7'
    } else if value == 8 {
        '8'
    } else {
        '9'
    }
}

fn digit(value: u8) -> (ch: char)
    ensures
        ch == digit_spec(value),
{
    if value == 0 {
        '0'
    } else if value == 1 {
        '1'
    } else if value == 2 {
        '2'
    } else if value == 3 {
        '3'
    } else if value == 4 {
        '4'
    } else if value == 5 {
        '5'
    } else if value == 6 {
        '6'
    } else if value == 7 {
        '7'
    } else if value == 8 {
        '8'
    } else {
        '9'
    }
}

/// A number in decimal, without sign or leading zeros.
pub open spec fn decimal_text(value: nat) -> Seq<char>
    decreases value,
{
    if value < 10 {
        seq![digit_spec(value as u8)]
    } else {
        decimal_text(value / 10).push(digit_spec((value % 10) as u8))
    }
}

/// Appends `value` in decimal to `text`.
pub fn push_decimal(text: &mut String, value: u64)
    ensures
        final(text)@ == old(text)@ + decimal_text(value as nat),
    decreases value,
{
    if value >= 10 {
        push_decimal(text, value / 10);
    }
    text.push(digit((value % 10) as u8));
}

/// `base` with a slash at its end, added where there was none.
pub open spec fn with_slash(base: Seq<char>) -> Seq<char> {
    if base.len() > 0 && base.last() == '/' {
        base
    } else {
        base.push('/')
    }
}

/// The address of the server's clock: `http` without transport security,
/// `https` with it.
pub open spec fn timestamp_url_spec(host: Seq<char>, unsecure: bool) -> Seq<char> {
    (if unsecure {
        "http://"@
    } else {
        "https://"@
    }) + host + "/timestamp"@
}

/// The address of the message channel before it is parsed: `ws` without
/// transport security, `wss` with it, the host, a slash where the host ends
/// in none, and the server's timestamp as the query.
pub open spec fn channel_url_spec(host: Seq<char>, unsecure: bool, server_timestamp: u64) -> Seq<
    char,
> {
    with_slash(
        (if unsecure {
            "ws://"@
        } else {
            "wss://"@
        }) + host,
    ) + "?timestamp="@ + decimal_text(server_timestamp as nat)
}

/// Builds the address of the server's clock.
pub fn timestamp_url(host: &str, unsecure: bool) -> (address: String)
    ensures
        address@ == timestamp_url_spec(host@, unsecure),
{
    let mut address = String::from_str(
        if unsecure {
            "http://"
        } else {
            "https://"
        },
    );
    address.append(host);
    address.append("/timestamp");
    address
}

/// Builds the address of the message channel, as it stands before it is
/// parsed.
pub fn channel_url(host: &str, unsecure: bool, server_timestamp: u64) -> (address: String)
    ensures
        address@ == channel_url_spec(host@, unsecure, server_timestamp),
{
    let mut address = String::from_str(
        if unsecure {
            "ws://"
        } else {
            "wss://"
        },
    );
    address.append(host);
    proof {
        reveal_strlit("ws://");
        reveal_strlit("wss://");
    }
    let len = address.as_str().unicode_len();
    if address.as_str().get_char(len - 1) != '/' {
        address.push('/');
    }
    address.append("?timestamp=");
    push_decimal(&mut address, server_timestamp);
    address
}

/// Where the message channel is opened: the address to ask for and the host
/// to name in the request.
#[derive(Debug)]
pub struct Endpoint {
    pub address: String,
    pub host: String,
}

/// Why there is nowhere to connect.
#[derive(Clone, Copy, Debug, PartialEq, Eq)]
pub enum EndpointError {
    /// The address does not parse as a URL.
    Unparsable,
    /// The address parses, but names no host.
    NoHost,
}

/// What `channel_endpoint` returns for the address `text`.
pub open spec fn endpoint_of(text: Seq<char>, result: Result<Endpoint, EndpointError>) -> bool {
    match parsed_url(text) {
        None => result == Err::<Endpoint, EndpointError>(EndpointError::Unparsable),
        Some((_, None)) => result == Err::<Endpoint, EndpointError>(EndpointError::NoHost),
        Some((address, Some(host))) => result matches Ok(endpoint) && endpoint.address@ == address
            && endpoint.host@ == host,
    }
}

/// Takes the parsed address of the message channel apart: with a host it is
/// an endpoint, without one it is refused.
pub fn endpoint_from(parsed: (String, Option<String>)) -> (result: Result<Endpoint, EndpointError>)
    ensures
        match parsed.1 {
            Some(host) => result matches Ok(endpoint) && endpoint.address == parsed.0
                && endpoint.host == host,
            None => result == Err::<Endpoint, EndpointError>(EndpointError::NoHost),
        },
{
    match parsed.1 {
        Some(host) => Ok(Endpoint { address: parsed.0, host }),
        None => Err(EndpointError::NoHost),
    }
}

/// Builds the address of the message channel and has it parsed.
pub fn channel_endpoint(host: &str, unsecure: bool, server_timestamp: u64) -> (result: Result<
    Endpoint,
    EndpointError,
>)
    ensures
        endpoint_of(channel_url_spec(host@, unsecure, server_timestamp), result),
{
    let address = channel_url(host, unsecure, server_timestamp);
    match parse_url(address.as_str()) {
        Ok(parsed) => endpoint_from(parsed),
        Err(_) => Err(EndpointError::Unparsable),
    }
}

/// Whether a byte is an ASCII decimal digit.
pub open spec fn is_digit(byte: u8) -> bool {
    0x30 <= byte <= 0x39
}

/// The number that a run of decimal digits spells.
pub open spec fn digits_value(digits: Seq<u8>) -> nat
    decreases digits.len(),
{
    if digits.len() == 0 {
        0
    } else {
        10 * digits_value(digits.drop_last()) + (digits.last() - 0x30) as nat
    }
}

/// The digits of a body: what follows a plus sign at its start, or all of it.
pub open spec fn unsigned_part(body: Seq<u8>) -> Seq<u8> {
    if body.len() > 0 && body[0] == 0x2b {
        body.drop_first()
    } else {
        body
    }
}

/// The timestamp that the body of the clock's answer spells: at least one
/// decimal digit and nothing else but a plus sign before them, with a value
/// that a `u64` holds.
pub open spec fn timestamp_of(body: Seq<u8>) -> Option<u64> {
    let digits = unsigned_part(body);
    if digits.len() > 0 && (forall|i: int| 0 <= i < digits.len() ==> is_digit(#[trigger] digits[i]))
        && digits_value(digits) <= u64::MAX {
        Some(digits_value(digits) as u64)
    } else {
        None
    }
}

/// A run of digits spells no less than any run it starts with.
pub proof fn lemma_digits_value_grows(digits: Seq<u8>, shorter: int)
    requires
        0 <= shorter <= digits.len(),
        forall|i: int| 0 <= i < digits.len() ==> is_digit(#[trigger] digits[i]),
    ensures
        digits_value(digits.take(shorter)) <= digits_value(digits),
    decreases digits.len() - shorter,
{
    if shorter < digits.len() {
        let front = digits.drop_last();
        assert(front.take(shorter) =~= digits.take(shorter));
        lemma_digits_value_grows(front, shorter);
    } else {
        assert(digits.take(shorter) =~= digits);
    }
}

/// Reads the timestamp from the body of the clock's answer.
pub fn parse_timestamp(body: &[u8]) -> (timestamp: Option<u64>)
    ensures
        timestamp == timestamp_of(body@),
{
    let len = body.len();
    let from: usize = if len > 0 && body[0] == 0x2b {
        1
    } else {
        0
    };
    let ghost digits = unsigned_part(body@);
    if from == len {
        return None;
    }
    let mut value: u64 = 0;
    let mut i: usize = from;
    while i < len
        invariant
            from <= i <= len,
            len == body@.len(),
            digits == body@.subrange(from as int, len as int),
            digits == unsigned_part(body@),
            forall|k: int| 0 <= k < i - from ==> is_digit(#[trigger] digits[k]),
            value == digits_value(digits.take(i - from)),
        decreases len - i,
    {
        let byte = body[i];
        if byte < 0x30 || byte > 0x39 {
            assert(!is_digit(digits[i - from]));
            return None;
        }
        assert(digits.take(i - from + 1).drop_last() =~= digits.take(i - from));
        let next = match value.checked_mul(10) {
            Some(tenfold) => tenfold.checked_add((byte - 0x30) as u64),
            None => None,
        };
        match next {
            Some(next) => {
                value = next;
            },
            None => {
                proof {
                    if forall|k: int| 0 <= k < digits.len() ==> is_digit(#[trigger] digits[k]) {
                        lemma_digits_value_grows(digits, i - from + 1);
                    }
                }
                return None;
            },
        }
        i += 1;
    }
    assert(digits.take(len - from) =~= digits);
    Some(value)
}

} // verus!

//! Dial addresses of the form `"host:port"`.

use vstd::prelude::*;

use crate::error::{Error, ErrorView};
use crate::text::{chars_of, decimal, digit_char};

verus! {

/// The last colon of `s` is at `i`.
pub open spec fn is_last_colon(s: Seq<char>, i: int) -> bool {
    &&& 0 <= i < s.len()
    &&& s[i] == ':'
    &&& forall|j: int| i < j < s.len() ==> s[j] != ':'
}

/// What stands before and after the last colon, if there is one.
pub open spec fn split_host_port(s: Seq<char>) -> Option<(Seq<char>, Seq<char>)> {
    if s.contains(':') {
        let i = choose|i: int| is_last_colon(s, i);
        Some((s.take(i), s.skip(i + 1)))
    } else {
        None
    }
}

/// An ASCII digit.
pub open spec fn is_digit(c: char) -> bool {
    '0' <= c && c <= '9'
}

/// The number that a sequence of digits stands for.
pub open spec fn digits_value(s: Seq<char>) -> nat
    decreases s.len(),
{
    if s.len() == 0 {
        0
    } else {
        digits_value(s.drop_last()) * 10 + (s.last() as nat - '0' as nat) as nat
    }
}

/// At least one digit, and nothing else.
pub open spec fn all_digits(s: Seq<char>) -> bool {
    s.len() > 0 && forall|i: int| 0 <= i < s.len() ==> is_digit(#[trigger] s[i])
}

/// A port as written, without its optional plus sign.
pub open spec fn unsigned_part(s: Seq<char>) -> Seq<char> {
    if s.len() > 0 && s[0] == '+' {
        s.skip(1)
    } else {
        s
    }
}

/// A port number as written: digits after an optional plus sign, no larger
/// than 65535.
pub open spec fn parse_port(s: Seq<char>) -> Option<nat> {
    let digits = unsigned_part(s);
    if all_digits(digits) && digits_value(digits) <= 65535 {
        Some(digits_value(digits))
    } else {
        None
    }
}

/// Why an address cannot be dialed; `None` if it can.
pub open spec fn address_fault(s: Seq<char>) -> Option<Seq<char>> {
    match split_host_port(s) {
        None => Some("expected \"host:port\""@),
        Some((host, port)) => if host.len() == 0 {
            Some("empty host"@)
        } else {
            match parse_port(port) {
                Some(p) => if p == 0 {
                    Some("port must be 1-65535"@)
                } else {
                    None
                },
                None => Some("port must be 1-65535"@),
            }
        },
    }
}

/// There is only one last colon.
proof fn lemma_last_colon(s: Seq<char>, i: int)
    requires
        is_last_colon(s, i),
    ensures
        split_host_port(s) == Some((s.take(i), s.skip(i + 1))),
{
    assert(s.contains(':'));
    let k = choose|k: int| is_last_colon(s, k);
    assert(is_last_colon(s, k));
    assert(k == i) by {
        if k < i {
            assert(s[i] != ':');
        }
        if i < k {
            assert(s[k] != ':');
        }
    }
}

/// More digits never make a smaller number.
proof fn lemma_digits_grow(s: Seq<char>, k: int)
    requires
        0 <= k <= s.len(),
    ensures
        digits_value(s.take(k)) <= digits_value(s),
    decreases s.len(),
{
    if k < s.len() {
        let init = s.drop_last();
        assert(init.take(k) =~= s.take(k));
        lemma_digits_grow(init, k);
        assert(digits_value(s) >= digits_value(init));
    } else {
        assert(s.take(k) =~= s);
    }
}

/// Read a port number from the end of an address.
fn read_port(chars: &Vec<char>, from: usize) -> (port: Option<u16>)
    requires
        from <= chars@.len(),
    ensures
        match port {
            Some(p) => parse_port(chars@.skip(from as int)) == Some(p as nat),
            None => parse_port(chars@.skip(from as int)) is None,
        },
{
    let ghost text = chars@.skip(from as int);
    let n: usize = chars.len();
    let start: usize = if from < n && chars[from] == '+' { from + 1 } else { from };
    let ghost digits = unsigned_part(text);
    assert(digits =~= chars@.skip(start as int));
    if start == n {
        return None;
    }
    let mut value: u32 = 0;
    let mut i: usize = start;
    while i < n
        invariant
            start <= i <= n,
            n == chars@.len(),
            digits == chars@.skip(start as int),
            text == chars@.skip(from as int),
            digits == unsigned_part(text),
            forall|j: int| 0 <= j < i - start ==> is_digit(#[trigger] digits[j]),
            value == digits_value(digits.take(i - start)),
            value <= 65535,
        decreases n - i,
    {
        let c = chars[i];
        let ghost k = i - start;
        assert(digits[k] == c);
        if c < '0' || c > '9' {
            assert(!is_digit(digits[k]));
            return None;
        }
        assert(digits.take(k + 1).drop_last() =~= digits.take(k));
        let d: u32 = c as u32 - '0' as u32;
        value = value * 10 + d;
        if value > 65535 {
            proof {
                lemma_digits_grow(digits, k + 1);
            }
            return None;
        }
        i += 1;
    }
    assert(digits.take(n - start) =~= digits);
    Some(value as u16)
}

/// Where the last colon of an address is.
fn find_last_colon(chars: &Vec<char>) -> (at: Option<usize>)
    ensures
        match at {
            Some(i) => is_last_colon(chars@, i as int),
            None => !chars@.contains(':'),
        },
{
    let mut i: usize = chars.len();
    while i > 0
        invariant
            i <= chars@.len(),
            forall|j: int| i <= j < chars@.len() ==> chars@[j] != ':',
        decreases i,
    {
        i -= 1;
        if chars[i] == ':' {
            return Some(i);
        }
    }
    None
}

/// Validate a `"host:port"` without resolving it.
pub fn validate_dial_addr(addr: &str) -> (result: Result<(), Error>)
    ensures
        match address_fault(addr@) {
            None => result is Ok,
            Some(reason) => result matches Err(e) && e@ == (ErrorView::InvalidAddress {
                addr: addr@,
                reason,
            }),
        },
{
    let chars: Vec<char> = chars_of(addr);
    let colon: usize = match find_last_colon(&chars) {
        Some(i) => i,
        None => {
            return Err(Error::invalid_address(addr.to_owned(), "expected \"host:port\""));
        },
    };
    proof {
        lemma_last_colon(addr@, colon as int);
    }
    if colon == 0 {
        return Err(Error::invalid_address(addr.to_owned(), "empty host"));
    }
    let port: u16 = match read_port(&chars, colon + 1) {
        Some(p) => p,
        None => {
            return Err(Error::invalid_address(addr.to_owned(), "port must be 1-65535"));
        },
    };
    if port == 0 {
        return Err(Error::invalid_address(addr.to_owned(), "port must be 1-65535"));
    }
    Ok(())
}

/// A decimal number is made of digits that stand for it.
proof fn lemma_decimal_digits(n: nat)
    ensures
        decimal(n).len() > 0,
        forall|i: int| 0 <= i < decimal(n).len() ==> is_digit(#[trigger] decimal(n)[i]),
        digits_value(decimal(n)) == n,
    decreases n,
{
    if n < 10 {
        let s = seq![digit_char(n)];
        assert(decimal(n) == s);
        assert(s.drop_last() =~= Seq::<char>::empty());
        assert(digits_value(s.drop_last()) == 0);
        assert(s.last() == digit_char(n));
    } else {
        let head = decimal(n / 10);
        lemma_decimal_digits(n / 10);
        let s = head.push(digit_char(n % 10));
        assert(decimal(n) == s);
        assert(s.drop_last() =~= head);
        assert(n == (n / 10) * 10 + n % 10);
        assert forall|i: int| 0 <= i < s.len() implies is_digit(#[trigger] s[i]) by {
            if i < head.len() {
                assert(is_digit(head[i]));
            }
        }
    }
}

/// Every host with a port between 1 and 65535 can be dialed, whatever else the
/// host contains.
pub proof fn every_host_and_port_is_accepted(host: Seq<char>, port: nat)
    requires
        host.len() > 0,
        1 <= port <= 65535,
    ensures
        address_fault(host + seq![':'] + decimal(port)) is None,
{
    let s = host + seq![':'] + decimal(port);
    let tail = decimal(port);
    lemma_decimal_digits(port);
    assert forall|j: int| host.len() < j < s.len() implies s[j] != ':' by {
        assert(s[j] == tail[j - host.len() - 1]);
        assert(is_digit(tail[j - host.len() - 1]));
    }
    lemma_last_colon(s, host.len() as int);
    assert(s.skip(host.len() as int + 1) =~= tail);
    assert(s.take(host.len() as int) =~= host);
    assert(is_digit(tail[0]));
}

/// A port of zero, or one that does not fit, is refused.
pub proof fn ports_out_of_range_are_refused(host: Seq<char>, port: nat)
    requires
        host.len() > 0,
        port == 0 || port > 65535,
    ensures
        address_fault(host + seq![':'] + decimal(port)) == Some("port must be 1-65535"@),
{
    let s = host + seq![':'] + decimal(port);
    let tail = decimal(port);
    lemma_decimal_digits(port);
    assert forall|j: int| host.len() < j < s.len() implies s[j] != ':' by {
        assert(s[j] == tail[j - host.len() - 1]);
        assert(is_digit(tail[j - host.len() - 1]));
    }
    lemma_last_colon(s, host.len() as int);
    assert(s.skip(host.len() as int + 1) =~= tail);
    assert(s.take(host.len() as int) =~= host);
    assert(is_digit(tail[0]));
}

/// Without a colon there is no port.
pub proof fn an_address_needs_a_colon(s: Seq<char>)
    requires
        !s.contains(':'),
    ensures
        address_fault(s) == Some("expected \"host:port\""@),
{
}

/// A digit is worth ten times more one place further left.
pub proof fn digits_count_by_place(digits: Seq<char>, c: char)
    requires
        '0' <= c,
        c <= '9',
    ensures
        digits_value(Seq::<char>::empty()) == 0,
        digits_value(digits.push(c)) == 10 * digits_value(digits) + (c as int - 48),
{
    assert(digits.push(c).drop_last() =~= digits);
}

/// A number in decimal is made of digits that stand for it, and starts with a
/// zero only if it is zero.
pub proof fn decimals_read_back(n: nat)
    ensures
        decimal(n).len() > 0,
        forall|i: int|
            0 <= i < decimal(n).len() ==> '0' <= #[trigger] decimal(n)[i] && decimal(n)[i] <= '9',
        digits_value(decimal(n)) == n,
        n > 0 ==> decimal(n)[0] != '0',
    decreases n,
{
    lemma_decimal_digits(n);
    assert forall|i: int| 0 <= i < decimal(n).len() implies '0' <= #[trigger] decimal(n)[i]
        && decimal(n)[i] <= '9' by {
        assert(is_digit(decimal(n)[i]));
    }
    if n >= 10 {
        decimals_read_back(n / 10);
    }
}

/// Zeros in front do not change what digits stand for.
proof fn lemma_leading_zeros(zeros: nat, digits: Seq<char>)
    ensures
        digits_value(Seq::new(zeros, |i: int| '0') + digits) == digits_value(digits),
    decreases zeros + digits.len(),
{
    let front = Seq::new(zeros, |i: int| '0');
    let whole = front + digits;
    if digits.len() > 0 {
        lemma_leading_zeros(zeros, digits.drop_last());
        assert(whole.drop_last() =~= front + digits.drop_last());
    } else if zeros > 0 {
        let fewer = (zeros - 1) as nat;
        lemma_leading_zeros(fewer, digits);
        assert(whole.drop_last() =~= Seq::new(fewer, |i: int| '0') + digits);
    } else {
        assert(whole =~= digits);
    }
}

/// What an address comes to where its last colon is at `at`.
proof fn lemma_fault_at(s: Seq<char>, at: int)
    requires
        is_last_colon(s, at),
    ensures
        at == 0 ==> address_fault(s) == Some("empty host"@),
        at > 0 && parse_port(s.skip(at + 1)) is None ==> address_fault(s) == Some(
            "port must be 1-65535"@,
        ),
        at > 0 && parse_port(s.skip(at + 1)) == Some(0nat) ==> address_fault(s) == Some(
            "port must be 1-65535"@,
        ),
        at > 0 && (parse_port(s.skip(at + 1)) matches Some(p) && p > 0) ==> address_fault(s)
            is None,
{
    lemma_last_colon(s, at);
}

/// Every port that is written in digits, with a plus sign or zeros in front or
/// not, is accepted behind any host exactly if it is between 1 and 65535.
pub proof fn ports_are_read_as_numbers(
    addr: &str,
    result: Result<(), Error>,
    host: Seq<char>,
    plus: bool,
    zeros: nat,
    port: nat,
)
    requires
        call_ensures(validate_dial_addr, (addr,), result),
        host.len() > 0,
        addr@ == host + seq![':'] + (if plus {
            seq!['+']
        } else {
            seq![]
        }) + Seq::new(zeros, |i: int| '0') + decimal(port),
    ensures
        1 <= port <= 65535 ==> result is Ok,
        port == 0 || port > 65535 ==> (result matches Err(e) && e@ == (ErrorView::InvalidAddress {
            addr: addr@,
            reason: "port must be 1-65535"@,
        })),
{
    let s = addr@;
    let at = host.len() as int;
    let front = Seq::new(zeros, |i: int| '0');
    let digits = front + decimal(port);
    let sign = if plus {
        seq!['+']
    } else {
        seq![]
    };
    lemma_decimal_digits(port);
    lemma_leading_zeros(zeros, decimal(port));
    assert(s.skip(at + 1) =~= sign + digits);
    assert forall|i: int| 0 <= i < digits.len() implies is_digit(#[trigger] digits[i]) by {
        if i >= zeros {
            assert(digits[i] == decimal(port)[i - zeros]);
        }
    }
    assert(unsigned_part(s.skip(at + 1)) =~= digits) by {
        if !plus {
            assert(is_digit(digits[0]));
        }
    }
    assert forall|j: int| at < j < s.len() implies s[j] != ':' by {
        let k = j - at - 1;
        assert(s[j] == (sign + digits)[k]);
        if k >= sign.len() {
            assert(is_digit(digits[k - sign.len()]));
        }
    }
    assert(s[at] == ':');
    lemma_fault_at(s, at);
}

/// An address without a colon has no port, one that starts with its last colon
/// has no host, and one with anything but digits behind it, one plus sign
/// aside, has no valid port.
pub proof fn malformed_addresses_are_refused(
    addr: &str,
    result: Result<(), Error>,
    at: int,
    odd: int,
)
    requires
        call_ensures(validate_dial_addr, (addr,), result),
    ensures
        (forall|i: int| 0 <= i < addr@.len() ==> addr@[i] != ':') ==> (result matches Err(e)
            && e@ == (ErrorView::InvalidAddress {
            addr: addr@,
            reason: "expected \"host:port\""@,
        })),
        0 <= at < addr@.len() && addr@[at] == ':' && (forall|i: int|
            at < i < addr@.len() ==> addr@[i] != ':') ==> {
            &&& at == 0 ==> (result matches Err(e) && e@ == (ErrorView::InvalidAddress {
                addr: addr@,
                reason: "empty host"@,
            }))
            &&& at > 0 && (at + 1 == addr@.len() || at + 2 == addr@.len() && addr@[at + 1] == '+'
                || at < odd < addr@.len() && !('0' <= addr@[odd] && addr@[odd] <= '9') && !(
            addr@[odd] == '+' && odd == at + 1)) ==> (result matches Err(e) && e@ == (
            ErrorView::InvalidAddress { addr: addr@, reason: "port must be 1-65535"@ }))
        },
{
    let s = addr@;
    if forall|i: int| 0 <= i < s.len() ==> s[i] != ':' {
        assert(!s.contains(':'));
    }
    if is_last_colon(s, at) {
        lemma_fault_at(s, at);
        let port = s.skip(at + 1);
        let digits = unsigned_part(port);
        if at < odd < s.len() && !is_digit(s[odd]) && !(s[odd] == '+' && odd == at + 1) {
            let k = if port[0] == '+' {
                odd - at - 2
            } else {
                odd - at - 1
            };
            assert(digits[k] == s[odd]);
            assert(!is_digit(digits[k]));
        }
    }
}

} // verus!

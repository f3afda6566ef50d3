use crate::model::DeviceAddress;
use vstd::prelude::*;

verus! {

/// The decimal digit character for `d` (0 to 9).
pub open spec fn digit_char(d: int) -> char {
    if d == 0 { '0' }
    else if d == 1 { '1' }
    else if d == 2 { '2' }
    else if d == 3 { '3' }
    else if d == 4 { '4' }
    else if d == 5 { '5' }
    else if d == 6 { '6' }
    else if d == 7 { '7' }
    else if d == 8 { '8' }
    else { '9' }
}

/// A byte written in decimal, without leading zeros.
pub open spec fn decimal(n: u8) -> Seq<char> {
    if n < 10 {
        seq![digit_char(n as int)]
    } else if n < 100 {
        seq![digit_char(n as int / 10), digit_char(n as int % 10)]
    } else {
        seq![digit_char(n as int / 100), digit_char((n as int / 10) % 10), digit_char(n as int % 10)]
    }
}

/// The dotted-decimal text of an address.
pub open spec fn dotted(a: DeviceAddress) -> Seq<char> {
    decimal(a.a) + seq!['.'] + decimal(a.b) + seq!['.'] + decimal(a.c) + seq!['.'] + decimal(a.d)
}

/// The URL of a device's light control endpoint.
pub open spec fn lights_url(a: DeviceAddress) -> Seq<char> {
    "http://"@ + dotted(a) + ":9123/elgato/lights"@
}

fn push_digit(s: &mut String, d: u8)
    requires
        d < 10,
    ensures
        final(s)@ == old(s)@ + seq![digit_char(d as int)],
{
    proof {
        reveal_strlit("0");
        reveal_strlit("1");
        reveal_strlit("2");
        reveal_strlit("3");
        reveal_strlit("4");
        reveal_strlit("5");
        reveal_strlit("6");
        reveal_strlit("7");
        reveal_strlit("8");
        reveal_strlit("9");
    }
    let digit = if d == 0 { "0" }
    else if d == 1 { "1" }
    else if d == 2 { "2" }
    else if d == 3 { "3" }
    else if d == 4 { "4" }
    else if d == 5 { "5" }
    else if d == 6 { "6" }
    else if d == 7 { "7" }
    else if d == 8 { "8" }
    else { "9" };
    s.append(digit);
    assert(digit@ =~= seq![digit_char(d as int)]);
}

fn push_decimal(s: &mut String, n: u8)
    ensures
        final(s)@ == old(s)@ + decimal(n),
{
    let ghost start = s@;
    if n >= 100 {
        push_digit(s, n / 100);
    }
    if n >= 10 {
        push_digit(s, (n / 10) % 10);
    }
    push_digit(s, n % 10);
    assert(s@ =~= start + decimal(n));
}

/// The address in dotted-decimal form, such as `10.0.0.5`.
pub fn address_text(address: DeviceAddress) -> (r: String)
    ensures
        r@ == dotted(address),
{
    proof {
        reveal_strlit(".");
    }
    let mut s = String::new();
    push_decimal(&mut s, address.a);
    s.append(".");
    push_decimal(&mut s, address.b);
    s.append(".");
    push_decimal(&mut s, address.c);
    s.append(".");
    push_decimal(&mut s, address.d);
    assert(s@ =~= dotted(address));
    s
}

/// The URL at which a device's light state is read and written,
/// `http://<address>:9123/elgato/lights`.
pub fn gen_url(address: DeviceAddress) -> (r: String)
    ensures
        r@ == lights_url(address),
{
    let mut s = String::from_str("http://");
    let host = address_text(address);
    s.append(host.as_str());
    s.append(":9123/elgato/lights");
    assert(s@ =~= lights_url(address));
    s
}

} // verus!

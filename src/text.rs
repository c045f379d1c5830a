use vstd::prelude::*;

verus! {

/// Terminal escape that turns the following text green.
pub const GREEN: &'static str = "\x1b[32m";

/// Terminal escape that resets the text colour.
pub const RESET: &'static str = "\x1b[0m";

/// The character of a decimal digit.
pub open spec fn digit_text(d: nat) -> Seq<char> {
    if d == 0 {
        "0"@
    } else if d == 1 {
        "1"@
    } else if d == 2 {
        "2"@
    } else if d == 3 {
        "3"@
    } else if d == 4 {
        "4"@
    } else if d == 5 {
        "5"@
    } else if d == 6 {
        "6"@
    } else if d == 7 {
        "7"@
    } else if d == 8 {
        "8"@
    } else {
        "9"@
    }
}

/// The decimal representation of `n`, without leading zeros.
pub open spec fn decimal(n: nat) -> Seq<char>
    decreases n,
{
    if n < 10 {
        digit_text(n)
    } else {
        decimal(n / 10) + digit_text(n % 10)
    }
}

/// How a listening address is shown: only `:port` when bound to every
/// interface, `ip:port` otherwise.
pub open spec fn address_display(ip: Seq<char>, port: nat) -> Seq<char> {
    if ip == "0.0.0.0"@ || ip == "::"@ {
        ":"@ + decimal(port)
    } else {
        ip + ":"@ + decimal(port)
    }
}

fn digit(d: u64) -> (r: &'static str)
    requires
        d < 10,
    ensures
        r@ == digit_text(d as nat),
{
    if d == 0 {
        "0"
    } else if d == 1 {
        "1"
    } else if d == 2 {
        "2"
    } else if d == 3 {
        "3"
    } else if d == 4 {
        "4"
    } else if d == 5 {
        "5"
    } else if d == 6 {
        "6"
    } else if d == 7 {
        "7"
    } else if d == 8 {
        "8"
    } else {
        "9"
    }
}

/// Appends the decimal representation of `n` to `out`.
pub fn push_decimal(out: &mut String, n: u64)
    ensures
        final(out)@ == old(out)@ + decimal(n as nat),
    decreases n,
{
    if n >= 10 {
        push_decimal(out, n / 10);
    }
    out.append(digit(n % 10));
    assert(final(out)@ == old(out)@ + decimal(n as nat));
}

/// The decimal representation of `n`.
pub fn decimal_string(n: u64) -> (r: String)
    ensures
        r@ == decimal(n as nat),
{
    let mut out = String::new();
    push_decimal(&mut out, n);
    assert(out@ == Seq::<char>::empty() + decimal(n as nat));
    out
}

/// The coloured listening address of the startup banner: `:port` when bound
/// to every interface (`0.0.0.0` or `::`), `ip:port` otherwise.
pub fn print_address(ip: &str, port: u16) -> (r: String)
    ensures
        r@ == GREEN@ + address_display(ip@, port as nat) + RESET@,
{
    let text = String::from_str(ip);
    let any4 = String::from_str("0.0.0.0");
    let any6 = String::from_str("::");
    let mut out = String::from_str(GREEN);
    if !(text == any4 || text == any6) {
        out.append(ip);
    }
    out.append(":");
    push_decimal(&mut out, port as u64);
    out.append(RESET);
    out
}

/// The `address:port` string the listener binds to.
pub fn bind_address(address: &str, port: u64) -> (r: String)
    ensures
        r@ == address@ + ":"@ + decimal(port as nat),
{
    let mut out = String::from_str(address);
    out.append(":");
    push_decimal(&mut out, port);
    out
}

/// The title of the documentation page of an API.
pub fn docs_title(title: &str) -> (r: String)
    ensures
        r@ == title@ + " - Scalar"@,
{
    let mut out = String::from_str(title);
    out.append(" - Scalar");
    out
}

} // verus!

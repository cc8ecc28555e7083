//! Address checks, argument checks, port parsing, socket endpoints and the
//! texts of failed network steps, shared by the client, server and proxy.

use vstd::prelude::*;

verus! {

// ---------------------------------------------------------------------------
// IP addresses
// ---------------------------------------------------------------------------

/// An IP address: four octets, or eight 16-bit segments.
#[derive(Clone, Copy)]
pub enum IpAddress {
    V4([u8; 4]),
    V6([u16; 8]),
}

/// Multicast: `224.0.0.0/4`, or `ff00::/8`.
pub open spec fn ip_is_multicast(ip: IpAddress) -> bool {
    match ip {
        IpAddress::V4(o) => 224 <= o@[0] && o@[0] <= 239,
        IpAddress::V6(s) => s@[0] >= 0xff00,
    }
}

/// Unspecified: `0.0.0.0`, or `::`.
pub open spec fn ip_is_unspecified(ip: IpAddress) -> bool {
    match ip {
        IpAddress::V4(o) => o@[0] == 0 && o@[1] == 0 && o@[2] == 0 && o@[3] == 0,
        IpAddress::V6(s) => s@[0] == 0 && s@[1] == 0 && s@[2] == 0 && s@[3] == 0 && s@[4] == 0
            && s@[5] == 0 && s@[6] == 0 && s@[7] == 0,
    }
}

/// An IPv4 address outside the loopback range `127.0.0.0/8`.
pub open spec fn is_routable_v4(ip: IpAddress) -> bool {
    ip matches IpAddress::V4(o) && o@[0] != 127
}

impl IpAddress {
    pub fn is_multicast(&self) -> (b: bool)
        ensures
            b == ip_is_multicast(*self),
    {
        match self {
            IpAddress::V4(o) => 224 <= o[0] && o[0] <= 239,
            IpAddress::V6(s) => s[0] >= 0xff00,
        }
    }

    pub fn is_unspecified(&self) -> (b: bool)
        ensures
            b == ip_is_unspecified(*self),
    {
        match self {
            IpAddress::V4(o) => o[0] == 0 && o[1] == 0 && o[2] == 0 && o[3] == 0,
            IpAddress::V6(s) => s[0] == 0 && s[1] == 0 && s[2] == 0 && s[3] == 0 && s[4] == 0
                && s[5] == 0 && s[6] == 0 && s[7] == 0,
        }
    }
}

/// What is wrong with an address given on the command line, if anything:
/// `parsed` is the text read as an IP address, `None` where it is not one.
pub open spec fn ip_check_error(parsed: Option<IpAddress>) -> Option<Seq<char>> {
    match parsed {
        None => Some("Invalid IP address"@),
        Some(ip) => if ip_is_multicast(ip) || ip_is_unspecified(ip) {
            Some("IP address not allowed for use"@)
        } else {
            None
        },
    }
}

/// Checks an address given on the command line: `parsed` is the text read as
/// an IP address, `None` where it is not one. Multicast and unspecified
/// addresses are refused.
pub fn check_valid_ip(parsed: &Option<IpAddress>) -> (r: Result<(), String>)
    ensures
        match ip_check_error(*parsed) {
            None => r is Ok,
            Some(m) => r matches Err(e) && e@ == m,
        },
{
    match parsed {
        None => Err(String::from_str("Invalid IP address")),
        Some(ip) => {
            if ip.is_multicast() || ip.is_unspecified() {
                Err(String::from_str("IP address not allowed for use"))
            } else {
                Ok(())
            }
        },
    }
}

/// The position of the first IPv4 address outside the loopback range.
pub fn first_routable_v4(interfaces: &Vec<IpAddress>) -> (r: Option<usize>)
    ensures
        r matches Some(i) ==> i < interfaces@.len() && is_routable_v4(interfaces@[i as int])
            && forall|j: int| 0 <= j < i ==> !is_routable_v4(#[trigger] interfaces@[j]),
        r is None ==> forall|j: int|
            0 <= j < interfaces@.len() ==> !is_routable_v4(#[trigger] interfaces@[j]),
{
    let mut i: usize = 0;
    while i < interfaces.len()
        invariant
            i <= interfaces@.len(),
            forall|j: int| 0 <= j < i ==> !is_routable_v4(#[trigger] interfaces@[j]),
        decreases interfaces.len() - i,
    {
        match &interfaces[i] {
            IpAddress::V4(o) => {
                if o[0] != 127 {
                    return Some(i);
                }
            },
            IpAddress::V6(_) => {},
        }
        i += 1;
    }
    None
}

/// Picks the host's address among the addresses of its interfaces: the
/// first IPv4 address outside the loopback range.
pub fn find_address(interfaces: &Vec<IpAddress>) -> (r: Option<[u8; 4]>)
    ensures
        r matches Some(o) ==> exists|i: int|
            0 <= i < interfaces@.len() && #[trigger] interfaces@[i] == IpAddress::V4(o) && o@[0]
                != 127 && forall|j: int| 0 <= j < i ==> !is_routable_v4(#[trigger] interfaces@[j]),
        r is None ==> forall|j: int|
            0 <= j < interfaces@.len() ==> !is_routable_v4(#[trigger] interfaces@[j]),
{
    match first_routable_v4(interfaces) {
        Some(i) => match &interfaces[i] {
            IpAddress::V4(o) => {
                assert(interfaces@[i as int] == IpAddress::V4(*o));
                Some(*o)
            },
            IpAddress::V6(_) => None,
        },
        None => None,
    }
}

// ---------------------------------------------------------------------------
// Command-line argument counts
// ---------------------------------------------------------------------------

/// The client takes four arguments after its name.
pub fn client_arg_validation(args: &Vec<String>) -> (r: Result<(), String>)
    ensures
        r is Ok <==> args@.len() == 5,
        r matches Err(e) ==> e@ == "[CLIENT] Usage: <target-ip> <target-port> <timeout> <max-retries>"@,
{
    if args.len() != 5 {
        return Err(
            String::from_str("[CLIENT] Usage: <target-ip> <target-port> <timeout> <max-retries>"),
        );
    }
    Ok(())
}

/// The server takes two arguments after its name.
pub fn server_arg_validation(args: &Vec<String>) -> (r: Result<(), String>)
    ensures
        r is Ok <==> args@.len() == 3,
        r matches Err(e) ==> e@ == "Usage: <listen-ip> <listen-port>"@,
{
    if args.len() != 3 {
        Err(String::from_str("Usage: <listen-ip> <listen-port>"))
    } else {
        Ok(())
    }
}

// ---------------------------------------------------------------------------
// Ports
// ---------------------------------------------------------------------------

pub open spec fn is_digit(c: char) -> bool {
    '0' <= c && c <= '9'
}

pub open spec fn all_digits(d: Seq<char>) -> bool {
    forall|i: int| 0 <= i < d.len() ==> is_digit(#[trigger] d[i])
}

/// The decimal value of a sequence of digits.
pub open spec fn digits_value(d: Seq<char>) -> nat
    decreases d.len(),
{
    if d.len() == 0 {
        0
    } else {
        digits_value(d.drop_last()) * 10 + (d.last() as nat - 48) as nat
    }
}

/// The digits of a port number: the text without one leading `'+'`.
pub open spec fn port_digits(s: Seq<char>) -> Seq<char> {
    if s.len() > 0 && s[0] == '+' {
        s.drop_first()
    } else {
        s
    }
}

/// A port number as `u16`'s `FromStr` reads it: an optional `'+'`, then at
/// least one decimal digit, with a value that fits in 16 bits.
pub open spec fn port_value(s: Seq<char>) -> Option<u16> {
    let d = port_digits(s);
    if d.len() > 0 && all_digits(d) && digits_value(d) <= 0xffff {
        Some(digits_value(d) as u16)
    } else {
        None
    }
}

proof fn lemma_digits_step(d: Seq<char>, i: int)
    requires
        0 <= i < d.len(),
    ensures
        digits_value(d.take(i + 1)) == digits_value(d.take(i)) * 10 + (d[i] as nat - 48) as nat,
{
    assert(d.take(i + 1).drop_last() =~= d.take(i));
}

proof fn lemma_digits_monotone(d: Seq<char>, i: int, j: int)
    requires
        0 <= i <= j <= d.len(),
        all_digits(d),
    ensures
        digits_value(d.take(i)) <= digits_value(d.take(j)),
    decreases j - i,
{
    if i < j {
        lemma_digits_step(d, j - 1);
        assert(is_digit(d[j - 1]));
        lemma_digits_monotone(d, i, j - 1);
    }
}

/// Reads a port number; the error is the text the programs report.
pub fn parse_port(text: &str) -> (r: Result<u16, String>)
    ensures
        port_value(text@) matches Some(p) ==> r == Ok::<u16, String>(p),
        port_value(text@) is None ==> (r matches Err(e) && e@ == "[SERVER] Invalid port"@),
{
    let chars = crate::text::chars_of(text);
    let ghost d = port_digits(text@);
    let start: usize = if chars.len() > 0 && chars[0] == '+' {
        1
    } else {
        0
    };
    assert(d =~= chars@.skip(start as int));
    if start == chars.len() {
        return Err(String::from_str("[SERVER] Invalid port"));
    }
    let mut value: u32 = 0;
    let mut i: usize = start;
    while i < chars.len()
        invariant
            start <= i <= chars@.len(),
            chars@ == text@,
            d == chars@.skip(start as int),
            d == port_digits(text@),
            all_digits(d.take(i - start)),
            value == digits_value(d.take(i - start)),
            value <= 0xffff,
        decreases chars.len() - i,
    {
        let c = chars[i];
        assert(d[i - start] == c);
        if c < '0' || '9' < c {
            assert(!is_digit(d[i - start]));
            return Err(String::from_str("[SERVER] Invalid port"));
        }
        proof {
            lemma_digits_step(d, i - start);
        }
        let next = value * 10 + (c as u32 - 48);
        assert(all_digits(d.take(i - start + 1)));
        if next > 0xffff {
            proof {
                if all_digits(d) {
                    lemma_digits_monotone(d, i - start + 1, d.len() as int);
                    assert(d.take(d.len() as int) =~= d);
                }
            }
            return Err(String::from_str("[SERVER] Invalid port"));
        }
        value = next;
        i += 1;
    }
    assert(d.take(d.len() as int) =~= d);
    Ok(value as u16)
}

// ---------------------------------------------------------------------------
// Socket endpoints
// ---------------------------------------------------------------------------

/// The address family of a socket.
#[derive(Clone, Copy)]
pub enum AddressFamily {
    Ipv4,
    Ipv6,
}

/// Where a socket connects or binds: family, address, port, and for IPv6
/// the flow information and scope id.
#[derive(Clone, Copy)]
pub struct SocketEndpoint {
    pub family: AddressFamily,
    pub ip: IpAddress,
    pub port: u16,
    pub flowinfo: u32,
    pub scope_id: u32,
}

/// The endpoint for an address and a port: the family follows the address,
/// and an IPv6 endpoint has no flow information and scope id 0.
pub fn socket_endpoint(ip: IpAddress, port: u16) -> (e: SocketEndpoint)
    ensures
        e.ip == ip,
        e.port == port,
        ip is V4 ==> e.family is Ipv4,
        ip is V6 ==> e.family is Ipv6,
        e.flowinfo == 0,
        e.scope_id == 0,
{
    let family = match ip {
        IpAddress::V4(_) => AddressFamily::Ipv4,
        IpAddress::V6(_) => AddressFamily::Ipv6,
    };
    SocketEndpoint { family, ip, port, flowinfo: 0, scope_id: 0 }
}

// ---------------------------------------------------------------------------
// Failed network steps
// ---------------------------------------------------------------------------

/// A network step that failed; where the system gave a reason, its text.
pub enum IoFailure {
    ClientSocketCreation,
    ClientConnect,
    ClientSerialize,
    ClientSend,
    NoAck,
    ServerSocketCreation(String),
    ServerBind(String),
    ServerAckSend(String),
    ProxyClientBind(String),
    ProxyServerBind(String),
    ProxyServerConnect(String),
}

/// The report of a failed step.
pub open spec fn failure_text(f: IoFailure) -> Seq<char> {
    match f {
        IoFailure::ClientSocketCreation => "[CLIENT] Socket Creation Error"@,
        IoFailure::ClientConnect => "[CLIENT] Error Connecting to Server"@,
        IoFailure::ClientSerialize => "[CLIENT] could not serialize message"@,
        IoFailure::ClientSend => "[CLIENT] could not send message"@,
        IoFailure::NoAck => "[CLIENT] Did not receive ACK. Continuing Program"@,
        IoFailure::ServerSocketCreation(e) => "[SERVER] Socket creation failed: "@ + e@,
        IoFailure::ServerBind(e) => "[SERVER] Bind failed: "@ + e@,
        IoFailure::ServerAckSend(e) => "[SERVER] Failed to send ACK: "@ + e@,
        IoFailure::ProxyClientBind(e) => "[PROXY] Error binding proxy socket for client: "@ + e@,
        IoFailure::ProxyServerBind(e) => "[PROXY] Error binding proxy socket for server: "@ + e@,
        IoFailure::ProxyServerConnect(e) => "[PROXY] Could not connect to server: "@ + e@,
    }
}

fn prefixed(prefix: &str, detail: &String) -> (s: String)
    ensures
        s@ == prefix@ + detail@,
{
    let mut s = String::from_str(prefix);
    s.append(detail.as_str());
    s
}

impl IoFailure {
    pub fn describe(&self) -> (s: String)
        ensures
            s@ == failure_text(*self),
    {
        match self {
            IoFailure::ClientSocketCreation => String::from_str("[CLIENT] Socket Creation Error"),
            IoFailure::ClientConnect => String::from_str("[CLIENT] Error Connecting to Server"),
            IoFailure::ClientSerialize => String::from_str("[CLIENT] could not serialize message"),
            IoFailure::ClientSend => String::from_str("[CLIENT] could not send message"),
            IoFailure::NoAck => String::from_str("[CLIENT] Did not receive ACK. Continuing Program"),
            IoFailure::ServerSocketCreation(e) => prefixed("[SERVER] Socket creation failed: ", e),
            IoFailure::ServerBind(e) => prefixed("[SERVER] Bind failed: ", e),
            IoFailure::ServerAckSend(e) => prefixed("[SERVER] Failed to send ACK: ", e),
            IoFailure::ProxyClientBind(e) => prefixed(
                "[PROXY] Error binding proxy socket for client: ",
                e,
            ),
            IoFailure::ProxyServerBind(e) => prefixed(
                "[PROXY] Error binding proxy socket for server: ",
                e,
            ),
            IoFailure::ProxyServerConnect(e) => prefixed("[PROXY] Could not connect to server: ", e),
        }
    }
}

// ---------------------------------------------------------------------------
// Laws of the address checks and of port parsing
// ---------------------------------------------------------------------------

/// An IPv4 address given on the command line is refused exactly when it is
/// in the multicast block `224.0.0.0/4` (first octet 224 to 239) or is
/// `0.0.0.0`, and the refusal says it is not allowed.
pub proof fn law_ipv4_refusals(o: [u8; 4])
    ensures
        ip_check_error(Some(IpAddress::V4(o))) is Some <==> (224 <= o@[0] <= 239 || (o@[0] == 0
            && o@[1] == 0 && o@[2] == 0 && o@[3] == 0)),
        ip_check_error(Some(IpAddress::V4(o))) is Some ==> ip_check_error(Some(IpAddress::V4(o)))
            == Some("IP address not allowed for use"@),
{
}

/// An IPv6 address given on the command line is refused exactly when it is
/// in the multicast block `ff00::/8` or is `::`, and the refusal says it is
/// not allowed.
pub proof fn law_ipv6_refusals(s: [u16; 8])
    ensures
        ip_check_error(Some(IpAddress::V6(s))) is Some <==> (s@[0] >= 0xff00 || (s@[0] == 0
            && s@[1] == 0 && s@[2] == 0 && s@[3] == 0 && s@[4] == 0 && s@[5] == 0 && s@[6] == 0
            && s@[7] == 0)),
        ip_check_error(Some(IpAddress::V6(s))) is Some ==> ip_check_error(Some(IpAddress::V6(s)))
            == Some("IP address not allowed for use"@),
{
}

/// Text that is not an address is refused as invalid.
pub proof fn law_unparsed_address_refused()
    ensures
        ip_check_error(None) == Some("Invalid IP address"@),
{
}

/// The host's address is chosen among IPv4 addresses outside the loopback
/// block `127.0.0.0/8`, and any such address counts: an address is a
/// candidate exactly when it is IPv4 with a first octet other than 127.
pub proof fn law_routable_is_ipv4_off_loopback(ip: IpAddress)
    ensures
        is_routable_v4(ip) <==> (ip is V4 && ip->V4_0@[0] != 127),
{
}

/// If a list of interface addresses holds an IPv4 address outside
/// `127.0.0.0/8`, the first such address is the one chosen: no earlier
/// entry is a candidate and it is.
pub proof fn law_first_ipv4_off_loopback_is_candidate(ips: Seq<IpAddress>, i: int)
    requires
        0 <= i < ips.len(),
        ips[i] is V4 && ips[i]->V4_0@[0] != 127,
        forall|j: int| 0 <= j < i ==> !(ips[j] is V4 && #[trigger] ips[j]->V4_0@[0] != 127),
    ensures
        is_routable_v4(ips[i]),
        forall|j: int| 0 <= j < i ==> !is_routable_v4(#[trigger] ips[j]),
{
    assert forall|j: int| 0 <= j < i implies !is_routable_v4(#[trigger] ips[j]) by {
        assert(!(ips[j] is V4 && ips[j]->V4_0@[0] != 127));
    }
}

/// The decimal text of a number, without leading zeros.
pub open spec fn decimal_text(n: nat) -> Seq<char>
    decreases n,
{
    if n < 10 {
        seq![(n + 48) as char]
    } else {
        decimal_text(n / 10).push(((n % 10) + 48) as char)
    }
}

proof fn lemma_decimal_text(n: nat)
    ensures
        decimal_text(n).len() > 0,
        decimal_text(n)[0] != '+',
        all_digits(decimal_text(n)),
        digits_value(decimal_text(n)) == n,
    decreases n,
{
    if n < 10 {
        let d = decimal_text(n);
        assert(d[0] as nat == n + 48);
        assert(d.drop_last() =~= Seq::<char>::empty());
        assert(digits_value(d) == digits_value(d.drop_last()) * 10 + (d.last() as nat - 48) as nat);
    } else {
        lemma_decimal_text(n / 10);
        let d = decimal_text(n);
        assert(d.drop_last() =~= decimal_text(n / 10));
        assert(d.last() as nat == n % 10 + 48);
        assert(n == (n / 10) * 10 + n % 10);
        assert(digits_value(d) == digits_value(d.drop_last()) * 10 + (d.last() as nat - 48) as nat);
        assert forall|i: int| 0 <= i < d.len() implies is_digit(#[trigger] d[i]) by {
            if i < d.len() - 1 {
                assert(d[i] == decimal_text(n / 10)[i]);
            }
        }
    }
}

/// Every port number reads back from its decimal text, with or without a
/// leading `'+'`, as `u16` parsing does: every decimal digit `0` to `9` is
/// accepted.
pub proof fn law_port_decimal_round_trip(n: u16)
    ensures
        port_value(decimal_text(n as nat)) == Some(n),
        port_value(seq!['+'] + decimal_text(n as nat)) == Some(n),
{
    lemma_decimal_text(n as nat);
    assert((seq!['+'] + decimal_text(n as nat)).drop_first() =~= decimal_text(n as nat));
}

} // verus!

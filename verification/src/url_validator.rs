//! Admission of target URLs: HTTPS only, a host name present, and no
//! private or reserved address behind it (SSRF protection).

use vstd::prelude::*;
use crate::error::AppError;
use crate::text::{decimal, digit, digit_char, push_char, push_decimal, push_str, trim_spec, str_trim};

verus! {

/// Most URLs that one batch may hold.
pub const MAX_BATCH_URLS: usize = 10;

/// An IP address: IPv4 as its 32 bits, IPv6 as its 128 bits, most
/// significant first.
#[derive(Debug, Clone, Copy, PartialEq, Eq, Structural)]
pub enum IpAddress {
    V4(u32),
    V6(u128),
}

impl IpAddress {
    /// The IPv4 address `a.b.c.d`.
    pub fn v4(a: u8, b: u8, c: u8, d: u8) -> (r: IpAddress)
        ensures
            r matches IpAddress::V4(x) && x == a * 0x1000000 + b * 0x10000 + c * 0x100 + d,
    {
        IpAddress::V4((a as u32) * 0x1000000 + (b as u32) * 0x10000 + (c as u32) * 0x100 + (d as u32))
    }

    /// The IPv6 address with the given eight 16-bit segments.
    pub fn v6(s0: u16, s1: u16, s2: u16, s3: u16, s4: u16, s5: u16, s6: u16, s7: u16) -> (r: IpAddress)
        ensures
            r matches IpAddress::V6(x) && x == s0 * 0x1_0000_0000_0000_0000_0000_0000_0000 + s1
                * 0x1_0000_0000_0000_0000_0000_0000 + s2 * 0x1_0000_0000_0000_0000_0000 + s3
                * 0x1_0000_0000_0000_0000 + s4 * 0x1_0000_0000_0000 + s5 * 0x1_0000_0000 + s6 * 0x1_0000 + s7,
    {
        IpAddress::V6(
            (s0 as u128) * 0x1_0000_0000_0000_0000_0000_0000_0000u128 + (s1 as u128) * 0x1_0000_0000_0000_0000_0000_0000u128
                + (s2 as u128) * 0x1_0000_0000_0000_0000_0000u128 + (s3 as u128) * 0x1_0000_0000_0000_0000u128
                + (s4 as u128) * 0x1_0000_0000_0000u128 + (s5 as u128) * 0x1_0000_0000u128
                + (s6 as u128) * 0x1_0000u128 + (s7 as u128),
        )
    }
}

/// A blocked network: an address and the number of leading bits that
/// identify the network.
pub struct BlockedNetwork {
    pub addr: IpAddress,
    pub prefix_len: u8,
}

/// The leading `prefix_len` bits of the two addresses agree, and they are
/// of the same family.
pub open spec fn same_prefix(addr: IpAddress, prefix_len: nat, ip: IpAddress) -> bool {
    match (addr, ip) {
        (IpAddress::V4(net), IpAddress::V4(check)) => prefix_len == 0 || (net >> ((32 - prefix_len) as u32)) == (
        check >> ((32 - prefix_len) as u32)),
        (IpAddress::V6(net), IpAddress::V6(check)) => prefix_len == 0 || (net >> ((128 - prefix_len) as u128)) == (
        check >> ((128 - prefix_len) as u128)),
        _ => false,
    }
}

#[verifier::rlimit(100)]
proof fn lemma_shr_xor(a: u128, b: u128, s: u128)
    by (bit_vector)
    requires
        s < 128,
    ensures
        (a >> s) ^ (b >> s) == (a ^ b) >> s,
{
}

impl BlockedNetwork {
    /// The prefix length fits the family of `ip` whenever the families
    /// agree (at most 32 bits for IPv4, 128 for IPv6).
    pub open spec fn prefix_fits(&self, ip: IpAddress) -> bool {
        match (self.addr, ip) {
            (IpAddress::V4(_), IpAddress::V4(_)) => self.prefix_len <= 32,
            (IpAddress::V6(_), IpAddress::V6(_)) => self.prefix_len <= 128,
            _ => true,
        }
    }

    /// The prefix length fits the family of the network's address.
    pub open spec fn well_formed(&self) -> bool {
        match self.addr {
            IpAddress::V4(_) => self.prefix_len <= 32,
            IpAddress::V6(_) => self.prefix_len <= 128,
        }
    }

    pub open spec fn spec_contains(&self, ip: IpAddress) -> bool {
        same_prefix(self.addr, self.prefix_len as nat, ip)
    }

    /// Whether `ip` lies in this network: same family and the same leading
    /// `prefix_len` bits.
    pub fn contains(&self, ip: IpAddress) -> (r: bool)
        requires
            self.prefix_fits(ip),
        ensures
            r == self.spec_contains(ip),
    {
        match (self.addr, ip) {
            (IpAddress::V4(net), IpAddress::V4(check)) => {
                if self.prefix_len == 0 {
                    true
                } else {
                    let shift: u32 = (32 - self.prefix_len) as u32;
                    let mask: u32 = !0u32 << shift;
                    assert(((net & (!0u32 << shift)) == (check & (!0u32 << shift))) == ((net >> shift) == (
                    check >> shift))) by (bit_vector)
                        requires
                            shift < 32,
                    ;
                    (net & mask) == (check & mask)
                }
            },
            (IpAddress::V6(net), IpAddress::V6(check)) => {
                if self.prefix_len == 0 {
                    true
                } else {
                    let shift: u128 = (128 - self.prefix_len) as u128;
                    let mask: u128 = !0u128 << shift;
                    let x: u128 = net ^ check;
                    assert(((net & mask) == (check & mask)) == ((x & mask) == 0)) by (bit_vector)
                        requires
                            x == net ^ check,
                    ;
                    let ghost hi_net = net >> shift;
                    let ghost hi_check = check >> shift;
                    proof {
                        lemma_shr_xor(net, check, shift);
                    }
                    assert((hi_net == hi_check) == ((hi_net ^ hi_check) == 0)) by (bit_vector);
                    assert(((x & mask) == 0) == ((x >> shift) == 0)) by (bit_vector)
                        requires
                            shift < 128,
                            mask == !0u128 << shift,
                    ;
                    (net & mask) == (check & mask)
                }
            },
            _ => false,
        }
    }
}

} // verus!

verus! {

// ============================================================
//  ADDRESS TEXT
// ============================================================

/// The lowercase hexadecimal digit for a value below sixteen.
pub open spec fn hex_digit(d: nat) -> char {
    if d < 10 {
        digit_char(d)
    } else if d == 10 { 'a' }
    else if d == 11 { 'b' }
    else if d == 12 { 'c' }
    else if d == 13 { 'd' }
    else if d == 14 { 'e' }
    else { 'f' }
}

/// Lowercase hexadecimal notation without leading zeros (`{:x}`).
pub open spec fn hex(n: nat) -> Seq<char>
    decreases n,
{
    if n < 16 {
        seq![hex_digit(n)]
    } else {
        hex(n / 16).push(hex_digit(n % 16))
    }
}

/// The four octets of an IPv4 address in dotted decimal.
pub open spec fn ipv4_text(v: u32) -> Seq<char> {
    decimal(((v >> 24u32) & 0xff) as nat) + seq!['.'] + decimal(((v >> 16u32) & 0xff) as nat) + seq!['.']
        + decimal(((v >> 8u32) & 0xff) as nat) + seq!['.'] + decimal((v & 0xff) as nat)
}

/// The `i`-th 16-bit segment of an IPv6 address, most significant first.
pub open spec fn segment(v: u128, i: int) -> u16 {
    ((v >> ((112 - 16 * i) as u128)) & 0xffff) as u16
}

pub open spec fn segments(v: u128) -> Seq<u16> {
    Seq::new(8, |i: int| segment(v, i))
}

/// Segments in hexadecimal, separated by colons.
pub open spec fn colon_hex(s: Seq<u16>) -> Seq<char>
    decreases s.len(),
{
    if s.len() == 0 {
        Seq::empty()
    } else if s.len() == 1 {
        hex(s[0] as nat)
    } else {
        colon_hex(s.drop_last()) + seq![':'] + hex(s.last() as nat)
    }
}

/// Scanning the segments left to right: the first longest run of zero
/// segments so far and the run in progress, each as (start, length).
pub open spec fn zero_runs(s: Seq<u16>) -> ((int, int), (int, int))
    decreases s.len(),
{
    if s.len() == 0 {
        ((0, 0), (0, 0))
    } else {
        let (longest, current) = zero_runs(s.drop_last());
        if s.last() == 0 {
            let cur = if current.1 == 0 { (s.len() - 1, 1int) } else { (current.0, current.1 + 1) };
            (if cur.1 > longest.1 { cur } else { longest }, cur)
        } else {
            (longest, (0int, 0int))
        }
    }
}

/// The IPv6 address is an IPv4-mapped one (`::ffff:a.b.c.d`).
pub open spec fn is_ipv4_mapped(v: u128) -> bool {
    let s = segments(v);
    s[0] == 0 && s[1] == 0 && s[2] == 0 && s[3] == 0 && s[4] == 0 && s[5] == 0xffff
}

/// How `Ipv6Addr` displays: IPv4-mapped addresses as `::ffff:a.b.c.d`,
/// otherwise hexadecimal segments with the first longest run of two or
/// more zero segments written as `::`.
pub open spec fn ipv6_text(v: u128) -> Seq<char> {
    let s = segments(v);
    if is_ipv4_mapped(v) {
        "::ffff:"@ + ipv4_text((v & 0xffff_ffff) as u32)
    } else {
        let z = zero_runs(s).0;
        if z.1 > 1 {
            colon_hex(s.subrange(0, z.0)) + "::"@ + colon_hex(s.subrange(z.0 + z.1, 8))
        } else {
            colon_hex(s)
        }
    }
}

pub open spec fn ip_text(ip: IpAddress) -> Seq<char> {
    match ip {
        IpAddress::V4(v) => ipv4_text(v),
        IpAddress::V6(v) => ipv6_text(v),
    }
}

fn hex_digit_char(d: u16) -> (c: char)
    requires
        d < 16,
    ensures
        c == hex_digit(d as nat),
{
    if d < 10 {
        digit(d as u128)
    } else if d == 10 { 'a' }
    else if d == 11 { 'b' }
    else if d == 12 { 'c' }
    else if d == 13 { 'd' }
    else if d == 14 { 'e' }
    else { 'f' }
}

/// Appends the hexadecimal notation of `n`.
fn push_hex(out: &mut String, n: u16)
    ensures
        final(out)@ == old(out)@ + hex(n as nat),
    decreases n,
{
    if n >= 16 {
        push_hex(out, n / 16);
        push_char(out, hex_digit_char(n % 16));
        assert(hex(n as nat) == hex((n / 16) as nat).push(hex_digit((n % 16) as nat)));
    } else {
        push_char(out, hex_digit_char(n));
    }
}

/// Appends the segments `s[from..to]` in hexadecimal, separated by colons.
fn push_colon_hex(out: &mut String, s: &Vec<u16>, from: usize, to: usize)
    requires
        from <= to <= s.len(),
    ensures
        final(out)@ == old(out)@ + colon_hex(s@.subrange(from as int, to as int)),
{
    let ghost start = out@;
    let mut i = from;
    while i < to
        invariant
            from <= i <= to <= s.len(),
            out@ == start + colon_hex(s@.subrange(from as int, i as int)),
        decreases to - i,
    {
        let ghost part = s@.subrange(from as int, i + 1);
        assert(part.drop_last() =~= s@.subrange(from as int, i as int));
        if i > from {
            push_char(out, ':');
        } else {
            assert(s@.subrange(from as int, i as int) =~= Seq::<u16>::empty());
        }
        push_hex(out, s[i]);
        assert(out@ =~= start + colon_hex(part));
        i = i + 1;
    }
}

/// Appends the dotted-decimal text of an IPv4 address.
fn push_ipv4(out: &mut String, v: u32)
    ensures
        final(out)@ == old(out)@ + ipv4_text(v),
{
    let ghost start = out@;
    push_decimal(out, ((v >> 24u32) & 0xff) as u128);
    push_char(out, '.');
    push_decimal(out, ((v >> 16u32) & 0xff) as u128);
    push_char(out, '.');
    push_decimal(out, ((v >> 8u32) & 0xff) as u128);
    push_char(out, '.');
    push_decimal(out, (v & 0xff) as u128);
    assert(out@ =~= start + ipv4_text(v));
}

/// The eight segments of an IPv6 address.
fn ipv6_segments(v: u128) -> (r: Vec<u16>)
    ensures
        r@ == segments(v),
{
    let mut r: Vec<u16> = Vec::new();
    let mut i: u128 = 0;
    while i < 8
        invariant
            i <= 8,
            r@.len() == i,
            forall|k: int| 0 <= k < i ==> r@[k] == segment(v, k),
        decreases 8 - i,
    {
        let shift: u128 = 112 - 16 * i;
        let seg = (v >> shift) & 0xffff;
        assert(seg <= 0xffff) by (bit_vector)
            requires
                seg == (v >> shift) & 0xffff,
        ;
        r.push(seg as u16);
        i = i + 1;
    }
    assert(r@ =~= segments(v));
    r
}

/// Appends the text of an IPv6 address, as `Ipv6Addr` displays it.
fn push_ipv6(out: &mut String, v: u128)
    ensures
        final(out)@ == old(out)@ + ipv6_text(v),
{
    let s = ipv6_segments(v);
    if s[0] == 0 && s[1] == 0 && s[2] == 0 && s[3] == 0 && s[4] == 0 && s[5] == 0xffff {
        push_str(out, "::ffff:");
        let low = v & 0xffff_ffff;
        assert(low <= 0xffff_ffff) by (bit_vector)
            requires
                low == v & 0xffff_ffff,
        ;
        push_ipv4(out, low as u32);
        return;
    }
    let mut longest_start: usize = 0;
    let mut longest_len: usize = 0;
    let mut current_start: usize = 0;
    let mut current_len: usize = 0;
    let mut i: usize = 0;
    while i < 8
        invariant
            i <= 8,
            s@ == segments(v),
            s@.len() == 8,
            zero_runs(s@.take(i as int)) == ((longest_start as int, longest_len as int), (
            current_start as int, current_len as int)),
            longest_len <= i,
            current_len <= i,
            longest_start + longest_len <= i,
            current_start + current_len <= i,
        decreases 8 - i,
    {
        assert(s@.take(i + 1).drop_last() =~= s@.take(i as int));
        assert(s@.take(i + 1).last() == s@[i as int]);
        if s[i] == 0 {
            if current_len == 0 {
                current_start = i;
            }
            current_len = current_len + 1;
            if current_len > longest_len {
                longest_start = current_start;
                longest_len = current_len;
            }
        } else {
            current_start = 0;
            current_len = 0;
        }
        i = i + 1;
    }
    assert(s@.take(8) =~= s@);
    if longest_len > 1 {
        push_colon_hex(out, &s, 0, longest_start);
        push_str(out, "::");
        push_colon_hex(out, &s, longest_start + longest_len, 8);
    } else {
        assert(s@.subrange(0, 8) =~= s@);
        push_colon_hex(out, &s, 0, 8);
    }
}

/// The text of an address, as `IpAddr` displays it.
pub fn ip_to_text(ip: IpAddress) -> (r: String)
    ensures
        r@ == ip_text(ip),
{
    let mut out = String::new();
    match ip {
        IpAddress::V4(v) => push_ipv4(&mut out, v),
        IpAddress::V6(v) => push_ipv6(&mut out, v),
    }
    out
}

} // verus!

verus! {

// ============================================================
//  BLOCKED NETWORKS
// ============================================================

/// Loopback, RFC 1918 private ranges, link-local, CGNAT, IPv6 loopback,
/// unique-local and link-local, and "this network" 0.0.0.0/8: each as
/// (address, prefix length).
pub open spec fn blocked_table() -> Seq<(IpAddress, nat)> {
    seq![
        (IpAddress::V4(0x7f00_0000), 8),
        (IpAddress::V4(0x0a00_0000), 8),
        (IpAddress::V4(0xac10_0000), 12),
        (IpAddress::V4(0xc0a8_0000), 16),
        (IpAddress::V4(0xa9fe_0000), 16),
        (IpAddress::V4(0x6440_0000), 10),
        (IpAddress::V6(1), 128),
        (IpAddress::V6(0xfc00_0000_0000_0000_0000_0000_0000_0000), 7),
        (IpAddress::V6(0xfe80_0000_0000_0000_0000_0000_0000_0000), 10),
        (IpAddress::V4(0), 8),
    ]
}

/// The address lies in one of the blocked networks.
pub open spec fn is_blocked(ip: IpAddress) -> bool {
    exists|i: int| 0 <= i < blocked_table().len() && same_prefix(blocked_table()[i].0, blocked_table()[i].1, ip)
}

pub open spec fn networks_view(v: Seq<BlockedNetwork>) -> Seq<(IpAddress, nat)> {
    v.map_values(|n: BlockedNetwork| (n.addr, n.prefix_len as nat))
}

/// The networks that no target may resolve to.
pub fn blocked_networks() -> (r: Vec<BlockedNetwork>)
    ensures
        networks_view(r@) == blocked_table(),
        forall|i: int| 0 <= i < r@.len() ==> (#[trigger] r@[i]).well_formed(),
{
    let r = vec![
        BlockedNetwork { addr: IpAddress::v4(127, 0, 0, 0), prefix_len: 8 },
        BlockedNetwork { addr: IpAddress::v4(10, 0, 0, 0), prefix_len: 8 },
        BlockedNetwork { addr: IpAddress::v4(172, 16, 0, 0), prefix_len: 12 },
        BlockedNetwork { addr: IpAddress::v4(192, 168, 0, 0), prefix_len: 16 },
        BlockedNetwork { addr: IpAddress::v4(169, 254, 0, 0), prefix_len: 16 },
        BlockedNetwork { addr: IpAddress::v4(100, 64, 0, 0), prefix_len: 10 },
        BlockedNetwork { addr: IpAddress::v6(0, 0, 0, 0, 0, 0, 0, 1), prefix_len: 128 },
        BlockedNetwork { addr: IpAddress::v6(0xfc00, 0, 0, 0, 0, 0, 0, 0), prefix_len: 7 },
        BlockedNetwork { addr: IpAddress::v6(0xfe80, 0, 0, 0, 0, 0, 0, 0), prefix_len: 10 },
        BlockedNetwork { addr: IpAddress::v4(0, 0, 0, 0), prefix_len: 8 },
    ];
    assert(networks_view(r@) =~= blocked_table());
    r
}

pub open spec fn blocked_message(ip: IpAddress) -> Seq<char> {
    "URL resolves to a private/reserved address ("@ + ip_text(ip) + "). SSRF protection rejected this request."@
}

/// Rejects an address that lies in a blocked network.
pub fn check_ip_blocked(ip: IpAddress) -> (r: Result<(), AppError>)
    ensures
        r is Err <==> is_blocked(ip),
        r matches Err(e) ==> e is Validation && e.message_view() == blocked_message(ip),
{
    let networks = blocked_networks();
    let mut i: usize = 0;
    while i < networks.len()
        invariant
            i <= networks.len(),
            networks_view(networks@) == blocked_table(),
            forall|k: int| 0 <= k < networks@.len() ==> (#[trigger] networks@[k]).well_formed(),
            forall|k: int| 0 <= k < i ==> !same_prefix(blocked_table()[k].0, blocked_table()[k].1, ip),
        decreases networks.len() - i,
    {
        assert(networks_view(networks@)[i as int] == (networks@[i as int].addr, networks@[i as int].prefix_len as nat));
        if networks[i].contains(ip) {
            let mut message = String::new();
            push_str(&mut message, "URL resolves to a private/reserved address (");
            let shown = ip_to_text(ip);
            push_str(&mut message, shown.as_str());
            push_str(&mut message, "). SSRF protection rejected this request.");
            return Err(AppError::Validation(message));
        }
        i = i + 1;
    }
    Ok(())
}

/// Rejects the first resolved address that lies in a blocked network.
pub fn check_resolved_ips(ips: &Vec<IpAddress>) -> (r: Result<(), AppError>)
    ensures
        r is Err <==> exists|i: int| 0 <= i < ips@.len() && is_blocked(#[trigger] ips@[i]),
        r matches Err(e) ==> exists|i: int|
            0 <= i < ips@.len() && is_blocked(#[trigger] ips@[i]) && e is Validation && e.message_view()
                == blocked_message(ips@[i]) && forall|j: int| 0 <= j < i ==> !is_blocked(#[trigger] ips@[j]),
{
    let mut i: usize = 0;
    while i < ips.len()
        invariant
            i <= ips.len(),
            forall|j: int| 0 <= j < i ==> !is_blocked(#[trigger] ips@[j]),
        decreases ips.len() - i,
    {
        let checked = check_ip_blocked(ips[i]);
        if checked.is_err() {
            return checked;
        }
        i = i + 1;
    }
    Ok(())
}

} // verus!

verus! {

// ============================================================
//  URL CHECKS
// ============================================================

/// The parts of a parsed URL that admission looks at.
pub struct UrlParts {
    pub scheme: String,
    pub host: Option<String>,
}

pub open spec fn opt_text(o: Option<String>) -> Option<Seq<char>> {
    match o {
        Some(s) => Some(s@),
        None => None,
    }
}

/// What `url::Url::parse` makes of a text: the text of its error when it
/// rejects it (the error's `Display`), else the scheme and the host
/// (`host_str`) of the URL.
pub uninterp spec fn url_components(input: Seq<char>) -> Result<(Seq<char>, Option<Seq<char>>), Seq<char>>;

/// Calls `url::Url::parse` and keeps its `scheme()` and `host_str()`, or
/// the `Display` text of its `url::ParseError`; the outcome is named by
/// `url_components`.
#[verifier::external_body]
fn parse_url(input: &str) -> (r: Result<UrlParts, String>)
    ensures
        match r {
            Ok(p) => url_components(input@) == Ok::<(Seq<char>, Option<Seq<char>>), Seq<char>>((p.scheme@, opt_text(p.host))),
            Err(t) => url_components(input@) == Err::<(Seq<char>, Option<Seq<char>>), Seq<char>>(t@),
        },
{
    url::Url::parse(input)
        .map(|u| UrlParts { scheme: u.scheme().to_string(), host: u.host_str().map(|h| h.to_string()) })
        .map_err(|e| e.to_string())
}

/// The outcome is a rejection of the request with the given message.
pub open spec fn rejected_with<T>(r: Result<T, AppError>, message: Seq<char>) -> bool {
    match r {
        Err(AppError::Validation(m)) => m@ == message,
        _ => false,
    }
}

pub open spec fn empty_url_message() -> Seq<char> {
    "URL must be a non-empty string."@
}

pub open spec fn scheme_message(scheme: Seq<char>) -> Seq<char> {
    "Only HTTPS URLs are allowed (got scheme: '"@ + scheme + "')."@
}

pub open spec fn no_host_message() -> Seq<char> {
    "URL has no hostname."@
}

/// The view of a parse outcome: the URL's scheme and host, or the parse
/// error's text.
pub open spec fn parts_view(p: Result<UrlParts, String>) -> Result<(Seq<char>, Option<Seq<char>>), Seq<char>> {
    match p {
        Ok(u) => Ok((u.scheme@, opt_text(u.host))),
        Err(t) => Err(t@),
    }
}

/// The admission of a parsed URL: a parse error, a scheme other than
/// HTTPS or a missing host rejects it; else the host.
pub open spec fn parts_admitted(r: Result<String, AppError>, parsed: Result<(Seq<char>, Option<Seq<char>>), Seq<char>>) -> bool {
    match parsed {
        Err(detail) => rejected_with(r, "Invalid URL: "@ + detail),
        Ok(parts) => if parts.0 != "https"@ {
            rejected_with(r, scheme_message(parts.0))
        } else {
            match parts.1 {
                None => rejected_with(r, no_host_message()),
                Some(host) => r matches Ok(h) && h@ == host,
            }
        },
    }
}

/// Admits a parsed URL (its scheme and host, or the parse error's text):
/// only HTTPS URLs with a host pass. Gives the host name.
pub fn admit_url_parts(parsed: Result<UrlParts, String>) -> (r: Result<String, AppError>)
    ensures
        parts_admitted(r, parts_view(parsed)),
{
    let parts = match parsed {
        Ok(p) => p,
        Err(detail) => {
            let mut message = String::from_str("Invalid URL: ");
            push_str(&mut message, detail.as_str());
            return Err(AppError::Validation(message));
        },
    };
    let https = String::from_str("https");
    if parts.scheme != https {
        let mut message = String::from_str("Only HTTPS URLs are allowed (got scheme: '");
        push_str(&mut message, parts.scheme.as_str());
        push_str(&mut message, "').");
        return Err(AppError::Validation(message));
    }
    match parts.host {
        Some(host) => Ok(host),
        None => Err(AppError::Validation(String::from_str("URL has no hostname."))),
    }
}

/// The checks of a URL that need no network: not blank, parses, uses
/// HTTPS, names a host. Gives the host name.
pub fn validate_url_syntax(url_str: &str) -> (r: Result<String, AppError>)
    ensures
        trim_spec(url_str@).len() == 0 ==> rejected_with(r, empty_url_message()),
        trim_spec(url_str@).len() != 0 ==> parts_admitted(r, url_components(url_str@)),
{
    if str_trim(url_str).is_empty() {
        return Err(AppError::Validation(String::from_str("URL must be a non-empty string.")));
    }
    admit_url_parts(parse_url(url_str))
}

/// What was learned about the host of a URL: it is an address literal,
/// it resolved to addresses, or resolution could not run or failed (with
/// the resolver's message).
pub enum HostLookup {
    Literal(IpAddress),
    Resolved(Vec<IpAddress>),
    ResolverUnavailable(String),
    LookupFailed(String),
}

pub open spec fn resolver_message(detail: Seq<char>) -> Seq<char> {
    "DNS resolver error: "@ + detail
}

pub open spec fn lookup_message(host: Seq<char>, detail: Seq<char>) -> Seq<char> {
    "Cannot resolve hostname '"@ + host + "': "@ + detail
}

/// Decides admission once the host is known: every address must lie
/// outside the blocked networks. Gives back the URL.
pub fn finish_url_validation(url_str: &str, host: &str, lookup: HostLookup) -> (r: Result<String, AppError>)
    ensures
        r matches Ok(u) ==> u@ == url_str@,
        match lookup {
            HostLookup::Literal(ip) => {
                &&& r is Err <==> is_blocked(ip)
                &&& r matches Err(e) ==> e is Validation && e.message_view() == blocked_message(ip)
            },
            HostLookup::Resolved(ips) => {
                &&& r is Err <==> exists|i: int| 0 <= i < ips@.len() && is_blocked(#[trigger] ips@[i])
                &&& r matches Err(e) ==> exists|i: int|
                    0 <= i < ips@.len() && is_blocked(#[trigger] ips@[i]) && e is Validation
                        && e.message_view() == blocked_message(ips@[i]) && forall|j: int|
                        0 <= j < i ==> !is_blocked(#[trigger] ips@[j])
            },
            HostLookup::ResolverUnavailable(detail) => r matches Err(e) && e is Validation
                && e.message_view() == resolver_message(detail@),
            HostLookup::LookupFailed(detail) => r matches Err(e) && e is Validation && e.message_view()
                == lookup_message(host@, detail@),
        },
{
    match lookup {
        HostLookup::Literal(ip) => {
            match check_ip_blocked(ip) {
                Ok(()) => Ok(String::from_str(url_str)),
                Err(e) => Err(e),
            }
        },
        HostLookup::Resolved(ips) => {
            match check_resolved_ips(&ips) {
                Ok(()) => Ok(String::from_str(url_str)),
                Err(e) => Err(e),
            }
        },
        HostLookup::ResolverUnavailable(detail) => {
            let mut message = String::from_str("DNS resolver error: ");
            push_str(&mut message, detail.as_str());
            Err(AppError::Validation(message))
        },
        HostLookup::LookupFailed(detail) => {
            let mut message = String::from_str("Cannot resolve hostname '");
            push_str(&mut message, host);
            push_str(&mut message, "': ");
            push_str(&mut message, detail.as_str());
            Err(AppError::Validation(message))
        },
    }
}

pub open spec fn batch_size_message(count: nat) -> Seq<char> {
    "Batch size "@ + decimal(count) + " exceeds maximum of 10."@
}

/// Rejects a batch of more than `MAX_BATCH_URLS` URLs.
pub fn check_batch_size(count: usize) -> (r: Result<(), AppError>)
    ensures
        r is Err <==> count > MAX_BATCH_URLS,
        r is Err <==> count > 10,
        r matches Err(e) ==> e is Validation && e.message_view() == batch_size_message(count as nat),
{
    if count > MAX_BATCH_URLS {
        let mut message = String::from_str("Batch size ");
        push_decimal(&mut message, count as u128);
        push_str(&mut message, " exceeds maximum of 10.");
        Err(AppError::Validation(message))
    } else {
        Ok(())
    }
}

} // verus!

verus! {

/// Every well-formed network contains its own address, and a network with
/// prefix length zero contains every address of its family; addresses of
/// the other family are never contained.
pub proof fn lemma_network_membership(net: BlockedNetwork, ip: IpAddress)
    requires
        net.well_formed(),
    ensures
        net.spec_contains(net.addr),
        net.prefix_len == 0 && (net.addr is V4 <==> ip is V4) ==> net.spec_contains(ip),
        (net.addr is V4 <==> ip is V6) ==> !net.spec_contains(ip),
{
}

/// The private and reserved IPv4 ranges are blocked: loopback
/// 127.0.0.0/8, RFC 1918 (10.0.0.0/8, 172.16.0.0/12, 192.168.0.0/16),
/// link-local 169.254.0.0/16, CGNAT 100.64.0.0/10 and "this network"
/// 0.0.0.0/8.
pub proof fn lemma_private_ipv4_blocked(v: u32)
    requires
        (v >> 24u32) == 127 || (v >> 24u32) == 10 || (v >> 20u32) == 0xac1 || (v >> 16u32) == 0xc0a8
            || (v >> 16u32) == 0xa9fe || (v >> 22u32) == 0x191 || (v >> 24u32) == 0,
    ensures
        is_blocked(IpAddress::V4(v)),
{
    let t = blocked_table();
    assert((0x7f00_0000u32 >> 24u32) == 127) by (bit_vector);
    assert((0x0a00_0000u32 >> 24u32) == 10) by (bit_vector);
    assert((0xac10_0000u32 >> 20u32) == 0xac1) by (bit_vector);
    assert((0xc0a8_0000u32 >> 16u32) == 0xc0a8) by (bit_vector);
    assert((0xa9fe_0000u32 >> 16u32) == 0xa9fe) by (bit_vector);
    assert((0x6440_0000u32 >> 22u32) == 0x191) by (bit_vector);
    if (v >> 24u32) == 127 {
        assert(same_prefix(t[0].0, t[0].1, IpAddress::V4(v)));
    } else if (v >> 24u32) == 10 {
        assert(same_prefix(t[1].0, t[1].1, IpAddress::V4(v)));
    } else if (v >> 20u32) == 0xac1 {
        assert(same_prefix(t[2].0, t[2].1, IpAddress::V4(v)));
    } else if (v >> 16u32) == 0xc0a8 {
        assert(same_prefix(t[3].0, t[3].1, IpAddress::V4(v)));
    } else if (v >> 16u32) == 0xa9fe {
        assert(same_prefix(t[4].0, t[4].1, IpAddress::V4(v)));
    } else if (v >> 22u32) == 0x191 {
        assert(same_prefix(t[5].0, t[5].1, IpAddress::V4(v)));
    } else {
        assert((0u32 >> 24u32) == 0) by (bit_vector);
        assert(same_prefix(t[9].0, t[9].1, IpAddress::V4(v)));
    }
}

/// The IPv6 loopback address `::1` is blocked.
pub proof fn lemma_ipv6_loopback_blocked()
    ensures
        is_blocked(IpAddress::V6(1)),
{
    let t = blocked_table();
    assert(same_prefix(t[6].0, t[6].1, IpAddress::V6(1)));
}

} // verus!

verus! {

/// The IPv6 unique-local range fc00::/7 and link-local range fe80::/10
/// are blocked.
pub proof fn lemma_private_ipv6_blocked(v: u128)
    requires
        (v >> 121u128) == 0x7e || (v >> 118u128) == 0x3fa,
    ensures
        is_blocked(IpAddress::V6(v)),
{
    let t = blocked_table();
    assert((0xfc00_0000_0000_0000_0000_0000_0000_0000u128 >> 121u128) == 0x7e) by (bit_vector);
    assert((0xfe80_0000_0000_0000_0000_0000_0000_0000u128 >> 118u128) == 0x3fa) by (bit_vector);
    if (v >> 121u128) == 0x7e {
        assert(same_prefix(t[7].0, t[7].1, IpAddress::V6(v)));
    } else {
        assert(same_prefix(t[8].0, t[8].1, IpAddress::V6(v)));
    }
}

/// A parsed URL is admitted only when its scheme is `https` and it has a
/// host, and admission gives that host; a parse error is never admitted.
pub proof fn lemma_admission_needs_https(
    r: Result<String, AppError>,
    parsed: Result<(Seq<char>, Option<Seq<char>>), Seq<char>>,
)
    requires
        parts_admitted(r, parsed),
    ensures
        r is Ok ==> (parsed matches Ok(p) && p.0 == "https"@ && p.1 == Some(r->Ok_0@)),
        r is Err ==> r->Err_0 is Validation,
{
}

} // verus!

//! Network data model for the container: addresses and CIDR blocks as plain
//! values, DNS policy, port redirections and the rendering of packet-filter
//! redirection rules, and the selection of a container's main address.

use vstd::prelude::*;
use crate::textfmt::{
    mk_string, spec_joined, spec_u16_hex, spec_u64_text, spec_views, u16_hex_text, u64_text,
};

verus! {

/// An IP address held as plain values: four octets, or eight 16-bit groups.
#[derive(Clone, Copy, Debug, PartialEq, Eq, Structural)]
pub enum IpAddress {
    V4(u8, u8, u8, u8),
    V6(u16, u16, u16, u16, u16, u16, u16, u16),
}

/// Text of an address: dotted decimal for the four octets, the eight hex
/// groups separated by colons otherwise (no zero-run compression).
pub open spec fn spec_ip_text(ip: IpAddress) -> Seq<char> {
    match ip {
        IpAddress::V4(a, b, c, d) => spec_u64_text(a as int) + "."@ + spec_u64_text(b as int)
            + "."@ + spec_u64_text(c as int) + "."@ + spec_u64_text(d as int),
        IpAddress::V6(a, b, c, d, e, f, g, h) => spec_u16_hex(a as int) + ":"@ + spec_u16_hex(
            b as int,
        ) + ":"@ + spec_u16_hex(c as int) + ":"@ + spec_u16_hex(d as int) + ":"@ + spec_u16_hex(
            e as int,
        ) + ":"@ + spec_u16_hex(f as int) + ":"@ + spec_u16_hex(g as int) + ":"@ + spec_u16_hex(
            h as int,
        ),
    }
}

impl IpAddress {
    /// Render the address as text.
    pub fn text(&self) -> (r: String)
        ensures
            r@ == spec_ip_text(*self),
    {
        proof {
            reveal_strlit(".");
            reveal_strlit(":");
        }
        match self {
            IpAddress::V4(a, b, c, d) => {
                let mut r = u64_text(*a as u64);
                r.append(".");
                r.append(u64_text(*b as u64).as_str());
                r.append(".");
                r.append(u64_text(*c as u64).as_str());
                r.append(".");
                r.append(u64_text(*d as u64).as_str());
                r
            },
            IpAddress::V6(a, b, c, d, e, f, g, h) => {
                let mut r = u16_hex_text(*a);
                r.append(":");
                r.append(u16_hex_text(*b).as_str());
                r.append(":");
                r.append(u16_hex_text(*c).as_str());
                r.append(":");
                r.append(u16_hex_text(*d).as_str());
                r.append(":");
                r.append(u16_hex_text(*e).as_str());
                r.append(":");
                r.append(u16_hex_text(*f).as_str());
                r.append(":");
                r.append(u16_hex_text(*g).as_str());
                r.append(":");
                r.append(u16_hex_text(*h).as_str());
                r
            },
        }
    }
}

/// A CIDR block: an address and a prefix length.
#[derive(Clone, Copy, Debug, PartialEq, Eq, Structural)]
pub struct IpCidr {
    pub address: IpAddress,
    pub prefix: u8,
}

/// The full prefix length for the address family.
pub open spec fn spec_full_prefix(ip: IpAddress) -> u8 {
    match ip {
        IpAddress::V4(..) => 32u8,
        IpAddress::V6(..) => 128u8,
    }
}

/// Text of a CIDR block: the address, a slash, the prefix length.
pub open spec fn spec_cidr_text(c: IpCidr) -> Seq<char> {
    spec_ip_text(c.address) + "/"@ + spec_u64_text(c.prefix as int)
}

impl IpCidr {
    /// The block's address.
    pub fn addr(&self) -> (r: IpAddress)
        ensures
            r == self.address,
    {
        self.address
    }

    /// The single-address block holding this block's address.
    pub fn to_singleton(&self) -> (r: IpCidr)
        ensures
            r.address == self.address,
            r.prefix == spec_full_prefix(self.address),
    {
        match self.address {
            IpAddress::V4(..) => IpCidr { address: self.address, prefix: 32 },
            IpAddress::V6(..) => IpCidr { address: self.address, prefix: 128 },
        }
    }

    /// Render the block as text.
    pub fn text(&self) -> (r: String)
        ensures
            r@ == spec_cidr_text(*self),
    {
        proof {
            reveal_strlit("/");
        }
        let mut r = self.address.text();
        r.append("/");
        r.append(u64_text(self.prefix as u64).as_str());
        r
    }
}

/// Policy for generating the container's resolver configuration.
#[derive(Clone, Debug)]
pub enum DnsSetting {
    /// Copy the host's resolver configuration.
    Inherit,
    /// Write the given servers and search domains.
    Specified { servers: Vec<String>, search_domains: Vec<String> },
    /// Leave the resolver configuration alone.
    Nop,
}

/// Addresses assigned to the container on one interface.
#[derive(Clone, Debug)]
pub struct IpAssign {
    pub network: Option<String>,
    pub addresses: Vec<IpCidr>,
    pub interface: String,
}

/// Text of an assignment: the network in parentheses when present, the
/// interface, a bar, then the blocks separated by commas.
pub open spec fn spec_ip_assign_text(network: Option<Seq<char>>, interface: Seq<char>, addresses: Seq<IpCidr>) -> Seq<char> {
    let head = match network {
        Some(n) => "("@ + n + ")"@,
        None => Seq::<char>::empty(),
    };
    head + interface + "|"@ + spec_joined(addresses.map_values(|c: IpCidr| spec_cidr_text(c)), ","@)
}

impl IpAssign {
    /// Render the assignment as text.
    pub fn text(&self) -> (r: String)
        ensures
            r@ == spec_ip_assign_text(
                match self.network {
                    Some(n) => Some(n@),
                    None => None,
                },
                self.interface@,
                self.addresses@,
            ),
    {
        proof {
            reveal_strlit("(");
            reveal_strlit(")");
            reveal_strlit("|");
        }
        let mut r = String::new();
        match &self.network {
            Some(n) => {
                r.append("(");
                r.append(n.as_str());
                r.append(")");
            },
            None => {},
        }
        r.append(self.interface.as_str());
        r.append("|");
        let mut texts: Vec<String> = Vec::new();
        let n = self.addresses.len();
        let mut i: usize = 0;
        while i < n
            invariant
                n == self.addresses@.len(),
                i <= n,
                texts@.len() == i,
                forall|j: int| 0 <= j < i ==> texts@[j]@ == spec_cidr_text(self.addresses@[j]),
            decreases n - i,
        {
            texts.push(self.addresses[i].text());
            i += 1;
        }
        let joined = mk_string(&texts, "", ",", "");
        proof {
            reveal_strlit("");
            reveal_strlit(",");
            assert(spec_views(texts@) =~= self.addresses@.map_values(
                |c: IpCidr| spec_cidr_text(c),
            ));
            assert(""@ =~= Seq::<char>::empty());
        }
        r.append(joined.as_str());
        proof {
            assert(r@ =~= spec_ip_assign_text(
                match self.network {
                    Some(n) => Some(n@),
                    None => None,
                },
                self.interface@,
                self.addresses@,
            ));
        }
        r
    }
}

/// A port, or a range of ports given by start and length.
#[derive(Clone, Copy, Debug, PartialEq, Eq, PartialOrd, Ord, Hash, Structural)]
pub enum PortNum {
    Single(u16),
    /// A range of ports: a starting number and a length.
    Range(u16, u16),
}

/// Text of a port: the number, or start and length separated by a colon.
pub open spec fn spec_port_text(p: PortNum) -> Seq<char> {
    match p {
        PortNum::Single(port) => spec_u64_text(port as int),
        PortNum::Range(start, len) => spec_u64_text(start as int) + ":"@ + spec_u64_text(
            len as int,
        ),
    }
}

impl PortNum {
    /// Render the port as text.
    pub fn text(&self) -> (r: String)
        ensures
            r@ == spec_port_text(*self),
    {
        proof {
            reveal_strlit(":");
        }
        match self {
            PortNum::Single(port) => u64_text(*port as u64),
            PortNum::Range(start, len) => {
                let mut r = u64_text(*start as u64);
                r.append(":");
                r.append(u64_text(*len as u64).as_str());
                r
            },
        }
    }
}

/// A transport protocol a redirection applies to.
#[derive(Clone, Copy, Debug, PartialEq, Eq, PartialOrd, Ord, Hash, Structural)]
pub enum NetProto {
    Tcp,
    Udp,
    Sctp,
}

/// The protocol's name.
pub open spec fn spec_proto_text(p: NetProto) -> Seq<char> {
    match p {
        NetProto::Tcp => "tcp"@,
        NetProto::Udp => "udp"@,
        NetProto::Sctp => "sctp"@,
    }
}

impl NetProto {
    /// The protocol's name.
    pub fn as_ref(&self) -> (r: &'static str)
        ensures
            r@ == spec_proto_text(*self),
    {
        proof {
            reveal_strlit("tcp");
            reveal_strlit("udp");
            reveal_strlit("sctp");
        }
        match self {
            NetProto::Tcp => "tcp",
            NetProto::Udp => "udp",
            NetProto::Sctp => "sctp",
        }
    }
}

/// A request to redirect traffic arriving at the host to the container.
#[derive(Clone, Debug)]
pub struct PortRedirection {
    /// External interfaces the rule applies to; filled from host info when
    /// absent.
    pub ifaces: Option<Vec<String>>,
    pub proto: Vec<NetProto>,
    /// Where the packets come from (source address of the packets).
    pub origin: Vec<String>,
    /// Host addresses that trigger this redirection.
    pub addresses: Option<Vec<IpCidr>>,
    pub source_port: PortNum,
    pub dest_port: u16,
    pub dest_addr: Option<IpCidr>,
}

/// The singleton blocks of a list of CIDR blocks, as text.
pub open spec fn spec_singleton_texts(addresses: Seq<IpCidr>) -> Seq<Seq<char>> {
    addresses.map_values(
        |c: IpCidr| spec_cidr_text(
            IpCidr { address: c.address, prefix: spec_full_prefix(c.address) },
        ),
    )
}

/// The traffic destination of a redirection rule: any, or the braced list
/// of the host addresses that trigger it, as singletons.
pub open spec fn spec_rdr_source(addresses: Option<Seq<IpCidr>>) -> Seq<char> {
    match addresses {
        None => "any"@,
        Some(list) => "{"@ + spec_joined(spec_singleton_texts(list), ","@) + "}"@,
    }
}

/// The packet-filter redirection rule for a fully populated redirection.
pub open spec fn spec_pf_rule(r: PortRedirection) -> Seq<char> {
    "rdr on "@ + "{"@ + spec_joined(spec_views(r.ifaces->0@), ","@) + "}"@ + " proto "@ + "{"@
        + spec_joined(r.proto@.map_values(|p: NetProto| spec_proto_text(p)), ","@) + "}"@
        + " from any to "@ + spec_rdr_source(
        match r.addresses {
            Some(a) => Some(a@),
            None => None,
        },
    ) + " port "@ + spec_port_text(r.source_port) + " -> "@ + spec_cidr_text(
        IpCidr {
            address: r.dest_addr->0.address,
            prefix: spec_full_prefix(r.dest_addr->0.address),
        },
    ) + " port "@ + spec_u64_text(r.dest_port as int)
}

impl PortRedirection {
    /// Render the packet-filter redirection rule. The redirection must have
    /// been completed with host information first.
    pub fn to_pf_rule(&self) -> (r: String)
        requires
            self.ifaces is Some,
            self.dest_addr is Some,
        ensures
            r@ == spec_pf_rule(*self),
    {
        proof {
            reveal_strlit("rdr on ");
            reveal_strlit(" proto ");
            reveal_strlit(" from any to ");
            reveal_strlit(" port ");
            reveal_strlit(" -> ");
            reveal_strlit("any");
            reveal_strlit("{");
            reveal_strlit("}");
            reveal_strlit(",");
        }
        let ifaces = match &self.ifaces {
            Some(v) => v,
            None => unreached(),
        };
        let ext_ifs = mk_string(ifaces, "{", ",", "}");
        let mut proto_texts: Vec<String> = Vec::new();
        let np = self.proto.len();
        let mut i: usize = 0;
        while i < np
            invariant
                np == self.proto@.len(),
                i <= np,
                proto_texts@.len() == i,
                forall|j: int|
                    0 <= j < i ==> proto_texts@[j]@ == spec_proto_text(self.proto@[j]),
            decreases np - i,
        {
            proto_texts.push(String::from_str(self.proto[i].as_ref()));
            i += 1;
        }
        let protos = mk_string(&proto_texts, "{", ",", "}");
        proof {
            assert(spec_views(proto_texts@) =~= self.proto@.map_values(
                |p: NetProto| spec_proto_text(p),
            ));
        }
        let source = match &self.addresses {
            None => String::from_str("any"),
            Some(addresses) => {
                let mut texts: Vec<String> = Vec::new();
                let na = addresses.len();
                let mut k: usize = 0;
                while k < na
                    invariant
                        na == addresses@.len(),
                        k <= na,
                        texts@.len() == k,
                        forall|j: int|
                            0 <= j < k ==> texts@[j]@ == spec_singleton_texts(addresses@)[j],
                    decreases na - k,
                {
                    texts.push(addresses[k].to_singleton().text());
                    k += 1;
                }
                let s = mk_string(&texts, "{", ",", "}");
                proof {
                    assert(spec_views(texts@) =~= spec_singleton_texts(addresses@));
                }
                s
            },
        };
        let dest = match &self.dest_addr {
            Some(d) => d.to_singleton().text(),
            None => unreached(),
        };
        let mut r = String::from_str("rdr on ");
        r.append(ext_ifs.as_str());
        r.append(" proto ");
        r.append(protos.as_str());
        r.append(" from any to ");
        r.append(source.as_str());
        r.append(" port ");
        r.append(self.source_port.text().as_str());
        r.append(" -> ");
        r.append(dest.as_str());
        r.append(" port ");
        r.append(u64_text(self.dest_port as u64).as_str());
        proof {
            assert(r@ =~= spec_pf_rule(*self));
        }
        r
    }

    /// Complete a redirection with host information: default interfaces
    /// when none were requested, and the main address as destination.
    pub fn with_host_info(&mut self, ext_ifaces: &Vec<String>, main_ip: IpCidr)
        ensures
            old(self).ifaces is None ==> {
                &&& final(self).ifaces matches Some(v)
                &&& crate::process::spec_strings_eq(v@, ext_ifaces@)
            },
            old(self).ifaces is Some ==> final(self).ifaces == old(self).ifaces,
            final(self).dest_addr == Some(main_ip),
            final(self).proto == old(self).proto,
            final(self).origin == old(self).origin,
            final(self).addresses == old(self).addresses,
            final(self).source_port == old(self).source_port,
            final(self).dest_port == old(self).dest_port,
    {
        if self.ifaces.is_none() {
            self.ifaces = Some(crate::process::clone_strings(ext_ifaces));
        }
        self.dest_addr = Some(main_ip);
    }
}

/// One line of a hosts file: an address and the name it resolves.
#[derive(Clone, Debug)]
pub struct HostEntry {
    pub ip_addr: IpAddress,
    pub hostname: String,
}

/// How the container's main address is chosen from its assignments.
#[derive(Clone, Debug)]
pub enum MainAddressSelector {
    /// The first address on the named network.
    Network(String),
    /// This address, wherever it is assigned.
    Ip(IpAddress),
}

/// An address chosen for the container, with the interface carrying it.
pub struct AssignedAddress {
    pub interface: String,
    pub address: IpAddress,
}

impl AssignedAddress {
    pub fn new(interface: String, address: IpAddress) -> (r: AssignedAddress)
        ensures
            r.interface == interface,
            r.address == address,
    {
        AssignedAddress { interface, address }
    }
}

/// Whether one assignment satisfies the selector.
pub open spec fn spec_selector_matches(
    selector: Option<MainAddressSelector>,
    alloc: IpAssign,
) -> bool {
    match selector {
        None => alloc.network is Some && alloc.addresses@.len() > 0,
        Some(MainAddressSelector::Ip(address)) => exists|j: int|
            0 <= j < alloc.addresses@.len() && alloc.addresses@[j].address == address,
        Some(MainAddressSelector::Network(network)) => (alloc.network matches Some(n) && n@
            == network@) && alloc.addresses@.len() > 0,
    }
}

/// The address the selector picks from a matching assignment.
pub open spec fn spec_selected_address(
    selector: Option<MainAddressSelector>,
    alloc: IpAssign,
) -> IpAddress {
    match selector {
        Some(MainAddressSelector::Ip(address)) => address,
        _ => alloc.addresses@[0].address,
    }
}

/// Why a selector's text form was rejected.
#[derive(Clone, Copy, Debug, PartialEq, Eq, Structural)]
pub enum SelectorParseError {
    /// No slash, or an unknown scheme before the slash.
    Malformed,
    /// The scheme asked for an address but the text after the slash is not
    /// a dotted-quad address this parser accepts.
    BadAddress,
}

/// Text of a selector, as published.
pub open spec fn spec_selector_text(s: MainAddressSelector) -> Seq<char> {
    match s {
        MainAddressSelector::Ip(ip) => "ipadd/"@ + spec_ip_text(ip),
        MainAddressSelector::Network(n) => "network/"@ + n@,
    }
}

/// Parse one decimal octet: one to three digits, no leading zero unless
/// the octet is exactly `0`, value at most 255.
fn parse_octet(s: &str, from: usize, to: usize) -> (r: Option<u8>)
    requires
        from <= to <= s@.len(),
{
    if from == to || to - from > 3 {
        return None;
    }
    let mut value: u32 = 0;
    let mut i = from;
    while i < to
        invariant
            from <= i <= to,
            to <= s@.len(),
            value <= 999,
        decreases to - i,
    {
        let c = s.get_char(i);
        let d: u32 = if c == '0' { 0 }
        else if c == '1' { 1 }
        else if c == '2' { 2 }
        else if c == '3' { 3 }
        else if c == '4' { 4 }
        else if c == '5' { 5 }
        else if c == '6' { 6 }
        else if c == '7' { 7 }
        else if c == '8' { 8 }
        else if c == '9' { 9 }
        else {
            return None;
        };
        if i == from && d == 0 && to - from > 1 {
            // a leading zero is accepted only for the octet `0`
            return None;
        }
        if value > 99 {
            return None;
        }
        value = value * 10 + d;
        i += 1;
    }
    if value > 255 {
        None
    } else {
        Some(value as u8)
    }
}

/// The value of a hexadecimal digit character, if it is one.
fn hex_char_val(c: char) -> (r: Option<u16>)
    ensures
        r matches Some(d) ==> d < 16,
{
    if c == '0' { Some(0) }
    else if c == '1' { Some(1) }
    else if c == '2' { Some(2) }
    else if c == '3' { Some(3) }
    else if c == '4' { Some(4) }
    else if c == '5' { Some(5) }
    else if c == '6' { Some(6) }
    else if c == '7' { Some(7) }
    else if c == '8' { Some(8) }
    else if c == '9' { Some(9) }
    else if c == 'a' || c == 'A' { Some(10) }
    else if c == 'b' || c == 'B' { Some(11) }
    else if c == 'c' || c == 'C' { Some(12) }
    else if c == 'd' || c == 'D' { Some(13) }
    else if c == 'e' || c == 'E' { Some(14) }
    else if c == 'f' || c == 'F' { Some(15) }
    else { None }
}

/// Parse one hexadecimal group of one to four digits.
fn parse_hex_group(s: &str, from: usize, to: usize) -> (r: Option<u16>)
    requires
        from <= to <= s@.len(),
{
    if from == to || to - from > 4 {
        return None;
    }
    let mut value: u16 = 0;
    let mut i = from;
    while i < to
        invariant
            from <= i <= to,
            to <= s@.len(),
            to - from <= 4,
            i - from == 0 ==> value == 0,
            i - from == 1 ==> value < 16,
            i - from == 2 ==> value < 256,
            i - from == 3 ==> value < 4096,
        decreases to - i,
    {
        let d = match hex_char_val(s.get_char(i)) {
            Some(d) => d,
            None => {
                return None;
            },
        };
        value = value * 16 + d;
        i += 1;
    }
    Some(value)
}

/// Split a character range on colons into hexadecimal groups; every group
/// must be non-empty. An empty range holds no group.
fn split_hex_groups(s: &str, from: usize, to: usize) -> (r: Option<Vec<u16>>)
    requires
        from <= to <= s@.len(),
{
    let mut groups: Vec<u16> = Vec::new();
    if from == to {
        return Some(groups);
    }
    let mut start = from;
    let mut i = from;
    while i < to
        invariant
            from <= start <= i <= to,
            to <= s@.len(),
        decreases to - i,
    {
        if s.get_char(i) == ':' {
            match parse_hex_group(s, start, i) {
                Some(g) => {
                    groups.push(g);
                },
                None => {
                    return None;
                },
            }
            start = i + 1;
        }
        i += 1;
    }
    match parse_hex_group(s, start, to) {
        Some(g) => {
            groups.push(g);
        },
        None => {
            return None;
        },
    }
    Some(groups)
}

/// Parse a textual v6 address: eight hexadecimal groups separated by
/// colons, with at most one `::` standing for a run of zero groups. (The
/// form with an embedded dotted-quad tail is not accepted.)
fn parse_ipv6(s: &str) -> (r: Option<IpAddress>) {
    let n = s.unicode_len();
    if n == 0 {
        return None;
    }
    // position of the one allowed `::`; a second one leaves an empty group
    // behind, which the splitter rejects
    let mut dd: Option<usize> = None;
    let mut i: usize = 0;
    while n - i > 1
        invariant
            n == s@.len(),
            i <= n,
            dd matches Some(p) ==> p + 1 < n,
        decreases n - i,
    {
        if dd.is_none() && s.get_char(i) == ':' && s.get_char(i + 1) == ':' {
            dd = Some(i);
        }
        i += 1;
    }
    let mut full: Vec<u16> = Vec::new();
    match dd {
        None => {
            match split_hex_groups(s, 0, n) {
                Some(groups) => {
                    if groups.len() != 8 {
                        return None;
                    }
                    full = groups;
                },
                None => {
                    return None;
                },
            }
        },
        Some(p) => {
            let left = match split_hex_groups(s, 0, p) {
                Some(l) => l,
                None => {
                    return None;
                },
            };
            let right = match split_hex_groups(s, p + 2, n) {
                Some(r) => r,
                None => {
                    return None;
                },
            };
            if left.len() > 7 {
                return None;
            }
            if right.len() > 7 - left.len() {
                return None;
            }
            let mut k: usize = 0;
            let nl = left.len();
            let nr = right.len();
            full = left;
            while k + nl + nr < 8
                invariant
                    nl + nr <= 7,
                    full@.len() == nl + k,
                    k + nl + nr <= 8,
                decreases 8 - k - nl - nr,
            {
                full.push(0);
                k += 1;
            }
            let mut q: usize = 0;
            while q < nr
                invariant
                    q <= nr,
                    nr == right@.len(),
                    full@.len() == 8 - nr + q,
                decreases nr - q,
            {
                full.push(right[q]);
                q += 1;
            }
        },
    }
    if full.len() != 8 {
        return None;
    }
    Some(
        IpAddress::V6(
            full[0],
            full[1],
            full[2],
            full[3],
            full[4],
            full[5],
            full[6],
            full[7],
        ),
    )
}

/// Parse a dotted-quad address.
fn parse_ipv4(s: &str) -> (r: Option<IpAddress>) {
    let n = s.unicode_len();
    let mut dots: Vec<usize> = Vec::new();
    let mut i: usize = 0;
    while i < n
        invariant
            n == s@.len(),
            i <= n,
            forall|k: int| 0 <= k < dots@.len() ==> dots@[k] < i,
        decreases n - i,
    {
        if s.get_char(i) == '.' {
            if dots.len() >= 3 {
                return None;
            }
            dots.push(i);
        }
        i += 1;
    }
    if dots.len() != 3 {
        return None;
    }
    let d0 = dots[0];
    let d1 = dots[1];
    let d2 = dots[2];
    if !(d0 < d1 && d1 < d2 && d2 < n) {
        return None;
    }
    let a = parse_octet(s, 0, d0);
    let b = parse_octet(s, d0 + 1, d1);
    let c = parse_octet(s, d1 + 1, d2);
    let d = parse_octet(s, d2 + 1, n);
    match (a, b, c, d) {
        (Some(a), Some(b), Some(c), Some(d)) => Some(IpAddress::V4(a, b, c, d)),
        _ => None,
    }
}

/// In a text that begins with `network/`, the first slash is exactly the
/// eighth character, and what precedes it reads `network`.
proof fn lemma_network_prefix(input: Seq<char>)
    requires
        input.len() >= 8,
        input.take(8) == "network/"@,
    ensures
        input[7] == '/',
        forall|k: int| 0 <= k < 7 ==> input[k] != '/',
        input.take(7) == "network"@,
{
    reveal_strlit("network/");
    reveal_strlit("network");
    assert(input.take(8)[7] == input[7]);
    assert forall|k: int| 0 <= k < 7 implies input[k] != '/' by {
        assert(input[k] == input.take(8)[k]);
    }
    assert(input.take(7) =~= "network"@);
}

impl MainAddressSelector {
    /// Render the selector as text.
    pub fn text(&self) -> (r: String)
        ensures
            r@ == spec_selector_text(*self),
    {
        proof {
            reveal_strlit("ipadd/");
            reveal_strlit("network/");
        }
        match self {
            MainAddressSelector::Ip(ip) => {
                let mut r = String::from_str("ipadd/");
                r.append(ip.text().as_str());
                r
            },
            MainAddressSelector::Network(n) => {
                let mut r = String::from_str("network/");
                r.append(n.as_str());
                r
            },
        }
    }

    /// Parse a selector: `network/<name>`, or `ipaddr/<address>` with a
    /// dotted-quad or hexadecimal-groups address. Anything without a slash
    /// or with another scheme is malformed. Every `network/` input parses.
    pub fn from_str(input: &str) -> (r: Result<MainAddressSelector, SelectorParseError>)
        ensures
            (forall|i: int| 0 <= i < input@.len() ==> input@[i] != '/') ==> r == Result::<
                MainAddressSelector,
                SelectorParseError,
            >::Err(SelectorParseError::Malformed),
            r matches Ok(MainAddressSelector::Network(nm)) ==> input@ == "network/"@ + nm@,
            r matches Ok(MainAddressSelector::Ip(_)) ==> input@.take(7) == "ipaddr/"@,
            input@.len() >= 8 && input@.take(8) == "network/"@ ==> (r matches Ok(
                MainAddressSelector::Network(nm),
            ) && nm@ == input@.skip(8)),
    {
        proof {
            reveal_strlit("ipaddr");
            reveal_strlit("ipaddr/");
            reveal_strlit("network");
            reveal_strlit("network/");
        }
        let n = input.unicode_len();
        let mut slash: usize = 0;
        let mut found = false;
        let mut i: usize = 0;
        while i < n && !found
            invariant
                n == input@.len(),
                i <= n,
                !found ==> slash == 0 && (forall|k: int| 0 <= k < i ==> input@[k] != '/'),
                found ==> slash < i <= n && input@[slash as int] == '/' && (forall|k: int|
                    0 <= k < slash ==> input@[k] != '/'),
            decreases n - i,
        {
            if input.get_char(i) == '/' {
                slash = i;
                found = true;
            }
            i += 1;
        }
        if !found {
            proof {
                if input@.len() >= 8 && input@.take(8) == "network/"@ {
                    lemma_network_prefix(input@);
                }
            }
            return Err(SelectorParseError::Malformed);
        }
        proof {
            if input@.len() >= 8 && input@.take(8) == "network/"@ {
                lemma_network_prefix(input@);
                assert(slash == 7);
            }
        }
        let proto = input.substring_char(0, slash).to_owned();
        let val = input.substring_char(slash + 1, n);
        if proto == String::from_str("network") {
            proof {
                assert(input@.take(slash as int) =~= proto@);
                assert("network/"@ =~= "network"@ + seq!['/']);
                assert(input@.subrange(slash as int, slash as int + 1) =~= seq![
                    input@[slash as int],
                ]);
                assert(input@ =~= input@.take(slash as int) + input@.subrange(
                    slash as int,
                    slash as int + 1,
                ) + input@.subrange(slash as int + 1, n as int));
                assert(("network/"@ + val@) =~= input@);
            }
            proof {
                if input@.len() >= 8 && input@.take(8) == "network/"@ {
                    assert(val@ =~= input@.skip(8));
                }
            }
            Ok(MainAddressSelector::Network(val.to_owned()))
        } else if proto == String::from_str("ipaddr") {
            proof {
                if input@.len() >= 8 && input@.take(8) == "network/"@ {
                    assert(proto@ =~= input@.take(7));
                    assert(proto@ == "network"@);
                }
            }
            let parsed = match parse_ipv4(val) {
                Some(ip) => Some(ip),
                None => parse_ipv6(val),
            };
            match parsed {
                Some(ip) => {
                    proof {
                        assert(input@.take(slash as int) =~= proto@);
                        assert("ipaddr/"@ =~= "ipaddr"@ + seq!['/']);
                        assert(input@.take(7) =~= input@.take(slash as int) + seq![
                            input@[slash as int],
                        ]);
                        assert(input@.take(7) =~= "ipaddr/"@);
                    }
                    Ok(MainAddressSelector::Ip(ip))
                },
                None => Err(SelectorParseError::BadAddress),
            }
        } else {
            proof {
                if input@.len() >= 8 && input@.take(8) == "network/"@ {
                    assert(proto@ =~= input@.take(7));
                    assert(proto@ == "network"@);
                }
            }
            Err(SelectorParseError::Malformed)
        }
    }

    /// Choose the container's main address: the first assignment the
    /// selector accepts supplies the interface and the address.
    pub fn select(selector: &Option<MainAddressSelector>, pool: &Vec<IpAssign>) -> (r: Option<
        AssignedAddress,
    >)
        ensures
            match r {
                Some(asg) => exists|i: int|
                    {
                        &&& 0 <= i < pool@.len()
                        &&& spec_selector_matches(*selector, #[trigger] pool@[i])
                        &&& (forall|j: int|
                            0 <= j < i ==> !spec_selector_matches(*selector, #[trigger] pool@[j]))
                        &&& asg.interface@ == pool@[i].interface@
                        &&& asg.address == spec_selected_address(*selector, pool@[i])
                    },
                None => forall|i: int|
                    0 <= i < pool@.len() ==> !spec_selector_matches(*selector, #[trigger] pool@[i]),
            },
    {
        let n = pool.len();
        let mut i: usize = 0;
        while i < n
            invariant
                n == pool@.len(),
                i <= n,
                forall|j: int|
                    0 <= j < i ==> !spec_selector_matches(*selector, #[trigger] pool@[j]),
            decreases n - i,
        {
            let alloc = &pool[i];
            match selector {
                None => {
                    if alloc.network.is_some() && alloc.addresses.len() > 0 {
                        return Some(
                            AssignedAddress::new(alloc.interface.clone(), alloc.addresses[0].addr()),
                        );
                    }
                },
                Some(MainAddressSelector::Ip(address)) => {
                    let na = alloc.addresses.len();
                    let mut k: usize = 0;
                    while k < na
                        invariant
                            n == pool@.len(),
                            0 <= i < n,
                            *alloc == pool@[i as int],
                            *selector == Some(MainAddressSelector::Ip(*address)),
                            forall|j: int|
                                0 <= j < i ==> !spec_selector_matches(
                                    *selector,
                                    #[trigger] pool@[j],
                                ),
                            na == alloc.addresses@.len(),
                            k <= na,
                            forall|j: int|
                                0 <= j < k ==> alloc.addresses@[j].address != *address,
                        decreases na - k,
                    {
                        if alloc.addresses[k].addr() == *address {
                            proof {
                                assert(pool@[i as int].addresses@[k as int].address == *address);
                                assert(spec_selector_matches(*selector, pool@[i as int]));
                            }
                            return Some(
                                AssignedAddress::new(alloc.interface.clone(), *address),
                            );
                        }
                        k += 1;
                    }
                },
                Some(MainAddressSelector::Network(network)) => {
                    match &alloc.network {
                        Some(n2) => {
                            if *n2 == *network && alloc.addresses.len() > 0 {
                                return Some(
                                    AssignedAddress::new(
                                        alloc.interface.clone(),
                                        alloc.addresses[0].addr(),
                                    ),
                                );
                            }
                        },
                        None => {},
                    }
                },
            }
            i += 1;
        }
        None
    }
}

} // verus!

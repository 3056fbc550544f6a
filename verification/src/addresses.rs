//! Which web addresses may be opened: public ones only, by their name and by what it resolves to.

use vstd::prelude::*;
use vstd::string::*;

use crate::decimal::{is_digit, is_digits, parse_i64, value};
use crate::letters::{ascii_lowered, to_ascii_lowercase};
use crate::search::{ends_with, pieces, split};
use crate::text::{chars_of, same, texts};

verus! {

// ---------------------------------------------------------------- IP addresses

/// An IP address as a number, its first byte the most significant.
#[derive(Debug, Clone, Copy, PartialEq, Eq, Structural)]
pub enum IpAddr {
    V4(u32),
    V6(u128),
}

/// Whether an IPv4 address is private, of this host, of this link, unspecified or broadcast:
/// 10.0.0.0/8, 172.16.0.0/12, 192.168.0.0/16, 127.0.0.0/8, 169.254.0.0/16, 0.0.0.0 and
/// 255.255.255.255.
pub open spec fn is_special_v4(ip: u32) -> bool {
    ||| 0x0a00_0000 <= ip <= 0x0aff_ffff
    ||| 0xac10_0000 <= ip <= 0xac1f_ffff
    ||| 0xc0a8_0000 <= ip <= 0xc0a8_ffff
    ||| 0x7f00_0000 <= ip <= 0x7fff_ffff
    ||| 0xa9fe_0000 <= ip <= 0xa9fe_ffff
    ||| ip == 0
    ||| ip == 0xffff_ffff
}

/// Whether an IPv6 address is of this host, unspecified, unique local or of this link: ::1, ::,
/// fc00::/7 and fe80::/10.
pub open spec fn is_special_v6(ip: u128) -> bool {
    ||| ip == 1
    ||| ip == 0
    ||| 0xfc00_0000_0000_0000_0000_0000_0000_0000 <= ip <= 0xfdff_ffff_ffff_ffff_ffff_ffff_ffff_ffff
    ||| 0xfe80_0000_0000_0000_0000_0000_0000_0000 <= ip <= 0xfebf_ffff_ffff_ffff_ffff_ffff_ffff_ffff
}

/// Whether an IP address is public.
pub open spec fn public_ip(ip: IpAddr) -> bool {
    match ip {
        IpAddr::V4(ip) => !is_special_v4(ip),
        IpAddr::V6(ip) => !is_special_v6(ip),
    }
}

/// Whether an IP address is public.
pub fn is_safe_public_ip(ip: IpAddr) -> (r: bool)
    ensures
        r == public_ip(ip),
{
    match ip {
        IpAddr::V4(ip) => {
            let private = (0x0a00_0000 <= ip && ip <= 0x0aff_ffff) || (0xac10_0000 <= ip && ip
                <= 0xac1f_ffff) || (0xc0a8_0000 <= ip && ip <= 0xc0a8_ffff);
            let loopback = 0x7f00_0000 <= ip && ip <= 0x7fff_ffff;
            let link_local = 0xa9fe_0000 <= ip && ip <= 0xa9fe_ffff;
            !private && !loopback && !link_local && ip != 0 && ip != 0xffff_ffff
        },
        IpAddr::V6(ip) => {
            let unique_local = 0xfc00_0000_0000_0000_0000_0000_0000_0000 <= ip && ip
                <= 0xfdff_ffff_ffff_ffff_ffff_ffff_ffff_ffff;
            let link_local = 0xfe80_0000_0000_0000_0000_0000_0000_0000 <= ip && ip
                <= 0xfebf_ffff_ffff_ffff_ffff_ffff_ffff_ffff;
            ip != 1 && ip != 0 && !unique_local && !link_local
        },
    }
}

// ---------------------------------------------------------------- web addresses

/// The host of a web address.
#[derive(Debug)]
pub enum UrlHost {
    Domain(String),
    Ip(IpAddr),
}

/// The parts of a web address that decide whether it may be opened.
#[derive(Debug)]
pub struct UrlParts {
    pub scheme: String,
    pub host: Option<UrlHost>,
    pub port: Option<u16>,
}

/// What the host of a web address is.
pub enum HostView {
    Domain(Seq<char>),
    Ip(IpAddr),
}

/// What the parts of a web address are.
pub struct UrlView {
    pub scheme: Seq<char>,
    pub host: Option<HostView>,
    pub port: Option<u16>,
}

impl View for UrlHost {
    type V = HostView;

    open spec fn view(&self) -> HostView {
        match self {
            UrlHost::Domain(name) => HostView::Domain(name@),
            UrlHost::Ip(ip) => HostView::Ip(*ip),
        }
    }
}

impl View for UrlParts {
    type V = UrlView;

    open spec fn view(&self) -> UrlView {
        UrlView {
            scheme: self.scheme@,
            host: match self.host {
                Some(host) => Some(host@),
                None => None,
            },
            port: self.port,
        }
    }
}

/// The parts that `url::Url::parse` reads from a text: the scheme, the host, and the port, which
/// is the scheme's own where the text names none; nothing where the text is no address.
pub uninterp spec fn parsed_url(raw: Seq<char>) -> Option<UrlView>;

/// The view of the parts of an address, where there are any.
pub open spec fn opt_url(url: Option<UrlParts>) -> Option<UrlView> {
    match url {
        Some(url) => Some(url@),
        None => None,
    }
}

/// Calls `url::Url::parse`, then `scheme`, `host` and `port_or_known_default` of the address; what
/// they give is named as one.
#[verifier::external_body]
fn parse_url(raw: &str) -> (r: Option<UrlParts>)
    ensures
        opt_url(r) == parsed_url(raw@),
{
    let url = url::Url::parse(raw).ok()?;
    let host = match url.host() {
        Some(url::Host::Domain(name)) => Some(UrlHost::Domain(name.to_owned())),
        Some(url::Host::Ipv4(ip)) => Some(UrlHost::Ip(IpAddr::V4(ip.into()))),
        Some(url::Host::Ipv6(ip)) => Some(UrlHost::Ip(IpAddr::V6(ip.into()))),
        None => None,
    };
    Some(UrlParts { scheme: url.scheme().to_owned(), host, port: url.port_or_known_default() })
}

/// Whether a host name stands for this machine.
pub open spec fn is_localhost(name: Seq<char>) -> bool {
    ascii_lowered(name) == "localhost"@ || ".localhost"@.is_suffix_of(name)
}

/// Whether a scheme is one of the web's.
pub open spec fn is_web(scheme: Seq<char>) -> bool {
    scheme == "http"@ || scheme == "https"@
}

/// Whether an address may be opened as far as its text shows: a web address whose host is neither
/// this machine nor an IP address that is not public.
pub open spec fn public_parts(url: UrlView) -> bool {
    &&& is_web(url.scheme)
    &&& match url.host {
        Some(HostView::Domain(name)) => !is_localhost(name),
        Some(HostView::Ip(ip)) => public_ip(ip),
        None => false,
    }
}

/// Whether a text is an address that may be opened as far as it shows.
pub open spec fn public_url(raw: Seq<char>) -> bool {
    match parsed_url(raw) {
        Some(url) => public_parts(url),
        None => false,
    }
}

fn has_web_scheme(url: &UrlParts) -> (r: bool)
    ensures
        r == is_web(url.scheme@),
{
    same(url.scheme.as_str(), "http") || same(url.scheme.as_str(), "https")
}

/// Whether an address may be opened as far as its parts show.
pub fn are_safe_public_parts(url: &UrlParts) -> (r: bool)
    ensures
        r == public_parts(url@),
{
    if !has_web_scheme(url) {
        return false;
    }
    match &url.host {
        Some(UrlHost::Domain(name)) => {
            let lower = to_ascii_lowercase(name.as_str());
            !same(lower.as_str(), "localhost") && !ends_with(name.as_str(), ".localhost")
        },
        Some(UrlHost::Ip(ip)) => is_safe_public_ip(*ip),
        None => false,
    }
}

/// Whether a text is an address that may be opened as far as it shows.
pub fn is_safe_public_url(raw: &str) -> (r: bool)
    ensures
        r == public_url(raw@),
{
    match parse_url(raw) {
        Some(url) => are_safe_public_parts(&url),
        None => false,
    }
}

// ---------------------------------------------------------------- resolving

/// What resolving an address takes.
#[derive(Debug)]
pub enum Lookup {
    /// The text decides.
    Known(bool),
    /// The name must be looked up.
    Name { host: String, port: u16 },
}

/// What resolving an address takes.
pub enum LookupView {
    Known(bool),
    Name { host: Seq<char>, port: u16 },
}

impl View for Lookup {
    type V = LookupView;

    open spec fn view(&self) -> LookupView {
        match self {
            Lookup::Known(yes) => LookupView::Known(*yes),
            Lookup::Name { host, port } => LookupView::Name { host: host@, port: *port },
        }
    }
}

/// Whether a text is a number from 0 to 255 in decimal, without leading zeros.
pub open spec fn is_octet(s: Seq<char>) -> bool {
    &&& is_digits(s)
    &&& s.len() == 1 || s[0] != '0'
    &&& s.len() <= 3
    &&& value(s) <= 255
}

/// Whether a host name is an IPv4 address: four numbers from 0 to 255 between dots.
pub open spec fn is_dotted(name: Seq<char>) -> bool {
    let parts = pieces(name, "."@);
    parts.len() == 4 && forall|i: int| 0 <= i < 4 ==> is_octet(#[trigger] parts[i])
}

fn check_octet(s: &str) -> (r: bool)
    ensures
        r == is_octet(s@),
{
    let chars = chars_of(s);
    let n = chars.len();
    if n == 0 || n > 3 || (n > 1 && chars[0] == '0') {
        return false;
    }
    if !('0' <= chars[0] && chars[0] <= '9') {
        assert(!is_digits(s@));
        return false;
    }
    match parse_i64(s) {
        Some(number) => number <= 255,
        None => false,
    }
}

fn check_dotted(name: &str) -> (r: bool)
    ensures
        r == is_dotted(name@),
{
    proof {
        reveal_strlit(".");
    }
    let parts = split(name, ".");
    assert(texts(parts@).len() == parts@.len());
    if parts.len() != 4 {
        return false;
    }
    for i in 0..4usize
        invariant
            parts@.len() == 4,
            texts(parts@) == pieces(name@, "."@),
            forall|j: int| 0 <= j < i ==> is_octet(#[trigger] pieces(name@, "."@)[j]),
    {
        assert(texts(parts@)[i as int] == parts@[i as int]@);
        if !check_octet(parts[i].as_str()) {
            return false;
        }
    }
    true
}

/// An IP address is already resolved; a name is looked up with its port, 443 where none is known.
/// Under the schemes of the web, IP addresses are told apart from names where the address is read;
/// under others an IPv4 address still stands there as a name.
pub open spec fn lookup_of(url: Option<UrlView>) -> LookupView {
    match url {
        Some(url) => match url.host {
            Some(HostView::Ip(_)) => LookupView::Known(true),
            Some(HostView::Domain(name)) => if !is_web(url.scheme) && is_dotted(name) {
                LookupView::Known(true)
            } else {
                LookupView::Name {
                    host: name,
                    port: match url.port {
                        Some(port) => port,
                        None => 443,
                    },
                }
            },
            None => LookupView::Known(false),
        },
        None => LookupView::Known(false),
    }
}

/// What resolving an address takes, by its parts.
pub fn lookup_for_parts(url: Option<UrlParts>) -> (r: Lookup)
    ensures
        r@ == lookup_of(opt_url(url)),
{
    match url {
        Some(url) => {
            let web = has_web_scheme(&url);
            match url.host {
                Some(UrlHost::Ip(_)) => Lookup::Known(true),
                Some(UrlHost::Domain(name)) => {
                    if !web && check_dotted(name.as_str()) {
                        return Lookup::Known(true);
                    }
                    let port: u16 = match url.port {
                        Some(port) => port,
                        None => 443,
                    };
                    Lookup::Name { host: name, port }
                },
                None => Lookup::Known(false),
            }
        },
        None => Lookup::Known(false),
    }
}

/// What resolving an address takes.
pub fn lookup_for(raw: &str) -> (r: Lookup)
    ensures
        r@ == lookup_of(parsed_url(raw@)),
{
    lookup_for_parts(parse_url(raw))
}

/// Whether what a name resolved to is public: at least one address, and no other.
pub open spec fn all_public(addresses: Seq<IpAddr>) -> bool {
    addresses.len() > 0 && forall|i: int|
        0 <= i < addresses.len() ==> public_ip(#[trigger] addresses[i])
}

fn check_all(addresses: &Vec<IpAddr>) -> (r: bool)
    ensures
        r == all_public(addresses@),
{
    for i in 0..addresses.len()
        invariant
            forall|j: int| 0 <= j < i ==> public_ip(#[trigger] addresses@[j]),
    {
        if !is_safe_public_ip(addresses[i]) {
            assert(!public_ip(addresses@[i as int]));
            return false;
        }
    }
    addresses.len() > 0
}

/// Whether a name resolves to public addresses only; `None` where it could not be looked up.
pub fn resolves_to_public_addresses(addresses: Option<Vec<IpAddr>>) -> (r: bool)
    ensures
        r == match addresses {
            Some(found) => all_public(found@),
            None => false,
        },
{
    match &addresses {
        Some(found) => check_all(found),
        None => false,
    }
}

// ---------------------------------------------------------------- laws

/// An address that is opened is never one of this machine or of a private network: with a name,
/// every address that the name resolved to is public; with an IP address, that one is.
pub proof fn opened_addresses_are_public(raw: Seq<char>, addresses: Seq<IpAddr>)
    requires
        public_url(raw),
        lookup_of(parsed_url(raw)) is Name ==> all_public(addresses),
    ensures
        parsed_url(raw) matches Some(url) && match url.host {
            Some(HostView::Ip(ip)) => public_ip(ip),
            Some(HostView::Domain(name)) => !is_localhost(name) && forall|i: int|
                0 <= i < addresses.len() ==> public_ip(#[trigger] addresses[i]),
            None => false,
        },
{
}

/// What is looked up is the host itself, at its own port or at 443. An address needs no looking up,
/// and what has no host is known not to be public.
pub proof fn hosts_are_looked_up_at_their_port(url: UrlView, name: Seq<char>, ip: IpAddr)
    ensures
        url.host == Some(HostView::Domain(name)) && is_web(url.scheme) ==> (lookup_of(
            Some(url),
        ) matches LookupView::Name { host, port } && host == name && (url.port matches Some(own)
            ==> port == own) && (url.port is None ==> port == 443)),
        url.host == Some(HostView::Domain(name)) && !is_dotted(name) ==> (lookup_of(
            Some(url),
        ) matches LookupView::Name { host, port } && host == name && (url.port matches Some(own)
            ==> port == own) && (url.port is None ==> port == 443)),
        url.host == Some(HostView::Domain(name)) && !is_web(url.scheme) && is_dotted(name)
            ==> lookup_of(Some(url)) == LookupView::Known(true),
        url.host == Some(HostView::Ip(ip)) ==> lookup_of(Some(url)) == LookupView::Known(true),
        url.host is None ==> lookup_of(Some(url)) == LookupView::Known(false),
        lookup_of(None) == LookupView::Known(false),
{
}

/// An address of the first version is public unless its first bytes are those of a private, a
/// loopback or a link-local network, or it is all zeros or all ones.
pub proof fn networks_go_by_their_first_bytes(ip: u32)
    ensures
        public_ip(IpAddr::V4(ip)) <==> {
            let first = ip as int / 0x100_0000;
            let second = ip as int / 0x1_0000 % 0x100;
            &&& first != 10
            &&& !(first == 172 && 16 <= second <= 31)
            &&& !(first == 192 && second == 168)
            &&& first != 127
            &&& !(first == 169 && second == 254)
            &&& ip != 0
            &&& ip != 0xffff_ffff
        },
{
}

/// An address of the later version is public unless it is unspecified or loopback, or its first bits
/// are those of a local network.
pub proof fn later_networks_go_by_their_first_bits(ip: u128)
    ensures
        public_ip(IpAddr::V6(ip)) <==> {
            let first = ip as int / 0x1_0000_0000_0000_0000_0000_0000_0000;
            &&& ip > 1
            &&& !(0xfc00 <= first <= 0xfdff)
            &&& !(0xfe80 <= first <= 0xfebf)
        },
{
}

/// A page is public only over the web, and where its host is a name that is not this machine's or a
/// public address.
pub proof fn pages_are_public_over_the_web(url: UrlView, name: Seq<char>, ip: IpAddr)
    ensures
        url.scheme != "http"@ && url.scheme != "https"@ ==> !public_parts(url),
        url.host is None ==> !public_parts(url),
        (url.scheme == "http"@ || url.scheme == "https"@) && url.host == Some(HostView::Ip(ip)) ==> (
        public_parts(url) <==> public_ip(ip)),
        (url.scheme == "http"@ || url.scheme == "https"@) && url.host == Some(
            HostView::Domain(name),
        ) ==> (public_parts(url) <==> ascii_lowered(name) != "localhost"@
            && !".localhost"@.is_suffix_of(name)),
{
}

/// Names that have been looked up are public only where there is an address, and every one is public.
pub proof fn names_are_public_by_all_their_addresses(addresses: Seq<IpAddr>, i: int)
    requires
        0 <= i < addresses.len(),
    ensures
        !public_ip(addresses[i]) ==> !all_public(addresses),
        (forall|j: int| 0 <= j < addresses.len() ==> public_ip(#[trigger] addresses[j]))
            ==> all_public(addresses),
        !all_public(Seq::empty()),
{
}

/// A number of a dotted address has one to three digits, no zero in front of others, and is at most
/// 255.
pub proof fn octets_are_small_numbers(s: Seq<char>)
    ensures
        is_octet(s) ==> 1 <= s.len() <= 3 && value(s) <= 255,
        s.len() > 1 && s[0] == '0' ==> !is_octet(s),
        s.len() == 1 && '0' <= s[0] <= '9' ==> is_octet(s),
        2 <= s.len() <= 3 && (forall|i: int| 0 <= i < s.len() ==> '0' <= #[trigger] s[i] <= '9')
            && s[0] != '0' && value(s) <= 255 ==> is_octet(s),
        (exists|i: int| 0 <= i < s.len() && !('0' <= #[trigger] s[i] <= '9')) ==> !is_octet(s),
{
    if s.len() == 1 && '0' <= s[0] <= '9' {
        assert(s.drop_last() =~= Seq::empty());
        assert(value(s.drop_last()) == 0);
        assert(value(s) <= 9);
        assert forall|i: int| 0 <= i < s.len() implies is_digit(#[trigger] s[i]) by {}
    }
    if 2 <= s.len() <= 3 && (forall|i: int| 0 <= i < s.len() ==> '0' <= #[trigger] s[i] <= '9') {
        assert forall|i: int| 0 <= i < s.len() implies is_digit(#[trigger] s[i]) by {}
    }
}

/// A name is a dotted address exactly where it is four such numbers with dots between.
pub proof fn dotted_names_have_four_numbers(name: Seq<char>)
    ensures
        is_dotted(name) <==> {
            let parts = pieces(name, "."@);
            &&& parts.len() == 4
            &&& is_octet(parts[0]) && is_octet(parts[1]) && is_octet(parts[2]) && is_octet(parts[3])
        },
{
}

} // verus!

//! The address rewriter: replaces the port of every TCP and UDP component
//! of an encoded network address, preserving every other component verbatim.
//!
//! Parsing the textual form is delegated to the multiaddr crate behind one
//! trusted wrapper; every decision and the re-encoding are verified here.
//! The canonical text of an address is the concatenation of its components'
//! canonical texts, so the re-encoding is ordinary verified string building.

use vstd::prelude::*;
use vstd::string::StrSliceExecFns;
use vstd::string::StringExecFns;
use crate::text::dec_rep;
use crate::text::push_decimal;
use crate::types::AddressError;

verus! {

/// The abstract form of one protocol component: a TCP or UDP component with
/// its port, or any other component with its canonical text (which begins
/// with `/` and names the protocol).
pub enum AddrPart {
    Tcp(u16),
    Udp(u16),
    Other(Seq<char>),
}

/// One parsed protocol component of an encoded network address.
#[derive(Debug, Clone)]
pub enum Component {
    Tcp(u16),
    Udp(u16),
    Other(String),
}

impl View for Component {
    type V = AddrPart;

    open spec fn view(&self) -> AddrPart {
        match self {
            Component::Tcp(p) => AddrPart::Tcp(*p),
            Component::Udp(p) => AddrPart::Udp(*p),
            Component::Other(t) => AddrPart::Other(t@),
        }
    }
}

/// The abstract components of a parsed component vector.
pub open spec fn parts_of(cs: Seq<Component>) -> Seq<AddrPart> {
    cs.map_values(|c: Component| c@)
}

/// The canonical text of one component.
pub open spec fn part_text(p: AddrPart) -> Seq<char> {
    match p {
        AddrPart::Tcp(port) => "/tcp/"@ + dec_rep(port as nat),
        AddrPart::Udp(port) => "/udp/"@ + dec_rep(port as nat),
        AddrPart::Other(t) => t,
    }
}

/// The canonical text of an address: its components' texts, concatenated in
/// order.
pub open spec fn addr_text(ps: Seq<AddrPart>) -> Seq<char>
    decreases ps.len(),
{
    if ps.len() == 0 {
        Seq::empty()
    } else {
        part_text(ps[0]) + addr_text(ps.drop_first())
    }
}

/// One component with its port replaced, where it has one.
pub open spec fn set_port(p: AddrPart, port: u16) -> AddrPart {
    match p {
        AddrPart::Tcp(_) => AddrPart::Tcp(port),
        AddrPart::Udp(_) => AddrPart::Udp(port),
        AddrPart::Other(t) => AddrPart::Other(t),
    }
}

/// Every TCP and UDP component's port replaced; everything else unchanged,
/// in original order.
pub open spec fn set_ports(ps: Seq<AddrPart>, port: u16) -> Seq<AddrPart> {
    ps.map_values(|p: AddrPart| set_port(p, port))
}

/// Whether a component carries a transport-layer port.
pub open spec fn is_transport(p: AddrPart) -> bool {
    p is Tcp || p is Udp
}

/// Whether any component carries a transport-layer port.
pub open spec fn has_transport(ps: Seq<AddrPart>) -> bool {
    exists|i: int| 0 <= i < ps.len() && is_transport(ps[i])
}

/// What the multiaddr parser makes of a text: `None` for text that is not a
/// syntactically valid encoded address, otherwise the ordered components.
pub uninterp spec fn parsed_of(s: Seq<char>) -> Option<Seq<AddrPart>>;

/// The meaning of a successful rewrite: an unparseable text has none; an
/// address with no transport component is returned unchanged; otherwise the
/// canonical text of the components with every transport port replaced.
pub open spec fn spec_rewrite_port(s: Seq<char>, port: u16) -> Option<Seq<char>> {
    match parsed_of(s) {
        Option::None => Option::None,
        Option::Some(ps) => Option::Some(
            if has_transport(ps) {
                addr_text(set_ports(ps, port))
            } else {
                s
            },
        ),
    }
}

/// Relies on multiaddr's `Multiaddr::from_str` and the `Display` of
/// `Multiaddr` and `Protocol`: a valid textual address parses into an
/// ordered sequence of protocol components; each component other than TCP
/// and UDP is recorded here as its own canonical text (`Protocol`'s
/// `Display`); the canonical text of an address is the concatenation of its
/// components' texts, and — the crate's round-trip guarantee — that text,
/// with any one port value substituted into every TCP and UDP component,
/// parses back to exactly those components.
#[verifier::external_body]
fn parse_components(address: &str) -> (r: Option<Vec<Component>>)
    ensures
        r is Some <==> parsed_of(address@) is Some,
        r matches Some(cs) ==> parsed_of(address@) == Some(parts_of(cs@)),
        r matches Some(cs) ==> forall|port: u16|
            parsed_of(addr_text(#[trigger] set_ports(parts_of(cs@), port))) == Some(
                set_ports(parts_of(cs@), port),
            ),
{
    let addr: multiaddr::Multiaddr = match address.parse() {
        Ok(a) => a,
        Err(_) => return None,
    };
    let mut out: Vec<Component> = Vec::new();
    for p in addr.iter() {
        match p {
            multiaddr::Protocol::Tcp(port) => out.push(Component::Tcp(port)),
            multiaddr::Protocol::Udp(port) => out.push(Component::Udp(port)),
            other => out.push(Component::Other(other.to_string())),
        }
    }
    Some(out)
}

/// Whether a text is a syntactically valid encoded network address.
pub fn address_parses(address: &str) -> (r: bool)
    ensures
        r == (parsed_of(address@) is Some),
{
    parse_components(address).is_some()
}

/// The first transport-layer port among the components, if any.
pub open spec fn first_transport_port(ps: Seq<AddrPart>) -> Option<u32>
    decreases ps.len(),
{
    if ps.len() == 0 {
        Option::None
    } else {
        match ps[0] {
            AddrPart::Tcp(p) => Option::Some(p as u32),
            AddrPart::Udp(p) => Option::Some(p as u32),
            AddrPart::Other(_) => first_transport_port(ps.drop_first()),
        }
    }
}

/// The first TCP or UDP port of an encoded address: `None` where the text
/// does not parse or no component carries a transport-layer port.
pub fn first_port(address: &str) -> (r: Option<u32>)
    ensures
        parsed_of(address@) matches Some(ps) ==> r == first_transport_port(ps),
        parsed_of(address@) is None ==> r is None,
{
    let cs = match parse_components(address) {
        Some(cs) => cs,
        None => {
            return None;
        },
    };
    let ghost ps = parts_of(cs@);
    proof {
        assert(ps.skip(0) =~= ps);
    }
    let mut i: usize = 0;
    while i < cs.len()
        invariant
            i <= cs@.len(),
            ps == parts_of(cs@),
            ps.len() == cs@.len(),
            parsed_of(address@) == Some(ps),
            first_transport_port(ps) == first_transport_port(ps.skip(i as int)),
        decreases cs@.len() - i,
    {
        proof {
            assert(ps[i as int] == cs@[i as int]@);
            assert(ps.skip(i as int)[0] == ps[i as int]);
            assert(ps.skip(i as int).drop_first() =~= ps.skip(i as int + 1));
        }
        match &cs[i] {
            Component::Tcp(p) => {
                proof {
                    assert(ps[i as int] == AddrPart::Tcp(*p));
                    assert(first_transport_port(ps.skip(i as int)) == Some(*p as u32));
                }
                return Some(*p as u32);
            },
            Component::Udp(p) => {
                proof {
                    assert(ps[i as int] == AddrPart::Udp(*p));
                    assert(first_transport_port(ps.skip(i as int)) == Some(*p as u32));
                }
                return Some(*p as u32);
            },
            Component::Other(_) => {},
        }
        i = i + 1;
    }
    proof {
        assert(ps.skip(ps.len() as int) =~= Seq::<AddrPart>::empty());
    }
    None
}

/// Concatenating one more component's text.
proof fn lemma_addr_text_push(ps: Seq<AddrPart>, x: AddrPart)
    ensures
        addr_text(ps.push(x)) == addr_text(ps) + part_text(x),
    decreases ps.len(),
{
    if ps.len() == 0 {
        assert(ps.push(x) =~= seq![x]);
        assert(seq![x].drop_first() =~= Seq::<AddrPart>::empty());
        assert(addr_text(seq![x]) == part_text(x) + addr_text(Seq::<AddrPart>::empty()));
        assert(addr_text(ps) + part_text(x) =~= part_text(x) + Seq::<char>::empty());
    } else {
        lemma_addr_text_push(ps.drop_first(), x);
        assert(ps.push(x).drop_first() =~= ps.drop_first().push(x));
        assert(addr_text(ps.push(x)) == part_text(ps[0]) + (addr_text(ps.drop_first())
            + part_text(x)));
        assert(part_text(ps[0]) + (addr_text(ps.drop_first()) + part_text(x)) =~= (part_text(ps[0])
            + addr_text(ps.drop_first())) + part_text(x));
    }
}

/// Replacing ports twice is the same as replacing them once with the later
/// port.
proof fn lemma_set_ports_again(ps: Seq<AddrPart>, p: u16, q: u16)
    ensures
        set_ports(set_ports(ps, p), q) == set_ports(ps, q),
{
    assert(set_ports(set_ports(ps, p), q) =~= set_ports(ps, q));
}

/// Replacing ports neither adds nor removes transport components.
proof fn lemma_set_ports_transport(ps: Seq<AddrPart>, p: u16)
    ensures
        has_transport(set_ports(ps, p)) == has_transport(ps),
{
    if has_transport(ps) {
        let i = choose|i: int| 0 <= i < ps.len() && is_transport(ps[i]);
        assert(is_transport(set_ports(ps, p)[i]));
    }
    if has_transport(set_ports(ps, p)) {
        let i = choose|i: int| 0 <= i < set_ports(ps, p).len() && is_transport(set_ports(ps, p)[i]);
        assert(is_transport(ps[i]));
    }
}

/// Rewrites the transport-layer ports of one encoded address.
///
/// Every TCP and UDP component's port becomes `new_port`; all other
/// components pass through unchanged, in original order.  An address with
/// no transport component is returned textually unchanged.  `Malformed`
/// exactly when the input is not a valid encoded address, `InvalidPort`
/// exactly when `new_port` does not fit a 16-bit unsigned port number.
/// Rewriting the output again, to any port, gives the same result as
/// rewriting the input to that port, so overwriting is idempotent.
pub fn rewrite_port(address: &str, new_port: u32) -> (r: Result<String, AddressError>)
    ensures
        new_port > 0xFFFF <==> r == Err::<String, AddressError>(AddressError::InvalidPort),
        new_port <= 0xFFFF && parsed_of(address@) is None <==> r == Err::<String, AddressError>(
            AddressError::Malformed,
        ),
        r matches Ok(out) ==> Some(out@) == spec_rewrite_port(address@, new_port as u16),
        r matches Ok(out) ==> (parsed_of(address@) matches Some(ps) && !has_transport(ps) ==> out@
            == address@),
        r matches Ok(out) ==> forall|q: u16| #[trigger] spec_rewrite_port(out@, q)
            == spec_rewrite_port(address@, q),
{
    if new_port > 0xFFFF {
        return Err(AddressError::InvalidPort);
    }
    let port: u16 = new_port as u16;
    let cs = match parse_components(address) {
        Some(cs) => cs,
        None => {
            return Err(AddressError::Malformed);
        },
    };
    let ghost ps = parts_of(cs@);
    let mut has_t = false;
    let mut i: usize = 0;
    while i < cs.len()
        invariant
            i <= cs@.len(),
            ps == parts_of(cs@),
            has_t ==> has_transport(ps),
            !has_t ==> forall|j: int| 0 <= j < i ==> !is_transport(ps[j]),
        decreases cs@.len() - i,
    {
        match &cs[i] {
            Component::Tcp(_) => {
                proof {
                    assert(is_transport(ps[i as int]));
                }
                has_t = true;
            },
            Component::Udp(_) => {
                proof {
                    assert(is_transport(ps[i as int]));
                }
                has_t = true;
            },
            Component::Other(_) => {},
        }
        i = i + 1;
    }
    if !has_t {
        proof {
            assert(!has_transport(ps));
        }
        return Ok(address.to_owned());
    }
    let ghost sp = set_ports(ps, port);
    let mut out = String::new();
    let mut k: usize = 0;
    while k < cs.len()
        invariant
            k <= cs@.len(),
            ps == parts_of(cs@),
            sp == set_ports(ps, port),
            out@ == addr_text(sp.take(k as int)),
        decreases cs@.len() - k,
    {
        proof {
            assert(sp.take(k as int + 1) =~= sp.take(k as int).push(sp[k as int]));
            lemma_addr_text_push(sp.take(k as int), sp[k as int]);
        }
        match &cs[k] {
            Component::Tcp(_) => {
                out.append("/tcp/");
                push_decimal(&mut out, port as u64);
                proof {
                    assert(part_text(sp[k as int]) == "/tcp/"@ + dec_rep(port as nat));
                    assert(out@ =~= addr_text(sp.take(k as int + 1)));
                }
            },
            Component::Udp(_) => {
                out.append("/udp/");
                push_decimal(&mut out, port as u64);
                proof {
                    assert(part_text(sp[k as int]) == "/udp/"@ + dec_rep(port as nat));
                    assert(out@ =~= addr_text(sp.take(k as int + 1)));
                }
            },
            Component::Other(t) => {
                out.append(t.as_str());
                proof {
                    assert(part_text(sp[k as int]) == t@);
                    assert(out@ =~= addr_text(sp.take(k as int + 1)));
                }
            },
        }
        k = k + 1;
    }
    proof {
        assert(sp.take(cs@.len() as int) =~= sp);
        assert(out@ == addr_text(sp));
        assert(parsed_of(out@) == Some(sp));
        assert forall|q: u16| #[trigger] spec_rewrite_port(out@, q) == spec_rewrite_port(
            address@,
            q,
        ) by {
            lemma_set_ports_transport(ps, port);
            lemma_set_ports_transport(sp, q);
            lemma_set_ports_again(ps, port, q);
        }
    }
    Ok(out)
}

} // verus!

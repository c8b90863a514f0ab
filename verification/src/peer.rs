//! Peers and their types.

use crate::addr::{addr_text, SocketAddr};
use vstd::prelude::*;

verus! {

/// The type of our `QuicP2p` instance: client or node.
#[derive(Debug, Clone, Copy, PartialEq, Eq, Structural)]
pub enum OurType {
    /// We are a client.
    Client,
    /// We are a node.
    Node,
}


/// What `str::to_lowercase` returns for a string.
pub uninterp spec fn lowercase(s: Seq<char>) -> Seq<char>;

/// Calls `str::to_lowercase`; its result is named `lowercase`.
#[verifier::external_body]
fn to_lowercase(s: &str) -> (r: String)
    ensures
        r@ == lowercase(s@),
{
    s.to_lowercase()
}

/// Whether a string holds exactly the characters of a literal.
fn string_is(s: &String, lit: &str) -> (r: bool)
    ensures
        r == (s@ == lit@),
{
    let expected = String::from_str(lit);
    *s == expected
}

impl OurType {
    /// Parses a type name, ignoring case: `client` or `node`.
    pub fn parse_name(s: &str) -> (r: Result<OurType, String>)
        ensures
            lowercase(s@) == "client"@ ==> r == Ok::<OurType, String>(OurType::Client),
            lowercase(s@) == "node"@ ==> r == Ok::<OurType, String>(OurType::Node),
            lowercase(s@) != "client"@ && lowercase(s@) != "node"@ ==> (r matches Err(e) && e@
                == "Unknown client type: "@ + lowercase(s@)),
    {
        let lower = to_lowercase(s);
        proof {
            reveal_strlit("client");
            reveal_strlit("node");
            assert("client"@.len() != "node"@.len());
            assert("client"@ != "node"@);
        }
        if string_is(&lower, "client") {
            Ok(OurType::Client)
        } else if string_is(&lower, "node") {
            Ok(OurType::Node)
        } else {
            let mut e = String::from_str("Unknown client type: ");
            e.append(lower.as_str());
            Err(e)
        }
    }
}

impl std::str::FromStr for OurType {
    type Err = String;

    /// Parses a type name as `parse_name` does.
    fn from_str(s: &str) -> (r: Result<Self, Self::Err>)
        ensures
            lowercase(s@) == "client"@ ==> r == Ok::<OurType, String>(OurType::Client),
            lowercase(s@) == "node"@ ==> r == Ok::<OurType, String>(OurType::Node),
            lowercase(s@) != "client"@ && lowercase(s@) != "node"@ ==> (r matches Err(e) && e@
                == "Unknown client type: "@ + lowercase(s@)),
    {
        OurType::parse_name(s)
    }
}

impl Default for OurType {
    fn default() -> (r: Self)
        ensures
            r == OurType::Node,
    {
        OurType::Node
    }
}

/// Information about a peer.
#[derive(Debug, Clone, Copy, PartialEq, Eq, Structural)]
pub enum Peer {
    /// Peer of type node.
    Node(SocketAddr),
    /// Peer of type client.
    Client(SocketAddr),
}

impl Peer {
    /// The peer of the given type at the given address.
    pub open spec fn spec_new(peer_type: OurType, addr: SocketAddr) -> Peer {
        match peer_type {
            OurType::Client => Peer::Client(addr),
            OurType::Node => Peer::Node(addr),
        }
    }

    /// The address of a peer.
    pub open spec fn addr_of(self) -> SocketAddr {
        match self {
            Peer::Node(a) => a,
            Peer::Client(a) => a,
        }
    }

    /// The type of a peer.
    pub open spec fn type_of(self) -> OurType {
        match self {
            Peer::Node(_) => OurType::Node,
            Peer::Client(_) => OurType::Client,
        }
    }

    /// Create `Peer` with the given type and address.
    pub fn new(peer_type: OurType, addr: SocketAddr) -> (r: Self)
        ensures
            r == Peer::spec_new(peer_type, addr),
    {
        match peer_type {
            OurType::Client => Peer::Client(addr),
            OurType::Node => Peer::Node(addr),
        }
    }

    /// Return the peer address.
    pub fn peer_addr(&self) -> (r: SocketAddr)
        ensures
            r == self.addr_of(),
    {
        match *self {
            Peer::Node(addr) => addr,
            Peer::Client(addr) => addr,
        }
    }

    /// Whether the peer is a node.
    pub fn is_node(&self) -> (r: bool)
        ensures
            r == (*self is Node),
    {
        match *self {
            Peer::Node(_) => true,
            Peer::Client(_) => false,
        }
    }
}

/// A peer as text: `Peer::Node(address)` or `Peer::Client(address)`.
pub open spec fn peer_text(p: Peer) -> Seq<char> {
    match p {
        Peer::Node(a) => "Peer::Node("@ + addr_text(a) + ")"@,
        Peer::Client(a) => "Peer::Client("@ + addr_text(a) + ")"@,
    }
}

impl Peer {
    /// The peer as text.
    pub fn to_display_string(&self) -> (r: String)
        ensures
            r@ == peer_text(*self),
    {
        proof {
            reveal_strlit("Peer::Node(");
            reveal_strlit("Peer::Client(");
            reveal_strlit(")");
        }
        let (mut out, a) = match *self {
            Peer::Node(a) => (String::from_str("Peer::Node("), a),
            Peer::Client(a) => (String::from_str("Peer::Client("), a),
        };
        let t = a.to_display_string();
        out.append(t.as_str());
        out.append(")");
        out
    }
}

/// A peer is made of its type and address.
pub proof fn law_peer_roundtrip(p: Peer, t: OurType, a: SocketAddr)
    ensures
        Peer::spec_new(p.type_of(), p.addr_of()) == p,
        Peer::spec_new(t, a).addr_of() == a,
        Peer::spec_new(t, a).type_of() == t,
{
}


} // verus!

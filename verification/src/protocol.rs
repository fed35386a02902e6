//! The wire protocol spoken inside and outside a network, and its three
//! string representations.

use vstd::prelude::*;

verus! {

/// Network protocol in use outside and inside a running network.
///
/// A closed set of two variants. Each variant determines three strings: an
/// internal wire-config string, an external wire-config string, and a short
/// tag used when naming endpoints and services.
#[derive(Copy, Clone, PartialEq, Eq, Structural, Debug)]
pub enum Network {
    Grpc,
    Simple,
}

/// The internal wire-config string of a protocol variant.
pub open spec fn internal_spec(n: Network) -> Seq<char> {
    match n {
        Network::Grpc => "{ Grpc = \"ClearText\" }"@,
        Network::Simple => "{ Simple = \"Tcp\" }"@,
    }
}

/// The external wire-config string of a protocol variant.
pub open spec fn external_spec(n: Network) -> Seq<char> {
    match n {
        Network::Grpc => "{ Grpc = \"ClearText\" }"@,
        Network::Simple => "{ Simple = \"Tcp\" }"@,
    }
}

/// The short tag of a protocol variant, embedded in endpoint names.
pub open spec fn external_short_spec(n: Network) -> Seq<char> {
    match n {
        Network::Grpc => "grpc"@,
        Network::Simple => "tcp"@,
    }
}

/// The protocol variant whose short tag is `s`, if any.
pub open spec fn protocol_of_short_tag(s: Seq<char>) -> Option<Network> {
    if s == external_short_spec(Network::Grpc) {
        Some(Network::Grpc)
    } else if s == external_short_spec(Network::Simple) {
        Some(Network::Simple)
    } else {
        None
    }
}

impl Network {
    /// The wire-config string used inside the network.
    pub fn internal(&self) -> (r: &'static str)
        ensures
            r@ == internal_spec(*self),
    {
        match self {
            Network::Grpc => "{ Grpc = \"ClearText\" }",
            Network::Simple => "{ Simple = \"Tcp\" }",
        }
    }

    /// The wire-config string shown to clients outside the network.
    pub fn external(&self) -> (r: &'static str)
        ensures
            r@ == external_spec(*self),
    {
        match self {
            Network::Grpc => "{ Grpc = \"ClearText\" }",
            Network::Simple => "{ Simple = \"Tcp\" }",
        }
    }

    /// The short tag used in endpoint and service names.
    pub fn external_short(&self) -> (r: &'static str)
        ensures
            r@ == external_short_spec(*self),
    {
        match self {
            Network::Grpc => "grpc",
            Network::Simple => "tcp",
        }
    }
}

/// The three representations are pure functions of the variant alone, the
/// internal and external wire-config strings coincide, and the short tag
/// identifies the variant: mapping a variant to its short tag and back
/// returns the same variant.
pub proof fn lemma_protocol_representations(n: Network)
    ensures
        internal_spec(n) == external_spec(n),
        protocol_of_short_tag(external_short_spec(n)) == Some(n),
{
    reveal_strlit("grpc");
    reveal_strlit("tcp");
    assert(external_short_spec(Network::Grpc).len() == 4);
    assert(external_short_spec(Network::Simple).len() == 3);
}

} // verus!

use vstd::prelude::*;

verus! {

/// A network address held as its raw octets.
#[derive(Clone, Copy, Debug)]
pub enum IpAddr {
    V4([u8; 4]),
    V6([u8; 16]),
}

/// The mathematical value of a `Location`.
pub enum LocationView {
    Ip(Seq<u8>),
    Uri(Seq<char>),
}

/// Where an actor or a node can be reached: a network address or a URI.
#[derive(Debug)]
pub enum Location {
    Ip(IpAddr),
    URI(String),
}

impl View for IpAddr {
    type V = Seq<u8>;

    open spec fn view(&self) -> Seq<u8> {
        match self {
            IpAddr::V4(a) => a@,
            IpAddr::V6(a) => a@,
        }
    }
}

impl View for Location {
    type V = LocationView;

    open spec fn view(&self) -> LocationView {
        match self {
            Location::Ip(a) => LocationView::Ip(a@),
            Location::URI(s) => LocationView::Uri(s@),
        }
    }
}

/// Compares two byte slices element by element.
pub fn same_bytes(a: &[u8], b: &[u8]) -> (r: bool)
    ensures
        r == (a@ == b@),
{
    if a.len() != b.len() {
        return false;
    }
    let mut i: usize = 0;
    while i < a.len()
        invariant
            a@.len() == b@.len(),
            0 <= i <= a@.len(),
            a@.subrange(0, i as int) == b@.subrange(0, i as int),
        decreases a@.len() - i,
    {
        if a[i] != b[i] {
            assert(a@[i as int] != b@[i as int]);
            return false;
        }
        assert(a@.subrange(0, i + 1) == a@.subrange(0, i as int).push(a@[i as int]));
        assert(b@.subrange(0, i + 1) == b@.subrange(0, i as int).push(b@[i as int]));
        i = i + 1;
    }
    assert(a@ == a@.subrange(0, a@.len() as int));
    assert(b@ == b@.subrange(0, b@.len() as int));
    true
}

impl Clone for Location {
    fn clone(&self) -> (r: Location)
        ensures
            r@ == self@,
    {
        match self {
            Location::Ip(a) => Location::Ip(*a),
            Location::URI(s) => Location::URI(s.clone()),
        }
    }
}

impl PartialEq for Location {
    fn eq(&self, other: &Location) -> (r: bool) {
        match (self, other) {
            (Location::Ip(IpAddr::V4(a)), Location::Ip(IpAddr::V4(b))) => same_bytes(a.as_slice(), b.as_slice()),
            (Location::Ip(IpAddr::V6(a)), Location::Ip(IpAddr::V6(b))) => same_bytes(a.as_slice(), b.as_slice()),
            (Location::URI(a), Location::URI(b)) => *a == *b,
            (Location::Ip(IpAddr::V4(a)), Location::Ip(IpAddr::V6(b))) => {
                assert(a@.len() != b@.len());
                false
            },
            (Location::Ip(IpAddr::V6(a)), Location::Ip(IpAddr::V4(b))) => {
                assert(a@.len() != b@.len());
                false
            },
            _ => false,
        }
    }
}

impl vstd::std_specs::cmp::PartialEqSpecImpl for Location {
    open spec fn obeys_eq_spec() -> bool {
        true
    }

    open spec fn eq_spec(&self, other: &Location) -> bool {
        self@ == other@
    }
}

/// This node's endpoint: the location that it records when it claims an actor.
pub struct Transport {
    local: Location,
}

impl Transport {
    /// A transport that listens at `local`.
    pub fn new(local: Location) -> (r: Transport)
        ensures
            r.local_spec() == local,
    {
        Transport { local }
    }

    pub closed spec fn local_spec(&self) -> Location {
        self.local
    }

    /// The location of this node.
    pub fn get_local(&self) -> (r: &Location)
        ensures
            *r == self.local_spec(),
    {
        &self.local
    }
}

} // verus!

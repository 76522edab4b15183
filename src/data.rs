use vstd::prelude::*;
use vstd::utf8::{decode_utf8, encode_utf8, valid_utf8};
use vstd::string::StringSliceAdditionalSpecFns;
use crate::transport::{IpAddr, Location, LocationView};

verus! {

broadcast use {vstd::utf8::encode_utf8_valid_utf8, vstd::utf8::encode_utf8_decode_utf8};

/// The mathematical value of a tagged blob: the identity of the type that
/// produced it, and the serialized value.
pub struct BlobView {
    pub tag: Seq<u8>,
    pub data: Seq<u8>,
}

/// What a blob yields when it is read as a value of the type tagged `tag`:
/// its data where the tags agree, else nothing.
pub open spec fn decode_blob(v: BlobView, tag: Seq<u8>) -> Option<Seq<u8>> {
    if v.tag == tag {
        Some(v.data)
    } else {
        None
    }
}

/// The bytes that an optional vector holds.
pub open spec fn opt_bytes(r: Option<Vec<u8>>) -> Option<Seq<u8>> {
    match r {
        Some(d) => Some(d@),
        None => None,
    }
}

/// A blob read back with the tag that it was written with yields the value
/// that was written; read with any other tag it yields nothing.
pub proof fn lemma_blob_round_trip(tag: Seq<u8>, data: Seq<u8>, other: Seq<u8>)
    requires
        other != tag,
    ensures
        decode_blob(BlobView { tag, data }, tag) == Some(data),
        decode_blob(BlobView { tag, data }, other) is None,
{
}

/// The eight little-endian bytes of `n`.
pub open spec fn le64(n: u64) -> Seq<u8> {
    seq![
        n as u8,
        (n >> 8u64) as u8,
        (n >> 16u64) as u8,
        (n >> 24u64) as u8,
        (n >> 32u64) as u8,
        (n >> 40u64) as u8,
        (n >> 48u64) as u8,
        (n >> 56u64) as u8,
    ]
}

/// The number whose little-endian bytes are the first eight of `b`.
pub open spec fn from_le64(b: Seq<u8>) -> u64
    recommends
        b.len() >= 8,
{
    (b[0] as u64) | ((b[1] as u64) << 8u64) | ((b[2] as u64) << 16u64) | ((b[3] as u64) << 24u64)
        | ((b[4] as u64) << 32u64) | ((b[5] as u64) << 40u64) | ((b[6] as u64) << 48u64) | ((
    b[7] as u64) << 56u64)
}

/// The wire form of a tagged blob: the tag's length, the tag, then the data.
pub open spec fn frame(v: BlobView) -> Seq<u8>
    recommends
        v.tag.len() <= u64::MAX,
{
    le64(v.tag.len() as u64) + v.tag + v.data
}

/// What a well-formed wire form holds; `None` where the bytes are too short
/// for the length prefix or for the tag that it announces.
pub open spec fn unframe(b: Seq<u8>) -> Option<BlobView> {
    if b.len() < 8 {
        None
    } else {
        let n = from_le64(b) as int;
        if n > b.len() - 8 {
            None
        } else {
            Some(BlobView { tag: b.subrange(8, 8 + n), data: b.subrange(8 + n, b.len() as int) })
        }
    }
}

proof fn lemma_le64_round_trip(n: u64)
    ensures
        from_le64(le64(n)) == n,
{
    let b = le64(n);
    assert(from_le64(b) == (n as u8 as u64) | (((n >> 8u64) as u8 as u64) << 8u64) | (((n
        >> 16u64) as u8 as u64) << 16u64) | (((n >> 24u64) as u8 as u64) << 24u64) | (((n
        >> 32u64) as u8 as u64) << 32u64) | (((n >> 40u64) as u8 as u64) << 40u64) | (((n
        >> 48u64) as u8 as u64) << 48u64) | (((n >> 56u64) as u8 as u64) << 56u64));
    assert((n as u8 as u64) | (((n >> 8u64) as u8 as u64) << 8u64) | (((n >> 16u64) as u8 as u64)
        << 16u64) | (((n >> 24u64) as u8 as u64) << 24u64) | (((n >> 32u64) as u8 as u64)
        << 32u64) | (((n >> 40u64) as u8 as u64) << 40u64) | (((n >> 48u64) as u8 as u64)
        << 48u64) | (((n >> 56u64) as u8 as u64) << 56u64) == n) by (bit_vector);
}

proof fn lemma_le64_canonical(b: Seq<u8>)
    requires
        b.len() == 8,
    ensures
        le64(from_le64(b)) == b,
{
    let (b0, b1, b2, b3, b4, b5, b6, b7) = (b[0], b[1], b[2], b[3], b[4], b[5], b[6], b[7]);
    let n = from_le64(b);
    assert(n == (b0 as u64) | ((b1 as u64) << 8u64) | ((b2 as u64) << 16u64) | ((b3 as u64)
        << 24u64) | ((b4 as u64) << 32u64) | ((b5 as u64) << 40u64) | ((b6 as u64) << 48u64) | ((
    b7 as u64) << 56u64));
    assert(n as u8 == b0 && (n >> 8u64) as u8 == b1 && (n >> 16u64) as u8 == b2 && (n >> 24u64) as u8
        == b3 && (n >> 32u64) as u8 == b4 && (n >> 40u64) as u8 == b5 && (n >> 48u64) as u8 == b6
        && (n >> 56u64) as u8 == b7) by (bit_vector)
        requires
            n == (b0 as u64) | ((b1 as u64) << 8u64) | ((b2 as u64) << 16u64) | ((b3 as u64)
                << 24u64) | ((b4 as u64) << 32u64) | ((b5 as u64) << 40u64) | ((b6 as u64)
                << 48u64) | ((b7 as u64) << 56u64),
    ;
    assert(le64(n) =~= b);
}

/// Reading a blob back from its wire form gives the blob that was written.
pub proof fn lemma_unframe_frame(v: BlobView)
    requires
        v.tag.len() <= u64::MAX,
    ensures
        unframe(frame(v)) == Some(v),
{
    let b = frame(v);
    let n = v.tag.len() as u64;
    lemma_le64_round_trip(n);
    assert(b.subrange(0, 8) =~= le64(n));
    assert(from_le64(b) == from_le64(b.subrange(0, 8)));
    assert(b.subrange(8, 8 + n) =~= v.tag);
    assert(b.subrange(8 + n, b.len() as int) =~= v.data);
}

/// A wire form that reads back to a blob is exactly that blob's wire form.
pub proof fn lemma_frame_unframe(b: Seq<u8>)
    requires
        unframe(b) is Some,
    ensures
        frame(unframe(b)->0) == b,
{
    let v = unframe(b)->0;
    let head = b.subrange(0, 8);
    assert(from_le64(head) == from_le64(b));
    lemma_le64_canonical(head);
    assert(frame(v) =~= b);
}

fn push_le64(out: &mut Vec<u8>, n: u64)
    ensures
        final(out)@ == old(out)@ + le64(n),
{
    out.push(n as u8);
    out.push((n >> 8) as u8);
    out.push((n >> 16) as u8);
    out.push((n >> 24) as u8);
    out.push((n >> 32) as u8);
    out.push((n >> 40) as u8);
    out.push((n >> 48) as u8);
    out.push((n >> 56) as u8);
    assert(final(out)@ =~= old(out)@ + le64(n));
}

fn read_le64(b: &[u8]) -> (r: u64)
    requires
        b@.len() >= 8,
    ensures
        r == from_le64(b@),
{
    (b[0] as u64) | ((b[1] as u64) << 8) | ((b[2] as u64) << 16) | ((b[3] as u64) << 24) | ((
    b[4] as u64) << 32) | ((b[5] as u64) << 40) | ((b[6] as u64) << 48) | ((b[7] as u64) << 56)
}

/// Appends `src[from..to]` to `out`.
fn extend_from(out: &mut Vec<u8>, src: &[u8], from: usize, to: usize)
    requires
        from <= to <= src@.len(),
    ensures
        final(out)@ == old(out)@ + src@.subrange(from as int, to as int),
{
    let mut i = from;
    while i < to
        invariant
            from <= i <= to <= src@.len(),
            out@ == old(out)@ + src@.subrange(from as int, i as int),
        decreases to - i,
    {
        out.push(src[i]);
        assert(src@.subrange(from as int, i + 1) == src@.subrange(from as int, i as int).push(
            src@[i as int],
        ));
        i = i + 1;
    }
}

fn frame_bytes(tag: &Vec<u8>, data: &Vec<u8>) -> (r: Vec<u8>)
    ensures
        r@ == frame(BlobView { tag: tag@, data: data@ }),
{
    let mut out: Vec<u8> = Vec::new();
    push_le64(&mut out, tag.len() as u64);
    extend_from(&mut out, tag.as_slice(), 0, tag.len());
    extend_from(&mut out, data.as_slice(), 0, data.len());
    assert(tag@.subrange(0, tag@.len() as int) == tag@);
    assert(data@.subrange(0, data@.len() as int) == data@);
    out
}

fn unframe_bytes(bytes: &[u8]) -> (r: Option<(Vec<u8>, Vec<u8>)>)
    ensures
        r is Some == unframe(bytes@) is Some,
        r matches Some(p) ==> unframe(bytes@) == Some(BlobView { tag: p.0@, data: p.1@ }),
{
    if bytes.len() < 8 {
        return None;
    }
    let n = read_le64(bytes);
    if n as usize as u64 != n || n as usize > bytes.len() - 8 {
        return None;
    }
    let end = 8 + n as usize;
    let mut tag: Vec<u8> = Vec::new();
    extend_from(&mut tag, bytes, 8, end);
    let mut data: Vec<u8> = Vec::new();
    extend_from(&mut data, bytes, end, bytes.len());
    Some((tag, data))
}

/// Compares two byte vectors element by element.
fn same_vec(a: &Vec<u8>, b: &[u8]) -> (r: bool)
    ensures
        r == (a@ == b@),
{
    crate::transport::same_bytes(a.as_slice(), b)
}

fn copy_vec(a: &Vec<u8>) -> (r: Vec<u8>)
    ensures
        r@ == a@,
{
    let mut out: Vec<u8> = Vec::new();
    extend_from(&mut out, a.as_slice(), 0, a.len());
    assert(a@.subrange(0, a@.len() as int) == a@);
    out
}

/// A key in its type-erased form: the key type's identity and the key's bytes.
pub struct KeyBlob {
    tag: Vec<u8>,
    data: Vec<u8>,
}

impl View for KeyBlob {
    type V = BlobView;

    closed spec fn view(&self) -> BlobView {
        BlobView { tag: self.tag@, data: self.data@ }
    }
}

impl KeyBlob {
    /// A blob for the key serialized as `data`, produced by the type tagged `tag`.
    pub fn new(tag: Vec<u8>, data: Vec<u8>) -> (r: KeyBlob)
        ensures
            r@ == (BlobView { tag: tag@, data: data@ }),
    {
        KeyBlob { tag, data }
    }

    /// The identity of the type that produced this blob.
    pub fn tag(&self) -> (r: &Vec<u8>)
        ensures
            r@ == self@.tag,
    {
        &self.tag
    }

    /// The serialized key.
    pub fn data(&self) -> (r: &Vec<u8>)
        ensures
            r@ == self@.data,
    {
        &self.data
    }

    /// The serialized key, provided the blob was produced by the type named
    /// `tag`; `None` for a blob of any other type.
    pub fn into_key(self, tag: &[u8]) -> (r: Option<Vec<u8>>)
        ensures
            opt_bytes(r) == decode_blob(self@, tag@),
    {
        if same_vec(&self.tag, tag) {
            Some(self.data)
        } else {
            None
        }
    }

    /// Whether both blobs name the same key of the same type.
    pub fn same_key(&self, other: &KeyBlob) -> (r: bool)
        ensures
            r == (self@ == other@),
    {
        same_vec(&self.tag, other.tag.as_slice()) && same_vec(&self.data, other.data.as_slice())
    }

    /// The wire form of this blob.
    pub fn to_bytes(&self) -> (r: Vec<u8>)
        ensures
            r@ == frame(self@),
    {
        frame_bytes(&self.tag, &self.data)
    }

    /// The blob whose wire form is `bytes`; `None` where `bytes` is no wire form.
    pub fn from_bytes(bytes: &[u8]) -> (r: Option<KeyBlob>)
        ensures
            r is Some == unframe(bytes@) is Some,
            r matches Some(k) ==> unframe(bytes@) == Some(k@),
    {
        match unframe_bytes(bytes) {
            Some((tag, data)) => Some(KeyBlob { tag, data }),
            None => None,
        }
    }
}

impl Clone for KeyBlob {
    fn clone(&self) -> (r: KeyBlob)
        ensures
            r@ == self@,
    {
        KeyBlob { tag: copy_vec(&self.tag), data: copy_vec(&self.data) }
    }
}

/// An actor's state in its type-erased form: the actor type's identity and
/// the serialized state.
pub struct ActorBlob {
    tag: Vec<u8>,
    data: Vec<u8>,
}

impl View for ActorBlob {
    type V = BlobView;

    closed spec fn view(&self) -> BlobView {
        BlobView { tag: self.tag@, data: self.data@ }
    }
}

impl ActorBlob {
    /// A blob for the actor state serialized as `data`, of the type tagged `tag`.
    pub fn new(tag: Vec<u8>, data: Vec<u8>) -> (r: ActorBlob)
        ensures
            r@ == (BlobView { tag: tag@, data: data@ }),
    {
        ActorBlob { tag, data }
    }

    /// The identity of the type that produced this blob.
    pub fn tag(&self) -> (r: &Vec<u8>)
        ensures
            r@ == self@.tag,
    {
        &self.tag
    }

    /// The serialized actor state.
    pub fn data(&self) -> (r: &Vec<u8>)
        ensures
            r@ == self@.data,
    {
        &self.data
    }

    /// The serialized actor state, provided the blob was produced by the
    /// type named `tag`; `None` for a blob of any other type.
    pub fn into_actor(self, tag: &[u8]) -> (r: Option<Vec<u8>>)
        ensures
            opt_bytes(r) == decode_blob(self@, tag@),
    {
        if same_vec(&self.tag, tag) {
            Some(self.data)
        } else {
            None
        }
    }

    /// The wire form of this blob.
    pub fn to_bytes(&self) -> (r: Vec<u8>)
        ensures
            r@ == frame(self@),
    {
        frame_bytes(&self.tag, &self.data)
    }

    /// The blob whose wire form is `bytes`; `None` where `bytes` is no wire form.
    pub fn from_bytes(bytes: &[u8]) -> (r: Option<ActorBlob>)
        ensures
            r is Some == unframe(bytes@) is Some,
            r matches Some(a) ==> unframe(bytes@) == Some(a@),
    {
        match unframe_bytes(bytes) {
            Some((tag, data)) => Some(ActorBlob { tag, data }),
            None => None,
        }
    }
}

impl Clone for ActorBlob {
    fn clone(&self) -> (r: ActorBlob)
        ensures
            r@ == self@,
    {
        ActorBlob { tag: copy_vec(&self.tag), data: copy_vec(&self.data) }
    }
}

/// Relies on `String::from_utf8`: it accepts exactly the valid UTF-8 byte
/// sequences, and then holds the characters that they encode.
#[verifier::external_body]
fn string_from_utf8(bytes: Vec<u8>) -> (r: Option<String>)
    ensures
        r is Some == valid_utf8(bytes@),
        r matches Some(s) ==> encode_utf8(s@) == bytes@,
{
    String::from_utf8(bytes).ok()
}

/// The bytes of a location: a kind byte (0 for a four-octet address, 1 for a
/// sixteen-octet address, 2 for a URI), then the octets or the URI in UTF-8.
pub open spec fn location_bytes(l: LocationView) -> Seq<u8> {
    match l {
        LocationView::Ip(a) => if a.len() == 4 {
            seq![0u8] + a
        } else {
            seq![1u8] + a
        },
        LocationView::Uri(s) => seq![2u8] + encode_utf8(s),
    }
}

/// The location that `b` holds; `None` for an unknown kind byte, a wrong
/// number of octets, or a URI that is not valid UTF-8.
pub open spec fn decode_location(b: Seq<u8>) -> Option<LocationView> {
    if b.len() == 0 {
        None
    } else if b[0] == 0 && b.len() == 5 {
        Some(LocationView::Ip(b.drop_first()))
    } else if b[0] == 1 && b.len() == 17 {
        Some(LocationView::Ip(b.drop_first()))
    } else if b[0] == 2 && valid_utf8(b.drop_first()) {
        Some(LocationView::Uri(decode_utf8(b.drop_first())))
    } else {
        None
    }
}

/// What a location blob yields when it is read as the type tagged `tag`:
/// nothing where the tags differ, else the location that its data holds.
pub open spec fn decode_location_blob(v: BlobView, tag: Seq<u8>) -> Option<LocationView> {
    match decode_blob(v, tag) {
        Some(d) => decode_location(d),
        None => None,
    }
}

/// The view of an optional location.
pub open spec fn opt_location(r: Option<Location>) -> Option<LocationView> {
    match r {
        Some(l) => Some(l@),
        None => None,
    }
}

/// A location blob read back with the tag that it was written with yields
/// the location that was written; read with any other tag it yields nothing.
pub proof fn lemma_location_round_trip(tag: Seq<u8>, l: &Location, other: Seq<u8>)
    requires
        other != tag,
    ensures
        decode_location_blob(BlobView { tag, data: location_bytes(l@) }, tag) == Some(l@),
        decode_location_blob(BlobView { tag, data: location_bytes(l@) }, other) is None,
{
    let b = location_bytes(l@);
    match l {
        Location::Ip(IpAddr::V4(a)) => assert(b.drop_first() =~= a@),
        Location::Ip(IpAddr::V6(a)) => assert(b.drop_first() =~= a@),
        Location::URI(s) => assert(b.drop_first() =~= encode_utf8(s@)),
    }
}

fn location_to_bytes(location: &Location) -> (r: Vec<u8>)
    ensures
        r@ == location_bytes(location@),
{
    let mut data: Vec<u8> = Vec::new();
    match location {
        Location::Ip(IpAddr::V4(a)) => {
            data.push(0u8);
            extend_from(&mut data, a.as_slice(), 0, 4);
            assert(a@.subrange(0, 4) == a@);
        },
        Location::Ip(IpAddr::V6(a)) => {
            data.push(1u8);
            extend_from(&mut data, a.as_slice(), 0, 16);
            assert(a@.subrange(0, 16) == a@);
        },
        Location::URI(s) => {
            data.push(2u8);
            let bytes = s.as_str().as_bytes_vec();
            extend_from(&mut data, bytes.as_slice(), 0, bytes.len());
            assert(bytes@.subrange(0, bytes@.len() as int) == bytes@);
        },
    }
    data
}

fn bytes_to_location(d: Vec<u8>) -> (r: Option<Location>)
    ensures
        opt_location(r) == decode_location(d@),
{
    let n = d.len();
    if n == 0 {
        None
    } else if d[0] == 0 && n == 5 {
        let a: [u8; 4] = [d[1], d[2], d[3], d[4]];
        assert(a@ =~= d@.drop_first());
        Some(Location::Ip(IpAddr::V4(a)))
    } else if d[0] == 1 && n == 17 {
        let a: [u8; 16] = [
            d[1], d[2], d[3], d[4], d[5], d[6], d[7], d[8],
            d[9], d[10], d[11], d[12], d[13], d[14], d[15], d[16],
        ];
        assert(a@ =~= d@.drop_first());
        Some(Location::Ip(IpAddr::V6(a)))
    } else if d[0] == 2 {
        let mut rest: Vec<u8> = Vec::new();
        extend_from(&mut rest, d.as_slice(), 1, n);
        assert(rest@ =~= d@.drop_first());
        match string_from_utf8(rest) {
            Some(s) => {
                proof {
                    vstd::utf8::decode_utf8_encode_utf8(d@.drop_first());
                    vstd::utf8::encode_utf8_decode_utf8(s@);
                }
                Some(Location::URI(s))
            },
            None => None,
        }
    } else {
        None
    }
}

/// A location in its transportable form: the location type's identity and
/// the location's bytes.
pub struct LocationBlob {
    tag: Vec<u8>,
    data: Vec<u8>,
}

impl View for LocationBlob {
    type V = BlobView;

    closed spec fn view(&self) -> BlobView {
        BlobView { tag: self.tag@, data: self.data@ }
    }
}

impl LocationBlob {
    /// The blob of `location`, tagged `tag`.
    pub fn new(tag: Vec<u8>, location: &Location) -> (r: LocationBlob)
        ensures
            r@ == (BlobView { tag: tag@, data: location_bytes(location@) }),
    {
        LocationBlob { tag, data: location_to_bytes(location) }
    }

    /// The identity of the type that produced this blob.
    pub fn tag(&self) -> (r: &Vec<u8>)
        ensures
            r@ == self@.tag,
    {
        &self.tag
    }

    /// The bytes of the location.
    pub fn data(&self) -> (r: &Vec<u8>)
        ensures
            r@ == self@.data,
    {
        &self.data
    }

    /// The location that this blob holds, provided it was produced by the
    /// type tagged `tag`; `None` for a blob of any other type or for bytes
    /// that hold no location.
    pub fn into_location(self, tag: &[u8]) -> (r: Option<Location>)
        ensures
            opt_location(r) == decode_location_blob(self@, tag@),
            r is Some ==> self@.tag == tag@,
    {
        if same_vec(&self.tag, tag) {
            bytes_to_location(self.data)
        } else {
            None
        }
    }

    /// The wire form of this blob.
    pub fn to_bytes(&self) -> (r: Vec<u8>)
        ensures
            r@ == frame(self@),
    {
        frame_bytes(&self.tag, &self.data)
    }

    /// The blob whose wire form is `bytes`; `None` where `bytes` is no wire form.
    pub fn from_bytes(bytes: &[u8]) -> (r: Option<LocationBlob>)
        ensures
            r is Some == unframe(bytes@) is Some,
            r matches Some(b) ==> unframe(bytes@) == Some(b@),
    {
        match unframe_bytes(bytes) {
            Some((tag, data)) => Some(LocationBlob { tag, data }),
            None => None,
        }
    }
}

} // verus!

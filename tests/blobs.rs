use broadway::data::{ActorBlob, KeyBlob, LocationBlob};
use broadway::transport::{IpAddr, Location, Transport};

#[test]
fn key_blob_decodes_with_its_own_tag() {
    let blob = KeyBlob::new(b"Counter".to_vec(), vec![7, 0, 0, 0]);
    assert_eq!(blob.tag(), &b"Counter".to_vec());
    assert_eq!(blob.data(), &vec![7, 0, 0, 0]);
    assert_eq!(blob.into_key(b"Counter"), Some(vec![7, 0, 0, 0]));
}

#[test]
fn key_blob_refuses_another_tag() {
    let blob = KeyBlob::new(b"Counter".to_vec(), vec![7, 0, 0, 0]);
    assert_eq!(blob.into_key(b"Account"), None);
    let blob = KeyBlob::new(b"Counter".to_vec(), vec![7]);
    assert_eq!(blob.into_key(b"Counte"), None);
}

#[test]
fn actor_blob_decodes_only_with_its_own_tag() {
    let blob = ActorBlob::new(b"Counter".to_vec(), vec![1, 2, 3]);
    assert_eq!(blob.clone().into_actor(b"Counter"), Some(vec![1, 2, 3]));
    assert_eq!(blob.into_actor(b"Other"), None);
}

#[test]
fn key_blob_wire_form_is_exact() {
    let blob = KeyBlob::new(b"abc".to_vec(), vec![1, 2]);
    assert_eq!(blob.to_bytes(), vec![3, 0, 0, 0, 0, 0, 0, 0, b'a', b'b', b'c', 1, 2]);
}

#[test]
fn key_blob_wire_round_trip() {
    let blob = KeyBlob::new(b"Counter".to_vec(), vec![9, 8, 7]);
    let back = KeyBlob::from_bytes(&blob.to_bytes()).unwrap();
    assert!(back.same_key(&blob));
    let empty = KeyBlob::new(vec![], vec![]);
    let back = KeyBlob::from_bytes(&empty.to_bytes()).unwrap();
    assert_eq!(back.tag(), &Vec::<u8>::new());
    assert_eq!(back.data(), &Vec::<u8>::new());
}

#[test]
fn key_blob_from_bad_bytes_is_none() {
    assert!(KeyBlob::from_bytes(&[3, 0, 0]).is_none());
    assert!(KeyBlob::from_bytes(&[3, 0, 0, 0, 0, 0, 0, 0, b'a', b'b']).is_none());
    assert!(KeyBlob::from_bytes(&[255, 255, 255, 255, 255, 255, 255, 255, 1]).is_none());
}

#[test]
fn actor_blob_wire_round_trip() {
    let blob = ActorBlob::new(b"A".to_vec(), vec![5]);
    let bytes = blob.to_bytes();
    assert_eq!(bytes, vec![1, 0, 0, 0, 0, 0, 0, 0, b'A', 5]);
    let back = ActorBlob::from_bytes(&bytes).unwrap();
    assert_eq!(back.tag(), &b"A".to_vec());
    assert_eq!(back.data(), &vec![5]);
}

#[test]
fn same_key_compares_tag_and_data() {
    let a = KeyBlob::new(b"T".to_vec(), vec![1]);
    assert!(a.same_key(&KeyBlob::new(b"T".to_vec(), vec![1])));
    assert!(!a.same_key(&KeyBlob::new(b"U".to_vec(), vec![1])));
    assert!(!a.same_key(&KeyBlob::new(b"T".to_vec(), vec![2])));
}

fn loc_tag() -> Vec<u8> {
    b"Location".to_vec()
}

#[test]
fn location_blob_bytes_are_exact() {
    let v4 = Location::Ip(IpAddr::V4([127, 0, 0, 1]));
    let blob = LocationBlob::new(loc_tag(), &v4);
    assert_eq!(blob.tag(), &loc_tag());
    assert_eq!(blob.data(), &vec![0, 127, 0, 0, 1]);
    let uri = Location::URI("é".to_string());
    assert_eq!(LocationBlob::new(loc_tag(), &uri).data(), &vec![2, 0xc3, 0xa9]);
    let wire = LocationBlob::new(b"L".to_vec(), &v4).to_bytes();
    assert_eq!(wire, vec![1, 0, 0, 0, 0, 0, 0, 0, b'L', 0, 127, 0, 0, 1]);
}

#[test]
fn location_blob_round_trip() {
    let cases = vec![
        Location::Ip(IpAddr::V4([10, 1, 2, 3])),
        Location::Ip(IpAddr::V6([0, 1, 2, 3, 4, 5, 6, 7, 8, 9, 10, 11, 12, 13, 14, 255])),
        Location::URI("tcp://node-1:4000/é".to_string()),
        Location::URI(String::new()),
    ];
    for l in cases {
        assert_eq!(LocationBlob::new(loc_tag(), &l).into_location(&loc_tag()), Some(l.clone()));
        let wire = LocationBlob::new(loc_tag(), &l).to_bytes();
        let back = LocationBlob::from_bytes(&wire).unwrap();
        assert_eq!(back.into_location(&loc_tag()), Some(l.clone()));
    }
}

#[test]
fn location_blob_refuses_another_tag() {
    let l = Location::Ip(IpAddr::V4([10, 1, 2, 3]));
    assert_eq!(LocationBlob::new(loc_tag(), &l).into_location(b"Counter"), None);
}

#[test]
fn key_blob_wire_form_is_no_location() {
    // A key blob's wire form whose data would read as a sixteen-octet address.
    let key = KeyBlob::new(b"K".to_vec(), vec![1; 17]);
    let blob = LocationBlob::from_bytes(&key.to_bytes()).unwrap();
    assert_eq!(blob.into_location(&loc_tag()), None);
}

/// A blob tagged as a location whose data is `data`.
fn location_blob_of(data: Vec<u8>) -> LocationBlob {
    LocationBlob::from_bytes(&KeyBlob::new(loc_tag(), data).to_bytes()).unwrap()
}

#[test]
fn location_blob_refuses_bad_bytes() {
    assert_eq!(location_blob_of(vec![]).into_location(&loc_tag()), None);
    assert_eq!(location_blob_of(vec![0, 1, 2, 3]).into_location(&loc_tag()), None);
    assert_eq!(location_blob_of(vec![1, 1, 2, 3, 4]).into_location(&loc_tag()), None);
    assert_eq!(location_blob_of(vec![2, 0xff, 0xfe]).into_location(&loc_tag()), None);
    assert_eq!(location_blob_of(vec![7, 1]).into_location(&loc_tag()), None);
    assert!(LocationBlob::from_bytes(&[1, 0]).is_none());
}

#[test]
fn locations_compare_by_value() {
    let a = Location::Ip(IpAddr::V4([1, 2, 3, 4]));
    assert_eq!(a, Location::Ip(IpAddr::V4([1, 2, 3, 4])));
    assert_ne!(a, Location::Ip(IpAddr::V4([1, 2, 3, 5])));
    assert_ne!(a, Location::URI("1.2.3.4".to_string()));
    assert_eq!(Location::URI("x".to_string()), Location::URI("x".to_string()));
}

#[test]
fn transport_reports_its_location() {
    let t = Transport::new(Location::URI("node-a".to_string()));
    assert_eq!(t.get_local(), &Location::URI("node-a".to_string()));
}

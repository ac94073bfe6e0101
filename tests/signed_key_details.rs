use chrono::TimeDelta;
use signed_key::{
    Error, KeyFlags, Packet, PublicKeyTrait, PublicOrSecret, RevocationKey, Signature,
    SignatureType, SignedKeyDetails, SignedPublicKey, SignedSecretKey, SignedUser,
    SignedUserAttribute, UserAttribute,
};

#[derive(Clone, Debug, PartialEq, Eq)]
struct TestKey {
    id: u8,
}

impl TestKey {
    fn seal(&self) -> Vec<u8> {
        vec![self.id, self.id ^ 0x5a]
    }
}

impl PublicKeyTrait for TestKey {
    fn accepts(&self, sig: Signature) -> bool {
        sig.issuer == vec![self.id] && sig.signature == self.seal()
    }

    fn verify_signature(&self, sig: &Signature) -> bool {
        self.accepts(sig.clone())
    }
}

const KEY: TestKey = TestKey { id: 7 };

fn sig(typ: SignatureType) -> Signature {
    Signature {
        typ,
        is_primary: false,
        key_expiration_time: None,
        key_flags: KeyFlags::default(),
        preferred_symmetric_algs: vec![],
        preferred_hash_algs: vec![],
        preferred_compression_algs: vec![],
        preferred_aead_algs: vec![],
        revocation_key: None,
        issuer: vec![KEY.id],
        signature: KEY.seal(),
    }
}

fn cert() -> Signature {
    sig(SignatureType::Certification)
}

fn user(id: &str, signatures: Vec<Signature>) -> SignedUser {
    SignedUser {
        id: id.to_string(),
        signatures,
    }
}

fn attr(kind: u8, data: Vec<u8>, signatures: Vec<Signature>) -> SignedUserAttribute {
    SignedUserAttribute {
        attr: UserAttribute { kind, data },
        signatures,
    }
}

fn expiring(secs: u32) -> Signature {
    let mut s = cert();
    s.key_expiration_time = Some(secs);
    s
}

fn rich(flags: u8, sym: Vec<u8>, hash: Vec<u8>, primary: bool) -> Signature {
    let mut s = cert();
    s.is_primary = primary;
    s.key_flags = KeyFlags { bits: flags };
    s.preferred_symmetric_algs = sym;
    s.preferred_hash_algs = hash;
    s.preferred_compression_algs = vec![1, 2];
    s.preferred_aead_algs = vec![2];
    s.revocation_key = Some(RevocationKey {
        class: 0x80,
        algorithm: 1,
        fingerprint: [flags; 20],
    });
    s
}

fn full_details() -> SignedKeyDetails {
    SignedKeyDetails::new(
        vec![sig(SignatureType::KeyRevocation)],
        vec![sig(SignatureType::DirectKey)],
        vec![user("alice", vec![cert(), cert()]), user("bob", vec![cert()])],
        vec![attr(1, vec![9, 9], vec![cert()])],
    )
}

fn corrupt(s: &mut Signature) {
    s.signature[1] ^= 0xff;
}

#[test]
fn construction_drops_unsigned_users() {
    let d = SignedKeyDetails::new(
        vec![],
        vec![],
        vec![user("A", vec![cert()]), user("B", vec![])],
        vec![],
    );
    assert_eq!(d.users, vec![user("A", vec![cert()])]);
}

#[test]
fn construction_keeps_order_and_drops_unsigned_attributes() {
    let d = SignedKeyDetails::new(
        vec![sig(SignatureType::KeyRevocation)],
        vec![sig(SignatureType::DirectKey)],
        vec![
            user("a", vec![]),
            user("b", vec![cert()]),
            user("c", vec![]),
            user("d", vec![cert(), cert()]),
        ],
        vec![attr(1, vec![1], vec![]), attr(2, vec![2], vec![cert()])],
    );
    let ids: Vec<&str> = d.users.iter().map(|u| u.id.as_str()).collect();
    assert_eq!(ids, vec!["b", "d"]);
    assert_eq!(d.user_attributes, vec![attr(2, vec![2], vec![cert()])]);
    assert_eq!(d.revocation_signatures, vec![sig(SignatureType::KeyRevocation)]);
    assert_eq!(d.direct_signatures, vec![sig(SignatureType::DirectKey)]);
}

#[test]
fn construction_of_nothing_is_empty() {
    let d = SignedKeyDetails::new(vec![], vec![], vec![], vec![]);
    assert!(d.users.is_empty());
    assert!(d.user_attributes.is_empty());
}

#[test]
fn verify_accepts_all_valid() {
    assert_eq!(full_details().verify(&KEY), Ok(()));
}

#[test]
fn verify_rejects_other_key() {
    assert_eq!(
        full_details().verify(&TestKey { id: 8 }),
        Err(Error::InvalidSignature)
    );
}

#[test]
fn verify_rejects_corrupt_user_signature() {
    let mut d = full_details();
    corrupt(&mut d.users[1].signatures[0]);
    assert_eq!(d.verify(&KEY), Err(Error::InvalidSignature));
}

#[test]
fn verify_rejects_corrupt_attribute_signature() {
    let mut d = full_details();
    corrupt(&mut d.user_attributes[0].signatures[0]);
    assert_eq!(d.verify(&KEY), Err(Error::InvalidSignature));
}

#[test]
fn verify_rejects_corrupt_revocation_signature() {
    let mut d = full_details();
    corrupt(&mut d.revocation_signatures[0]);
    assert_eq!(d.verify(&KEY), Err(Error::InvalidSignature));
}

#[test]
fn verify_rejects_corrupt_direct_signature() {
    let mut d = full_details();
    corrupt(&mut d.direct_signatures[0]);
    assert_eq!(d.verify(&KEY), Err(Error::InvalidSignature));
}

#[test]
fn verify_of_empty_details_succeeds() {
    let d = SignedKeyDetails::new(vec![], vec![], vec![], vec![]);
    assert_eq!(d.verify(&KEY), Ok(()));
}

#[test]
fn as_unsigned_without_users_is_bare() {
    let d = SignedKeyDetails::new(vec![], vec![], vec![], vec![attr(1, vec![4, 5], vec![cert()])]);
    let u = d.as_unsigned();
    assert!(u.user_ids.is_empty());
    assert_eq!(u.user_attributes, vec![UserAttribute { kind: 1, data: vec![4, 5] }]);
    assert_eq!(u.keyflags, KeyFlags::default());
    assert_eq!(u.keyflags.bits, 0);
    assert!(u.preferred_symmetric_algorithms.0.is_empty());
    assert!(u.preferred_hash_algorithms.0.is_empty());
    assert!(u.preferred_compression_algorithms.0.is_empty());
    assert!(u.preferred_aead_algorithms.0.is_empty());
    assert_eq!(u.revocation_key, None);
}

#[test]
fn as_unsigned_falls_back_to_first_user() {
    let d = SignedKeyDetails::new(
        vec![],
        vec![],
        vec![
            user("first", vec![rich(0x03, vec![9, 7], vec![10, 8], false), rich(0x0c, vec![1], vec![2], false)]),
            user("second", vec![rich(0x0c, vec![3], vec![11], false)]),
        ],
        vec![attr(1, vec![1], vec![cert()]), attr(2, vec![2, 2], vec![cert()])],
    );
    let u = d.as_unsigned();
    assert_eq!(u.user_ids, vec!["first".to_string(), "second".to_string()]);
    assert_eq!(
        u.user_attributes,
        vec![
            UserAttribute { kind: 1, data: vec![1] },
            UserAttribute { kind: 2, data: vec![2, 2] }
        ]
    );
    assert_eq!(u.keyflags.bits, 0x03);
    assert_eq!(u.preferred_symmetric_algorithms.0.as_slice(), &[9u8, 7][..]);
    assert_eq!(u.preferred_hash_algorithms.0.as_slice(), &[10u8, 8][..]);
    assert_eq!(u.preferred_compression_algorithms.0.as_slice(), &[1u8, 2][..]);
    assert_eq!(u.preferred_aead_algorithms.0.as_slice(), &[2u8][..]);
    assert_eq!(u.revocation_key.map(|k| k.fingerprint), Some([0x03; 20]));
}

#[test]
fn as_unsigned_prefers_flagged_primary() {
    let d = SignedKeyDetails::new(
        vec![],
        vec![],
        vec![
            user("plain", vec![rich(0x01, vec![1], vec![1], false)]),
            user("chosen", vec![rich(0x02, vec![2, 3], vec![4], false), rich(0x04, vec![5], vec![6], true)]),
            user("later", vec![rich(0x08, vec![7], vec![8], true)]),
        ],
        vec![],
    );
    let u = d.as_unsigned();
    assert_eq!(u.user_ids.len(), 3);
    assert_eq!(u.keyflags.bits, 0x02);
    assert_eq!(u.preferred_symmetric_algorithms.0.as_slice(), &[2u8, 3][..]);
    assert_eq!(u.preferred_hash_algorithms.0.as_slice(), &[4u8][..]);
}

#[test]
fn key_expiration_is_the_largest_user_offset() {
    let mut direct = sig(SignatureType::DirectKey);
    direct.key_expiration_time = Some(999_999);
    let d = SignedKeyDetails::new(
        vec![],
        vec![direct],
        vec![
            user("a", vec![expiring(100), cert()]),
            user("b", vec![expiring(3600), expiring(50)]),
        ],
        vec![attr(1, vec![1], vec![expiring(777_777)])],
    );
    assert_eq!(d.max_key_expiration(), Some(3600));
    assert_eq!(d.key_expiration_time(), Some(TimeDelta::seconds(3600)));
}

#[test]
fn key_expiration_ties_give_the_common_value() {
    let d = SignedKeyDetails::new(
        vec![],
        vec![],
        vec![user("a", vec![expiring(86400)]), user("b", vec![expiring(86400)])],
        vec![],
    );
    assert_eq!(d.key_expiration_time(), Some(TimeDelta::seconds(86400)));
}

#[test]
fn key_expiration_largest_offset() {
    let d = SignedKeyDetails::new(vec![], vec![], vec![user("a", vec![expiring(u32::MAX)])], vec![]);
    assert_eq!(d.key_expiration_time(), Some(TimeDelta::seconds(4_294_967_295)));
}

#[test]
fn key_expiration_absent_means_none() {
    let d = SignedKeyDetails::new(
        vec![],
        vec![],
        vec![user("a", vec![cert()])],
        vec![attr(1, vec![1], vec![expiring(10)])],
    );
    assert_eq!(d.max_key_expiration(), None);
    assert_eq!(d.key_expiration_time(), None);
    let empty = SignedKeyDetails::new(vec![], vec![], vec![], vec![]);
    assert_eq!(empty.key_expiration_time(), None);
}

#[test]
fn packets_follow_wire_order() {
    let rev = sig(SignatureType::KeyRevocation);
    let direct = sig(SignatureType::DirectKey);
    let s1 = expiring(1);
    let s2 = expiring(2);
    let s3 = expiring(3);
    let d = SignedKeyDetails::new(
        vec![rev.clone()],
        vec![direct.clone()],
        vec![user("a", vec![s1.clone(), s2.clone()])],
        vec![attr(5, vec![6], vec![s3.clone()])],
    );
    let packets = d.into_packets();
    assert_eq!(
        packets,
        vec![
            Packet::Signature(rev),
            Packet::Signature(direct),
            Packet::UserId("a".to_string()),
            Packet::Signature(s1),
            Packet::Signature(s2),
            Packet::UserAttribute(UserAttribute { kind: 5, data: vec![6] }),
            Packet::Signature(s3),
        ]
    );
}

fn public_cert() -> PublicOrSecret<TestKey> {
    PublicOrSecret::Public(SignedPublicKey {
        primary_key: KEY,
        details: full_details(),
    })
}

fn secret_cert() -> PublicOrSecret<TestKey> {
    PublicOrSecret::Secret(SignedSecretKey {
        primary_key: KEY,
        secret_params: vec![1, 2, 3],
        details: full_details(),
    })
}

#[test]
fn variant_kinds_are_exclusive() {
    let p = public_cert();
    let s = secret_cert();
    assert!(p.is_public() && !p.is_secret());
    assert!(s.is_secret() && !s.is_public());
}

#[test]
fn variant_narrowing_returns_inner_value() {
    let s = secret_cert().into_secret();
    assert_eq!(s.secret_params, vec![1, 2, 3]);
    let p = public_cert().into_public();
    assert_eq!(p.details, full_details());
}

#[test]
fn variant_verify_dispatches() {
    assert_eq!(public_cert().verify(), Ok(()));
    assert_eq!(secret_cert().verify(), Ok(()));
    let mut bad = SignedSecretKey {
        primary_key: KEY,
        secret_params: vec![],
        details: full_details(),
    };
    corrupt(&mut bad.details.users[0].signatures[1]);
    assert_eq!(PublicOrSecret::Secret(bad).verify(), Err(Error::InvalidSignature));
    let other = PublicOrSecret::Public(SignedPublicKey {
        primary_key: TestKey { id: 1 },
        details: full_details(),
    });
    assert_eq!(other.verify(), Err(Error::InvalidSignature));
}

#[test]
fn packets_round_trip_to_equal_details() {
    let d = SignedKeyDetails::new(
        vec![sig(SignatureType::KeyRevocation), sig(SignatureType::KeyRevocation)],
        vec![sig(SignatureType::DirectKey)],
        vec![
            user("one", vec![expiring(5)]),
            user("two", vec![cert(), expiring(9)]),
        ],
        vec![attr(1, vec![3], vec![cert()]), attr(2, vec![], vec![expiring(1), cert()])],
    );
    let back = SignedKeyDetails::from_packets(d.clone().into_packets());
    assert_eq!(back, d);
    let ids: Vec<&str> = back.users.iter().map(|u| u.id.as_str()).collect();
    assert_eq!(ids, vec!["one", "two"]);
}

#[test]
fn packets_group_signatures_under_preceding_identity() {
    let packets = vec![
        Packet::Signature(sig(SignatureType::DirectKey)),
        Packet::Signature(sig(SignatureType::KeyRevocation)),
        Packet::UserAttribute(UserAttribute { kind: 1, data: vec![2] }),
        Packet::Signature(expiring(4)),
        Packet::UserId("x".to_string()),
        Packet::UserId("y".to_string()),
        Packet::Signature(expiring(8)),
    ];
    let d = SignedKeyDetails::from_packets(packets);
    assert_eq!(d.revocation_signatures, vec![sig(SignatureType::KeyRevocation)]);
    assert_eq!(d.direct_signatures, vec![sig(SignatureType::DirectKey)]);
    assert_eq!(d.user_attributes, vec![attr(1, vec![2], vec![expiring(4)])]);
    assert_eq!(d.users, vec![user("x", vec![]), user("y", vec![expiring(8)])]);
}

use vstd::prelude::*;

verus! {

/// Capability bitset of a key: which cryptographic usages it is allowed.
#[derive(Clone, Copy, Debug, PartialEq, Eq, Structural)]
pub struct KeyFlags {
    pub bits: u8,
}

impl Default for KeyFlags {
    fn default() -> (r: KeyFlags)
        ensures
            r.bits == 0,
    {
        KeyFlags { bits: 0 }
    }
}

/// A designated revoker: another key allowed to revoke this certificate.
#[derive(Clone, Copy, Debug, PartialEq, Eq)]
pub struct RevocationKey {
    pub class: u8,
    pub algorithm: u8,
    pub fingerprint: [u8; 20],
}

/// What a signature asserts.
#[derive(Clone, Copy, Debug, PartialEq, Eq, Structural)]
pub enum SignatureType {
    /// Certifies the binding of an identity to a key.
    Certification,
    /// Binds metadata to the primary key itself.
    DirectKey,
    /// Withdraws the whole key.
    KeyRevocation,
}

/// A signature packet, with the subpackets that the certificate logic reads.
///
/// `key_expiration_time` is the key-expiration offset in seconds after the key's
/// creation, when the signature declares one.
#[derive(Clone, Debug, PartialEq, Eq)]
pub struct Signature {
    pub typ: SignatureType,
    pub is_primary: bool,
    pub key_expiration_time: Option<u32>,
    pub key_flags: KeyFlags,
    pub preferred_symmetric_algs: Vec<u8>,
    pub preferred_hash_algs: Vec<u8>,
    pub preferred_compression_algs: Vec<u8>,
    pub preferred_aead_algs: Vec<u8>,
    pub revocation_key: Option<RevocationKey>,
    pub issuer: Vec<u8>,
    pub signature: Vec<u8>,
}

/// A structured, non-textual identity artifact (an image, for instance).
#[derive(Clone, Debug, PartialEq, Eq)]
pub struct UserAttribute {
    pub kind: u8,
    pub data: Vec<u8>,
}

impl View for UserAttribute {
    type V = (u8, Seq<u8>);

    open spec fn view(&self) -> (u8, Seq<u8>) {
        (self.kind, self.data@)
    }
}

/// A key against which signatures are checked.
///
/// Implementors decide, by `accepts`, which signatures are cryptographically valid
/// for them; `verify_signature` must report exactly that.
pub trait PublicKeyTrait {
    spec fn accepts(&self, sig: Signature) -> bool;

    fn verify_signature(&self, sig: &Signature) -> (r: bool)
        ensures
            r == self.accepts(*sig),
    ;
}

/// The error of a failed verification.
#[derive(Clone, Copy, Debug, PartialEq, Eq, Structural)]
pub enum Error {
    /// A signature of the bundle does not verify against the key.
    InvalidSignature,
}

/// Whether every signature of `sigs` verifies against `key`.
pub open spec fn all_accepted<K: PublicKeyTrait>(key: &K, sigs: Seq<Signature>) -> bool {
    forall|j: int| 0 <= j < sigs.len() ==> key.accepts(#[trigger] sigs[j])
}

/// Checks each signature of `sigs` against `key`, in order, and stops at the first
/// that fails.
pub fn verify_all<K: PublicKeyTrait>(key: &K, sigs: &Vec<Signature>) -> (r: Result<(), Error>)
    ensures
        r is Ok <==> all_accepted(key, sigs@),
        r is Err ==> r == Err::<(), Error>(Error::InvalidSignature),
{
    let mut i: usize = 0;
    while i < sigs.len()
        invariant
            i <= sigs@.len(),
            all_accepted(key, sigs@.take(i as int)),
        decreases sigs@.len() - i,
    {
        if !key.verify_signature(&sigs[i]) {
            assert(!all_accepted(key, sigs@)) by {
                assert(!key.accepts(sigs@[i as int]));
            }
            return Err(Error::InvalidSignature);
        }
        assert forall|j: int| 0 <= j < i + 1 implies key.accepts(#[trigger] sigs@.take(i + 1)[j]) by {
            if j < i {
                assert(sigs@.take(i as int)[j] == sigs@[j]);
            }
        }
        i += 1;
    }
    assert(sigs@.take(i as int) =~= sigs@);
    Ok(())
}

/// A user id together with its certifying signatures.
#[derive(Clone, Debug, PartialEq, Eq)]
pub struct SignedUser {
    pub id: String,
    pub signatures: Vec<Signature>,
}

impl SignedUser {
    /// Whether some signature of this user flags it as the primary identity.
    pub open spec fn flagged_primary(&self) -> bool {
        exists|j: int| 0 <= j < self.signatures@.len() && (#[trigger] self.signatures@[j]).is_primary
    }

    pub fn is_primary(&self) -> (r: bool)
        ensures
            r == self.flagged_primary(),
    {
        let mut i: usize = 0;
        while i < self.signatures.len()
            invariant
                i <= self.signatures@.len(),
                forall|j: int| 0 <= j < i ==> !(#[trigger] self.signatures@[j]).is_primary,
            decreases self.signatures@.len() - i,
        {
            if self.signatures[i].is_primary {
                return true;
            }
            i += 1;
        }
        false
    }

    pub fn verify<K: PublicKeyTrait>(&self, key: &K) -> (r: Result<(), Error>)
        ensures
            r is Ok <==> all_accepted(key, self.signatures@),
            r is Err ==> r == Err::<(), Error>(Error::InvalidSignature),
    {
        verify_all(key, &self.signatures)
    }
}

/// A user attribute together with its certifying signatures.
#[derive(Clone, Debug, PartialEq, Eq)]
pub struct SignedUserAttribute {
    pub attr: UserAttribute,
    pub signatures: Vec<Signature>,
}

impl SignedUserAttribute {
    pub fn verify<K: PublicKeyTrait>(&self, key: &K) -> (r: Result<(), Error>)
        ensures
            r is Ok <==> all_accepted(key, self.signatures@),
            r is Err ==> r == Err::<(), Error>(Error::InvalidSignature),
    {
        verify_all(key, &self.signatures)
    }
}

} // verus!

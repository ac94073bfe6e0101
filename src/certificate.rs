use vstd::prelude::*;

use crate::details::SignedKeyDetails;
use crate::types::{Error, PublicKeyTrait};

verus! {

/// A certificate without secret key material.
#[derive(Clone, Debug, PartialEq, Eq)]
pub struct SignedPublicKey<K> {
    pub primary_key: K,
    pub details: SignedKeyDetails,
}

/// A certificate that carries the secret material of its primary key.
#[derive(Clone, Debug, PartialEq, Eq)]
pub struct SignedSecretKey<K> {
    pub primary_key: K,
    pub secret_params: Vec<u8>,
    pub details: SignedKeyDetails,
}

impl<K: PublicKeyTrait> SignedPublicKey<K> {
    /// Checks every signature of the certificate against its own primary key.
    pub fn verify(&self) -> (r: Result<(), Error>)
        ensures
            r is Ok <==> self.details.accepted_by(&self.primary_key),
            r is Err ==> r == Err::<(), Error>(Error::InvalidSignature),
    {
        self.details.verify(&self.primary_key)
    }
}

impl<K: PublicKeyTrait> SignedSecretKey<K> {
    /// Checks every signature of the certificate against the public part of its
    /// primary key.
    pub fn verify(&self) -> (r: Result<(), Error>)
        ensures
            r is Ok <==> self.details.accepted_by(&self.primary_key),
            r is Err ==> r == Err::<(), Error>(Error::InvalidSignature),
    {
        self.details.verify(&self.primary_key)
    }
}

/// A certificate of either kind; the kind is fixed when the value is built.
#[derive(Clone, Debug, PartialEq, Eq)]
pub enum PublicOrSecret<K> {
    Public(SignedPublicKey<K>),
    Secret(SignedSecretKey<K>),
}

impl<K> PublicOrSecret<K> {
    /// The details of whichever certificate this is.
    pub open spec fn details(&self) -> SignedKeyDetails {
        match self {
            PublicOrSecret::Public(k) => k.details,
            PublicOrSecret::Secret(k) => k.details,
        }
    }

    /// The primary key of whichever certificate this is.
    pub open spec fn primary_key(&self) -> K {
        match self {
            PublicOrSecret::Public(k) => k.primary_key,
            PublicOrSecret::Secret(k) => k.primary_key,
        }
    }

    /// The secret certificate held; only for a value that holds one.
    pub fn into_secret(self) -> (r: SignedSecretKey<K>)
        requires
            self is Secret,
        ensures
            self == PublicOrSecret::Secret(r),
    {
        match self {
            PublicOrSecret::Secret(k) => k,
            PublicOrSecret::Public(_) => {
                // ruled out by the precondition
                loop
                    invariant
                        false,
                    decreases 0nat,
                {
                }
            },
        }
    }

    /// The public certificate held; only for a value that holds one.
    pub fn into_public(self) -> (r: SignedPublicKey<K>)
        requires
            self is Public,
        ensures
            self == PublicOrSecret::Public(r),
    {
        match self {
            PublicOrSecret::Public(k) => k,
            PublicOrSecret::Secret(_) => {
                // ruled out by the precondition
                loop
                    invariant
                        false,
                    decreases 0nat,
                {
                }
            },
        }
    }

    pub fn is_public(&self) -> (r: bool)
        ensures
            r == (self is Public),
    {
        match self {
            PublicOrSecret::Secret(_) => false,
            PublicOrSecret::Public(_) => true,
        }
    }

    pub fn is_secret(&self) -> (r: bool)
        ensures
            r == (self is Secret),
    {
        match self {
            PublicOrSecret::Secret(_) => true,
            PublicOrSecret::Public(_) => false,
        }
    }
}

impl<K: PublicKeyTrait> PublicOrSecret<K> {
    /// Checks every signature of the held certificate against its own primary key.
    pub fn verify(&self) -> (r: Result<(), Error>)
        ensures
            r is Ok <==> self.details().accepted_by(&self.primary_key()),
            r is Err ==> r == Err::<(), Error>(Error::InvalidSignature),
    {
        match self {
            PublicOrSecret::Public(k) => k.verify(),
            PublicOrSecret::Secret(k) => k.verify(),
        }
    }
}

/// Every certificate is of exactly one kind: public or secret.
pub proof fn lemma_kind_exclusive_and_exhaustive<K>(c: PublicOrSecret<K>)
    ensures
        (c is Public) != (c is Secret),
{
}

} // verus!

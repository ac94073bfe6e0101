use vstd::prelude::*;

use crate::outside::{pref_items, prefs_from_slice, seconds_span, span_of_seconds, Preferences};
use crate::types::{
    all_accepted, verify_all, Error, KeyFlags, PublicKeyTrait, RevocationKey, Signature,
    SignedUser, SignedUserAttribute, UserAttribute,
};
use chrono::TimeDelta;

verus! {

/// The identity bindings of a certificate with their signatures, plus the key-level
/// revocation and direct signatures.
#[derive(Clone, Debug, PartialEq, Eq)]
pub struct SignedKeyDetails {
    pub revocation_signatures: Vec<Signature>,
    pub direct_signatures: Vec<Signature>,
    pub users: Vec<SignedUser>,
    pub user_attributes: Vec<SignedUserAttribute>,
}

/// The unsigned summary of a certificate: its identities and the metadata of its
/// primary identity.
#[derive(Debug, PartialEq, Eq)]
pub struct KeyDetails {
    pub user_ids: Vec<String>,
    pub user_attributes: Vec<UserAttribute>,
    pub keyflags: KeyFlags,
    pub preferred_symmetric_algorithms: Preferences,
    pub preferred_hash_algorithms: Preferences,
    pub preferred_compression_algorithms: Preferences,
    pub preferred_aead_algorithms: Preferences,
    pub revocation_key: Option<RevocationKey>,
}

/// The users of `s` that carry at least one signature, in their order.
pub open spec fn signed_users(s: Seq<SignedUser>) -> Seq<SignedUser>
    decreases s.len(),
{
    if s.len() == 0 {
        Seq::empty()
    } else {
        let rest = signed_users(s.drop_last());
        if s.last().signatures@.len() > 0 {
            rest.push(s.last())
        } else {
            rest
        }
    }
}

/// The user attributes of `s` that carry at least one signature, in their order.
pub open spec fn signed_attributes(s: Seq<SignedUserAttribute>) -> Seq<SignedUserAttribute>
    decreases s.len(),
{
    if s.len() == 0 {
        Seq::empty()
    } else {
        let rest = signed_attributes(s.drop_last());
        if s.last().signatures@.len() > 0 {
            rest.push(s.last())
        } else {
            rest
        }
    }
}

/// Every signature of every user verifies against `key`.
pub open spec fn users_accepted<K: PublicKeyTrait>(key: &K, users: Seq<SignedUser>) -> bool {
    forall|i: int| 0 <= i < users.len() ==> all_accepted(key, (#[trigger] users[i]).signatures@)
}

/// Every signature of every user attribute verifies against `key`.
pub open spec fn attributes_accepted<K: PublicKeyTrait>(
    key: &K,
    attrs: Seq<SignedUserAttribute>,
) -> bool {
    forall|i: int| 0 <= i < attrs.len() ==> all_accepted(key, (#[trigger] attrs[i]).signatures@)
}

/// No signature of any user declares a key-expiration offset.
pub open spec fn no_expiration(users: Seq<SignedUser>) -> bool {
    forall|i: int, j: int|
        0 <= i < users.len() && 0 <= j < users[i].signatures@.len()
            ==> (#[trigger] users[i].signatures@[j]).key_expiration_time is None
}

/// `m` is the largest key-expiration offset that a signature of some user declares.
pub open spec fn max_expiration(users: Seq<SignedUser>, m: u32) -> bool {
    &&& exists|i: int, j: int|
        0 <= i < users.len() && 0 <= j < users[i].signatures@.len()
            && (#[trigger] users[i].signatures@[j]).key_expiration_time == Some(m)
    &&& forall|i: int, j: int|
        0 <= i < users.len() && 0 <= j < users[i].signatures@.len()
            && (#[trigger] users[i].signatures@[j]).key_expiration_time is Some
            ==> users[i].signatures@[j].key_expiration_time.unwrap() <= m
}

/// `i` is the first user that some signature flags as primary.
pub open spec fn first_flagged(users: Seq<SignedUser>, i: int) -> bool {
    &&& 0 <= i < users.len()
    &&& users[i].flagged_primary()
    &&& forall|k: int| 0 <= k < i ==> !(#[trigger] users[k]).flagged_primary()
}

/// The user whose first signature supplies the certificate-wide metadata: the first
/// flagged as primary, else the first of all, and none when there are no users.
pub open spec fn primary_index(users: Seq<SignedUser>) -> Option<int> {
    if exists|i: int| first_flagged(users, i) {
        Some(choose|i: int| first_flagged(users, i))
    } else if users.len() > 0 {
        Some(0)
    } else {
        None
    }
}

/// The metadata of the summary is that of signature `sig`.
pub open spec fn metadata_from(d: KeyDetails, sig: Signature) -> bool {
    &&& d.keyflags == sig.key_flags
    &&& pref_items(d.preferred_symmetric_algorithms) == sig.preferred_symmetric_algs@
    &&& pref_items(d.preferred_hash_algorithms) == sig.preferred_hash_algs@
    &&& pref_items(d.preferred_compression_algorithms) == sig.preferred_compression_algs@
    &&& pref_items(d.preferred_aead_algorithms) == sig.preferred_aead_algs@
    &&& d.revocation_key == sig.revocation_key
}

/// The metadata of the summary is empty.
pub open spec fn metadata_empty(d: KeyDetails) -> bool {
    &&& d.keyflags.bits == 0
    &&& pref_items(d.preferred_symmetric_algorithms) == Seq::<u8>::empty()
    &&& pref_items(d.preferred_hash_algorithms) == Seq::<u8>::empty()
    &&& pref_items(d.preferred_compression_algorithms) == Seq::<u8>::empty()
    &&& pref_items(d.preferred_aead_algorithms) == Seq::<u8>::empty()
    &&& d.revocation_key is None
}

fn copy_attribute(a: &UserAttribute) -> (r: UserAttribute)
    ensures
        r@ == a@,
{
    let mut data: Vec<u8> = Vec::with_capacity(a.data.len());
    let mut i: usize = 0;
    while i < a.data.len()
        invariant
            i <= a.data@.len(),
            data@ == a.data@.take(i as int),
        decreases a.data@.len() - i,
    {
        data.push(a.data[i]);
        i += 1;
        proof {
            assert(data@ =~= a.data@.take(i as int));
        }
    }
    proof {
        assert(data@ =~= a.data@);
    }
    UserAttribute { kind: a.kind, data }
}

impl SignedKeyDetails {
    /// Every retained user and user attribute carries at least one signature.
    pub open spec fn well_formed(&self) -> bool {
        &&& forall|i: int|
            0 <= i < self.users@.len() ==> (#[trigger] self.users@[i]).signatures@.len() > 0
        &&& forall|i: int|
            0 <= i < self.user_attributes@.len()
                ==> (#[trigger] self.user_attributes@[i]).signatures@.len() > 0
    }

    /// Every signature of the bundle verifies against `key`.
    pub open spec fn accepted_by<K: PublicKeyTrait>(&self, key: &K) -> bool {
        &&& users_accepted(key, self.users@)
        &&& attributes_accepted(key, self.user_attributes@)
        &&& all_accepted(key, self.revocation_signatures@)
        &&& all_accepted(key, self.direct_signatures@)
    }

    /// Builds the details, dropping every user and user attribute that carries no
    /// signature; the others keep their order.
    pub fn new(
        revocation_signatures: Vec<Signature>,
        direct_signatures: Vec<Signature>,
        users: Vec<SignedUser>,
        user_attributes: Vec<SignedUserAttribute>,
    ) -> (r: Self)
        ensures
            r.revocation_signatures == revocation_signatures,
            r.direct_signatures == direct_signatures,
            r.users@ == signed_users(users@),
            r.user_attributes@ == signed_attributes(user_attributes@),
            r.well_formed(),
    {
        let mut users = users;
        let ghost all_users = users@;
        let ghost mut k: int = 0;
        let mut kept_users: Vec<SignedUser> = Vec::new();
        while users.len() > 0
            invariant
                0 <= k <= all_users.len(),
                users@ == all_users.skip(k),
                kept_users@ == signed_users(all_users.take(k)),
                forall|i: int|
                    0 <= i < kept_users@.len() ==> (#[trigger] kept_users@[i]).signatures@.len()
                        > 0,
            decreases users@.len(),
        {
            let user = users.remove(0);
            proof {
                assert(all_users.take(k + 1).drop_last() =~= all_users.take(k));
                assert(all_users.take(k + 1).last() == all_users[k]);
                assert(users@ =~= all_users.skip(k + 1));
            }
            if user.signatures.len() > 0 {
                kept_users.push(user);
            }
            proof {
                k = k + 1;
            }
        }
        proof {
            assert(all_users.take(k) =~= all_users);
        }

        let mut attrs = user_attributes;
        let ghost all_attrs = attrs@;
        let ghost mut n: int = 0;
        let mut kept_attrs: Vec<SignedUserAttribute> = Vec::new();
        while attrs.len() > 0
            invariant
                0 <= n <= all_attrs.len(),
                attrs@ == all_attrs.skip(n),
                kept_attrs@ == signed_attributes(all_attrs.take(n)),
                forall|i: int|
                    0 <= i < kept_attrs@.len() ==> (#[trigger] kept_attrs@[i]).signatures@.len()
                        > 0,
            decreases attrs@.len(),
        {
            let attr = attrs.remove(0);
            proof {
                assert(all_attrs.take(n + 1).drop_last() =~= all_attrs.take(n));
                assert(all_attrs.take(n + 1).last() == all_attrs[n]);
                assert(attrs@ =~= all_attrs.skip(n + 1));
            }
            if attr.signatures.len() > 0 {
                kept_attrs.push(attr);
            }
            proof {
                n = n + 1;
            }
        }
        proof {
            assert(all_attrs.take(n) =~= all_attrs);
        }

        SignedKeyDetails {
            revocation_signatures,
            direct_signatures,
            users: kept_users,
            user_attributes: kept_attrs,
        }
    }

    fn verify_users<K: PublicKeyTrait>(&self, key: &K) -> (r: Result<(), Error>)
        ensures
            r is Ok <==> users_accepted(key, self.users@),
            r is Err ==> r == Err::<(), Error>(Error::InvalidSignature),
    {
        let mut i: usize = 0;
        while i < self.users.len()
            invariant
                i <= self.users@.len(),
                users_accepted(key, self.users@.take(i as int)),
            decreases self.users@.len() - i,
        {
            let checked = self.users[i].verify(key);
            if checked.is_err() {
                return checked;
            }
            assert(self.users@.take(i + 1) =~= self.users@.take(i as int).push(self.users@[i as int]));
            i += 1;
        }
        assert(self.users@.take(i as int) =~= self.users@);
        Ok(())
    }

    fn verify_attributes<K: PublicKeyTrait>(&self, key: &K) -> (r: Result<(), Error>)
        ensures
            r is Ok <==> attributes_accepted(key, self.user_attributes@),
            r is Err ==> r == Err::<(), Error>(Error::InvalidSignature),
    {
        let mut i: usize = 0;
        while i < self.user_attributes.len()
            invariant
                i <= self.user_attributes@.len(),
                attributes_accepted(key, self.user_attributes@.take(i as int)),
            decreases self.user_attributes@.len() - i,
        {
            let checked = self.user_attributes[i].verify(key);
            if checked.is_err() {
                return checked;
            }
            assert(self.user_attributes@.take(i + 1) =~= self.user_attributes@.take(i as int).push(
                self.user_attributes@[i as int],
            ));
            i += 1;
        }
        assert(self.user_attributes@.take(i as int) =~= self.user_attributes@);
        Ok(())
    }

    fn verify_revocation_signatures<K: PublicKeyTrait>(&self, key: &K) -> (r: Result<(), Error>)
        ensures
            r is Ok <==> all_accepted(key, self.revocation_signatures@),
            r is Err ==> r == Err::<(), Error>(Error::InvalidSignature),
    {
        verify_all(key, &self.revocation_signatures)
    }

    fn verify_direct_signatures<K: PublicKeyTrait>(&self, key: &K) -> (r: Result<(), Error>)
        ensures
            r is Ok <==> all_accepted(key, self.direct_signatures@),
            r is Err ==> r == Err::<(), Error>(Error::InvalidSignature),
    {
        verify_all(key, &self.direct_signatures)
    }

    /// Checks every signature of the bundle against `key`: those of the users, of
    /// the user attributes, the revocation signatures and the direct signatures, in
    /// that order, and fails on the first that does not verify.
    pub fn verify<K: PublicKeyTrait>(&self, key: &K) -> (r: Result<(), Error>)
        ensures
            r is Ok <==> self.accepted_by(key),
            r is Err ==> r == Err::<(), Error>(Error::InvalidSignature),
    {
        self.verify_users(key)?;
        self.verify_attributes(key)?;
        self.verify_revocation_signatures(key)?;
        self.verify_direct_signatures(key)?;
        Ok(())
    }

    /// The largest key-expiration offset, in seconds, that a signature of a user
    /// declares; none when no such signature declares one.
    pub fn max_key_expiration(&self) -> (r: Option<u32>)
        ensures
            r is None <==> no_expiration(self.users@),
            r matches Some(m) ==> max_expiration(self.users@, m),
    {
        let mut best: Option<u32> = None;
        let mut i: usize = 0;
        while i < self.users.len()
            invariant
                i <= self.users@.len(),
                best is None <==> no_expiration(self.users@.take(i as int)),
                best matches Some(m) ==> max_expiration(self.users@.take(i as int), m),
            decreases self.users@.len() - i,
        {
            let sigs = &self.users[i].signatures;
            let ghost seen = self.users@.take(i as int);
            let ghost upto = self.users@.take(i + 1);
            assert(upto =~= seen.push(self.users@[i as int]));
            let mut j: usize = 0;
            while j < sigs.len()
                invariant
                    i < self.users@.len(),
                    sigs == self.users@[i as int].signatures,
                    j <= sigs@.len(),
                    seen == self.users@.take(i as int),
                    upto == seen.push(self.users@[i as int]),
                    best is None <==> (no_expiration(seen) && forall|l: int|
                        0 <= l < j ==> (#[trigger] sigs@[l]).key_expiration_time is None),
                    best matches Some(m) ==> {
                        &&& (exists|a: int, b: int|
                            0 <= a < seen.len() && 0 <= b < seen[a].signatures@.len()
                                && (#[trigger] seen[a].signatures@[b]).key_expiration_time
                                == Some(m)) || (exists|l: int|
                            0 <= l < j && (#[trigger] sigs@[l]).key_expiration_time == Some(m))
                        &&& forall|a: int, b: int|
                            0 <= a < seen.len() && 0 <= b < seen[a].signatures@.len()
                                && (#[trigger] seen[a].signatures@[b]).key_expiration_time is Some
                                ==> seen[a].signatures@[b].key_expiration_time.unwrap() <= m
                        &&& forall|l: int|
                            0 <= l < j && (#[trigger] sigs@[l]).key_expiration_time is Some
                                ==> sigs@[l].key_expiration_time.unwrap() <= m
                    },
                decreases sigs@.len() - j,
            {
                if let Some(offset) = sigs[j].key_expiration_time {
                    best = match best {
                        Some(m) if m >= offset => Some(m),
                        _ => Some(offset),
                    };
                }
                j += 1;
            }
            proof {
                if let Some(m) = best {
                    assert forall|a: int, b: int|
                        0 <= a < upto.len() && 0 <= b < upto[a].signatures@.len()
                            && (#[trigger] upto[a].signatures@[b]).key_expiration_time is Some
                            implies upto[a].signatures@[b].key_expiration_time.unwrap() <= m by {
                        if a < seen.len() {
                            assert(upto[a] == seen[a]);
                        }
                    }
                    if exists|l: int| 0 <= l < j && (#[trigger] sigs@[l]).key_expiration_time == Some(m) {
                        let l = choose|l: int| 0 <= l < j && (#[trigger] sigs@[l]).key_expiration_time == Some(m);
                        assert(upto[i as int].signatures@[l].key_expiration_time == Some(m));
                    } else {
                        let (a, b) = choose|a: int, b: int|
                            0 <= a < seen.len() && 0 <= b < seen[a].signatures@.len()
                                && (#[trigger] seen[a].signatures@[b]).key_expiration_time == Some(m);
                        assert(upto[a] == seen[a]);
                        assert(upto[a].signatures@[b].key_expiration_time == Some(m));
                    }
                } else {
                    assert forall|a: int, b: int|
                        0 <= a < upto.len() && 0 <= b < upto[a].signatures@.len()
                            implies (#[trigger] upto[a].signatures@[b]).key_expiration_time is None by {
                        if a < seen.len() {
                            assert(upto[a] == seen[a]);
                        }
                    }
                }
            }
            i += 1;
        }
        assert(self.users@.take(i as int) =~= self.users@);
        best
    }

    fn primary_user_index(&self) -> (r: Option<usize>)
        ensures
            r matches Some(i) ==> primary_index(self.users@) == Some(i as int),
            r is None ==> primary_index(self.users@) is None,
    {
        let mut i: usize = 0;
        while i < self.users.len()
            invariant
                i <= self.users@.len(),
                forall|k: int| 0 <= k < i ==> !(#[trigger] self.users@[k]).flagged_primary(),
            decreases self.users@.len() - i,
        {
            if self.users[i].is_primary() {
                proof {
                    lemma_primary_is_first_flagged(self.users@, i as int);
                }
                return Some(i);
            }
            i += 1;
        }
        if self.users.len() > 0 {
            Some(0)
        } else {
            None
        }
    }

    /// The unsigned summary: the ids of all users and all user attributes, with the
    /// capability flags, preference lists and designated revoker taken from the first
    /// signature of the primary user (the first flagged as primary, else the first
    /// user); empty metadata when there is no user.
    pub fn as_unsigned(&self) -> (r: KeyDetails)
        requires
            self.well_formed(),
        ensures
            r.user_ids@ == self.users@.map_values(|u: SignedUser| u.id),
            r.user_attributes@.map_values(|a: UserAttribute| a@) == self.user_attributes@.map_values(
                |a: SignedUserAttribute| a.attr@,
            ),
            match primary_index(self.users@) {
                Some(p) => metadata_from(r, self.users@[p].signatures@[0]),
                None => metadata_empty(r),
            },
    {
        let mut user_ids: Vec<String> = Vec::with_capacity(self.users.len());
        let mut i: usize = 0;
        while i < self.users.len()
            invariant
                i <= self.users@.len(),
                user_ids@ == self.users@.take(i as int).map_values(|u: SignedUser| u.id),
            decreases self.users@.len() - i,
        {
            user_ids.push(self.users[i].id.clone());
            i += 1;
            proof {
                assert(user_ids@ =~= self.users@.take(i as int).map_values(|u: SignedUser| u.id));
            }
        }
        assert(self.users@.take(i as int) =~= self.users@);

        let mut user_attributes: Vec<UserAttribute> = Vec::with_capacity(
            self.user_attributes.len(),
        );
        let mut i: usize = 0;
        while i < self.user_attributes.len()
            invariant
                i <= self.user_attributes@.len(),
                user_attributes@.len() == i,
                forall|k: int|
                    0 <= k < i ==> (#[trigger] user_attributes@[k])@
                        == self.user_attributes@[k].attr@,
            decreases self.user_attributes@.len() - i,
        {
            user_attributes.push(copy_attribute(&self.user_attributes[i].attr));
            i += 1;
        }
        assert(user_attributes@.map_values(|a: UserAttribute| a@)
            =~= self.user_attributes@.map_values(|a: SignedUserAttribute| a.attr@));

        match self.primary_user_index() {
            Some(p) => {
                let sig = &self.users[p].signatures[0];
                KeyDetails {
                    user_ids,
                    user_attributes,
                    keyflags: sig.key_flags,
                    preferred_symmetric_algorithms: prefs_from_slice(
                        sig.preferred_symmetric_algs.as_slice(),
                    ),
                    preferred_hash_algorithms: prefs_from_slice(sig.preferred_hash_algs.as_slice()),
                    preferred_compression_algorithms: prefs_from_slice(
                        sig.preferred_compression_algs.as_slice(),
                    ),
                    preferred_aead_algorithms: prefs_from_slice(sig.preferred_aead_algs.as_slice()),
                    revocation_key: sig.revocation_key,
                }
            },
            None => {
                let empty: Vec<u8> = Vec::new();
                KeyDetails {
                    user_ids,
                    user_attributes,
                    keyflags: KeyFlags::default(),
                    preferred_symmetric_algorithms: prefs_from_slice(empty.as_slice()),
                    preferred_hash_algorithms: prefs_from_slice(empty.as_slice()),
                    preferred_compression_algorithms: prefs_from_slice(empty.as_slice()),
                    preferred_aead_algorithms: prefs_from_slice(empty.as_slice()),
                    revocation_key: None,
                }
            },
        }
    }

    /// The key's expiration as a span of time: the largest key-expiration offset
    /// that a signature of a user declares, or none for a key that never expires.
    pub fn key_expiration_time(&self) -> (r: Option<TimeDelta>)
        ensures
            r is None <==> no_expiration(self.users@),
            r matches Some(t) ==> exists|m: u32|
                max_expiration(self.users@, m) && t == span_of_seconds(m as int),
    {
        match self.max_key_expiration() {
            Some(m) => Some(seconds_span(m)),
            None => None,
        }
    }
}

/// A bundle verifies only if each of its signatures does: a single signature that
/// the key rejects, among the users', the user attributes', the revocation or the
/// direct signatures, makes the whole bundle fail.
pub proof fn lemma_one_rejected_signature_fails<K: PublicKeyTrait>(
    d: SignedKeyDetails,
    key: &K,
    sig: Signature,
)
    requires
        !key.accepts(sig),
        (exists|i: int, j: int|
            0 <= i < d.users@.len() && 0 <= j < d.users@[i].signatures@.len()
                && d.users@[i].signatures@[j] == sig) || (exists|i: int, j: int|
            0 <= i < d.user_attributes@.len() && 0 <= j
                < d.user_attributes@[i].signatures@.len() && d.user_attributes@[i].signatures@[j]
                == sig) || d.revocation_signatures@.contains(sig)
            || d.direct_signatures@.contains(sig),
    ensures
        !d.accepted_by(key),
{
    if exists|i: int, j: int|
        0 <= i < d.users@.len() && 0 <= j < d.users@[i].signatures@.len()
            && d.users@[i].signatures@[j] == sig {
        let (i, j) = choose|i: int, j: int|
            0 <= i < d.users@.len() && 0 <= j < d.users@[i].signatures@.len()
                && d.users@[i].signatures@[j] == sig;
        assert(!all_accepted(key, d.users@[i].signatures@));
    } else if exists|i: int, j: int|
        0 <= i < d.user_attributes@.len() && 0 <= j < d.user_attributes@[i].signatures@.len()
            && d.user_attributes@[i].signatures@[j] == sig {
        let (i, j) = choose|i: int, j: int|
            0 <= i < d.user_attributes@.len() && 0 <= j
                < d.user_attributes@[i].signatures@.len() && d.user_attributes@[i].signatures@[j]
                == sig;
        assert(!all_accepted(key, d.user_attributes@[i].signatures@));
    } else if d.revocation_signatures@.contains(sig) {
        let j = choose|j: int|
            0 <= j < d.revocation_signatures@.len() && d.revocation_signatures@[j] == sig;
        assert(!key.accepts(d.revocation_signatures@[j]));
    } else {
        let j = choose|j: int| 0 <= j < d.direct_signatures@.len() && d.direct_signatures@[j] == sig;
        assert(!key.accepts(d.direct_signatures@[j]));
    }
}

/// Without users there is no primary user, so the summary's metadata is empty.
pub proof fn lemma_no_users_no_primary(users: Seq<SignedUser>)
    requires
        users.len() == 0,
    ensures
        primary_index(users) is None,
{
}

/// When no user is flagged as primary, the first user supplies the metadata.
pub proof fn lemma_primary_falls_back_to_first(users: Seq<SignedUser>)
    requires
        users.len() > 0,
        forall|i: int| 0 <= i < users.len() ==> !(#[trigger] users[i]).flagged_primary(),
    ensures
        primary_index(users) == Some(0int),
{
}

/// A user flagged as primary, with no flagged user before it, supplies the metadata.
pub proof fn lemma_primary_is_first_flagged(users: Seq<SignedUser>, i: int)
    requires
        0 <= i < users.len(),
        users[i].flagged_primary(),
        forall|k: int| 0 <= k < i ==> !(#[trigger] users[k]).flagged_primary(),
    ensures
        primary_index(users) == Some(i),
{
    assert(first_flagged(users, i));
    let c = choose|c: int| first_flagged(users, c);
    if c < i {
        assert(!users[c].flagged_primary());
    } else if c > i {
        assert(!users[i].flagged_primary());
    }
}

} // verus!

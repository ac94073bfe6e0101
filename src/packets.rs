use vstd::prelude::*;

use crate::details::SignedKeyDetails;
use crate::types::{Signature, SignatureType, SignedUser, SignedUserAttribute, UserAttribute};

verus! {

/// One packet of the wire form of a certificate's signed part.
#[derive(Clone, Debug, PartialEq, Eq)]
pub enum Packet {
    Signature(Signature),
    UserId(String),
    UserAttribute(UserAttribute),
}

/// Each signature of `s` as a packet, in order.
pub open spec fn signature_packets(s: Seq<Signature>) -> Seq<Packet> {
    s.map_values(|sig: Signature| Packet::Signature(sig))
}

/// Each user as its id packet followed by its signature packets, in order.
pub open spec fn user_packets(users: Seq<SignedUser>) -> Seq<Packet>
    decreases users.len(),
{
    if users.len() == 0 {
        Seq::empty()
    } else {
        user_packets(users.drop_last()) + seq![Packet::UserId(users.last().id)]
            + signature_packets(users.last().signatures@)
    }
}

/// Each user attribute as its attribute packet followed by its signature packets, in
/// order.
pub open spec fn attribute_packets(attrs: Seq<SignedUserAttribute>) -> Seq<Packet>
    decreases attrs.len(),
{
    if attrs.len() == 0 {
        Seq::empty()
    } else {
        attribute_packets(attrs.drop_last()) + seq![Packet::UserAttribute(attrs.last().attr)]
            + signature_packets(attrs.last().signatures@)
    }
}

/// The wire order: revocation signatures, direct signatures, then each user and
/// each user attribute followed by its signatures.
pub open spec fn wire_packets(d: SignedKeyDetails) -> Seq<Packet> {
    signature_packets(d.revocation_signatures@) + signature_packets(d.direct_signatures@)
        + user_packets(d.users@) + attribute_packets(d.user_attributes@)
}

/// What a certificate's signed part holds, as values: the two key-level signature
/// lists, and each identity with its signatures.
#[verifier::ext_equal]
pub struct DetailsView {
    pub revocation: Seq<Signature>,
    pub direct: Seq<Signature>,
    pub users: Seq<(String, Seq<Signature>)>,
    pub attributes: Seq<(UserAttribute, Seq<Signature>)>,
}

pub open spec fn user_views(users: Seq<SignedUser>) -> Seq<(String, Seq<Signature>)> {
    users.map_values(|u: SignedUser| (u.id, u.signatures@))
}

pub open spec fn attribute_views(attrs: Seq<SignedUserAttribute>) -> Seq<
    (UserAttribute, Seq<Signature>),
> {
    attrs.map_values(|a: SignedUserAttribute| (a.attr, a.signatures@))
}

impl View for SignedKeyDetails {
    type V = DetailsView;

    open spec fn view(&self) -> DetailsView {
        DetailsView {
            revocation: self.revocation_signatures@,
            direct: self.direct_signatures@,
            users: user_views(self.users@),
            attributes: attribute_views(self.user_attributes@),
        }
    }
}

/// Which identity the signatures that follow belong to.
#[derive(Clone, Copy, Debug, PartialEq, Eq, Structural)]
pub enum Open {
    /// No identity yet: signatures are key-level.
    Nothing,
    /// The last user id.
    User,
    /// The last user attribute.
    Attribute,
}

/// The grouping of packets read so far.
#[verifier::ext_equal]
pub struct ParseState {
    pub details: DetailsView,
    pub open: Open,
}

pub open spec fn initial_state() -> ParseState {
    ParseState {
        details: DetailsView {
            revocation: Seq::empty(),
            direct: Seq::empty(),
            users: Seq::empty(),
            attributes: Seq::empty(),
        },
        open: Open::Nothing,
    }
}

/// Reading one packet: a signature before any identity is a revocation signature
/// when it is of that type and a direct signature otherwise; after an identity it
/// belongs to the last identity read; an identity packet opens a new identity.
pub open spec fn step(st: ParseState, p: Packet) -> ParseState {
    let d = st.details;
    match p {
        Packet::Signature(sig) => match st.open {
            Open::Nothing => if sig.typ == SignatureType::KeyRevocation {
                ParseState { details: DetailsView { revocation: d.revocation.push(sig), ..d }, ..st }
            } else {
                ParseState { details: DetailsView { direct: d.direct.push(sig), ..d }, ..st }
            },
            Open::User => {
                let last = d.users.last();
                ParseState {
                    details: DetailsView {
                        users: d.users.update(d.users.len() - 1, (last.0, last.1.push(sig))),
                        ..d
                    },
                    ..st
                }
            },
            Open::Attribute => {
                let last = d.attributes.last();
                ParseState {
                    details: DetailsView {
                        attributes: d.attributes.update(
                            d.attributes.len() - 1,
                            (last.0, last.1.push(sig)),
                        ),
                        ..d
                    },
                    ..st
                }
            },
        },
        Packet::UserId(id) => ParseState {
            details: DetailsView { users: d.users.push((id, Seq::empty())), ..d },
            open: Open::User,
        },
        Packet::UserAttribute(a) => ParseState {
            details: DetailsView { attributes: d.attributes.push((a, Seq::empty())), ..d },
            open: Open::Attribute,
        },
    }
}

/// The state after reading the packets of `s` in order, starting from `st`.
pub open spec fn parse_from(st: ParseState, s: Seq<Packet>) -> ParseState
    decreases s.len(),
{
    if s.len() == 0 {
        st
    } else {
        step(parse_from(st, s.drop_last()), s.last())
    }
}

/// The grouping of a whole packet sequence.
pub open spec fn parse_packets(s: Seq<Packet>) -> DetailsView {
    parse_from(initial_state(), s).details
}

proof fn lemma_parse_concat(st: ParseState, a: Seq<Packet>, b: Seq<Packet>)
    ensures
        parse_from(st, a + b) == parse_from(parse_from(st, a), b),
    decreases b.len(),
{
    if b.len() == 0 {
        assert(a + b =~= a);
    } else {
        assert((a + b).drop_last() =~= a + b.drop_last());
        lemma_parse_concat(st, a, b.drop_last());
    }
}

proof fn lemma_parse_key_signatures(st: ParseState, sigs: Seq<Signature>, revocations: bool)
    requires
        st.open == Open::Nothing,
        forall|j: int|
            0 <= j < sigs.len() ==> ((#[trigger] sigs[j]).typ == SignatureType::KeyRevocation)
                == revocations,
    ensures
        parse_from(st, signature_packets(sigs)) == (if revocations {
            ParseState {
                details: DetailsView {
                    revocation: st.details.revocation + sigs,
                    ..st.details
                },
                ..st
            }
        } else {
            ParseState { details: DetailsView { direct: st.details.direct + sigs, ..st.details }, ..st }
        }),
    decreases sigs.len(),
{
    if sigs.len() == 0 {
        assert(st.details.revocation + sigs =~= st.details.revocation);
        assert(st.details.direct + sigs =~= st.details.direct);
        assert(signature_packets(sigs) =~= Seq::<Packet>::empty());
    } else {
        assert(signature_packets(sigs).drop_last() =~= signature_packets(sigs.drop_last()));
        lemma_parse_key_signatures(st, sigs.drop_last(), revocations);
        assert(sigs.drop_last().len() < sigs.len());
        assert(st.details.revocation + sigs =~= (st.details.revocation + sigs.drop_last()).push(sigs.last()));
        assert(st.details.direct + sigs =~= (st.details.direct + sigs.drop_last()).push(sigs.last()));
        let r = parse_from(st, signature_packets(sigs));
        if revocations {
            assert(r.details =~= DetailsView { revocation: st.details.revocation + sigs, ..st.details });
        } else {
            assert(r.details =~= DetailsView { direct: st.details.direct + sigs, ..st.details });
        }
    }
}

proof fn lemma_parse_user_signatures(st: ParseState, sigs: Seq<Signature>)
    requires
        st.open == Open::User,
        st.details.users.len() > 0,
    ensures
        ({
            let users = st.details.users;
            let last = users.last();
            parse_from(st, signature_packets(sigs)) == ParseState {
                details: DetailsView {
                    users: users.update(users.len() - 1, (last.0, last.1 + sigs)),
                    ..st.details
                },
                ..st
            }
        }),
    decreases sigs.len(),
{
    let users = st.details.users;
    let last = users.last();
    if sigs.len() == 0 {
        assert(last.1 + sigs =~= last.1);
        assert(users.update(users.len() - 1, (last.0, last.1 + sigs)) =~= users);
        assert(signature_packets(sigs) =~= Seq::<Packet>::empty());
    } else {
        assert(signature_packets(sigs).drop_last() =~= signature_packets(sigs.drop_last()));
        lemma_parse_user_signatures(st, sigs.drop_last());
        assert(last.1 + sigs =~= (last.1 + sigs.drop_last()).push(sigs.last()));
        let r = parse_from(st, signature_packets(sigs));
        assert(r.details.users =~= users.update(users.len() - 1, (last.0, last.1 + sigs)));
    }
}

proof fn lemma_parse_attribute_signatures(st: ParseState, sigs: Seq<Signature>)
    requires
        st.open == Open::Attribute,
        st.details.attributes.len() > 0,
    ensures
        ({
            let attrs = st.details.attributes;
            let last = attrs.last();
            parse_from(st, signature_packets(sigs)) == ParseState {
                details: DetailsView {
                    attributes: attrs.update(attrs.len() - 1, (last.0, last.1 + sigs)),
                    ..st.details
                },
                ..st
            }
        }),
    decreases sigs.len(),
{
    let attrs = st.details.attributes;
    let last = attrs.last();
    if sigs.len() == 0 {
        assert(last.1 + sigs =~= last.1);
        assert(attrs.update(attrs.len() - 1, (last.0, last.1 + sigs)) =~= attrs);
        assert(signature_packets(sigs) =~= Seq::<Packet>::empty());
    } else {
        assert(signature_packets(sigs).drop_last() =~= signature_packets(sigs.drop_last()));
        lemma_parse_attribute_signatures(st, sigs.drop_last());
        assert(last.1 + sigs =~= (last.1 + sigs.drop_last()).push(sigs.last()));
        let r = parse_from(st, signature_packets(sigs));
        assert(r.details.attributes =~= attrs.update(attrs.len() - 1, (last.0, last.1 + sigs)));
    }
}

proof fn lemma_parse_users(st: ParseState, users: Seq<SignedUser>)
    ensures
        parse_from(st, user_packets(users)) == (ParseState {
            details: DetailsView { users: st.details.users + user_views(users), ..st.details },
            open: if users.len() > 0 {
                Open::User
            } else {
                st.open
            },
        }),
    decreases users.len(),
{
    if users.len() == 0 {
        assert(st.details.users + user_views(users) =~= st.details.users);
        assert(user_packets(users) =~= Seq::<Packet>::empty());
        assert(parse_from(st, user_packets(users)).details =~= DetailsView {
            users: st.details.users + user_views(users),
            ..st.details
        });
    } else {
        let front = users.drop_last();
        let u = users.last();
        let head = user_packets(front) + seq![Packet::UserId(u.id)];
        lemma_parse_concat(st, head, signature_packets(u.signatures@));
        lemma_parse_concat(st, user_packets(front), seq![Packet::UserId(u.id)]);
        lemma_parse_users(st, front);
        let mid = parse_from(st, user_packets(front));
        assert(seq![Packet::UserId(u.id)].drop_last() =~= Seq::<Packet>::empty());
        assert(parse_from(mid, Seq::<Packet>::empty()) == mid);
        assert(seq![Packet::UserId(u.id)].last() == Packet::UserId(u.id));
        let opened = parse_from(mid, seq![Packet::UserId(u.id)]);
        assert(opened == step(mid, Packet::UserId(u.id)));
        lemma_parse_user_signatures(opened, u.signatures@);
        assert(Seq::<Signature>::empty() + u.signatures@ =~= u.signatures@);
        assert(user_views(users) =~= user_views(front).push((u.id, u.signatures@)));
        let r = parse_from(st, user_packets(users));
        assert(r.details =~= DetailsView {
            users: st.details.users + user_views(users),
            ..st.details
        });
    }
}

proof fn lemma_parse_attributes(st: ParseState, attrs: Seq<SignedUserAttribute>)
    ensures
        parse_from(st, attribute_packets(attrs)) == (ParseState {
            details: DetailsView {
                attributes: st.details.attributes + attribute_views(attrs),
                ..st.details
            },
            open: if attrs.len() > 0 {
                Open::Attribute
            } else {
                st.open
            },
        }),
    decreases attrs.len(),
{
    if attrs.len() == 0 {
        assert(st.details.attributes + attribute_views(attrs) =~= st.details.attributes);
        assert(attribute_packets(attrs) =~= Seq::<Packet>::empty());
        assert(parse_from(st, attribute_packets(attrs)).details =~= DetailsView {
            attributes: st.details.attributes + attribute_views(attrs),
            ..st.details
        });
    } else {
        let front = attrs.drop_last();
        let a = attrs.last();
        let head = attribute_packets(front) + seq![Packet::UserAttribute(a.attr)];
        lemma_parse_concat(st, head, signature_packets(a.signatures@));
        lemma_parse_concat(st, attribute_packets(front), seq![Packet::UserAttribute(a.attr)]);
        lemma_parse_attributes(st, front);
        let mid = parse_from(st, attribute_packets(front));
        assert(seq![Packet::UserAttribute(a.attr)].drop_last() =~= Seq::<Packet>::empty());
        assert(parse_from(mid, Seq::<Packet>::empty()) == mid);
        assert(seq![Packet::UserAttribute(a.attr)].last() == Packet::UserAttribute(a.attr));
        let opened = parse_from(mid, seq![Packet::UserAttribute(a.attr)]);
        assert(opened == step(mid, Packet::UserAttribute(a.attr)));
        lemma_parse_attribute_signatures(opened, a.signatures@);
        assert(Seq::<Signature>::empty() + a.signatures@ =~= a.signatures@);
        assert(attribute_views(attrs) =~= attribute_views(front).push((a.attr, a.signatures@)));
        let r = parse_from(st, attribute_packets(attrs));
        assert(r.details =~= DetailsView {
            attributes: st.details.attributes + attribute_views(attrs),
            ..st.details
        });
    }
}

/// Writing the signed part in wire order and grouping the packets again gives back
/// the same revocation signatures, direct signatures, users and user attributes, in
/// the same order, whenever the revocation signatures are all of the revocation type
/// and no direct signature is.
pub proof fn lemma_packets_round_trip(d: SignedKeyDetails)
    requires
        forall|j: int|
            0 <= j < d.revocation_signatures@.len()
                ==> (#[trigger] d.revocation_signatures@[j]).typ == SignatureType::KeyRevocation,
        forall|j: int|
            0 <= j < d.direct_signatures@.len() ==> (#[trigger] d.direct_signatures@[j]).typ
                != SignatureType::KeyRevocation,
    ensures
        parse_packets(wire_packets(d)) == d@,
{
    let revs = signature_packets(d.revocation_signatures@);
    let directs = signature_packets(d.direct_signatures@);
    let us = user_packets(d.users@);
    let ats = attribute_packets(d.user_attributes@);
    let st0 = initial_state();
    lemma_parse_concat(st0, revs + directs + us, ats);
    lemma_parse_concat(st0, revs + directs, us);
    lemma_parse_concat(st0, revs, directs);
    lemma_parse_key_signatures(st0, d.revocation_signatures@, true);
    let st1 = parse_from(st0, revs);
    lemma_parse_key_signatures(st1, d.direct_signatures@, false);
    let st2 = parse_from(st1, directs);
    lemma_parse_users(st2, d.users@);
    let st3 = parse_from(st2, us);
    lemma_parse_attributes(st3, d.user_attributes@);
    let st4 = parse_from(st3, ats);
    assert(Seq::<Signature>::empty() + d.revocation_signatures@ =~= d.revocation_signatures@);
    assert(Seq::<Signature>::empty() + d.direct_signatures@ =~= d.direct_signatures@);
    assert(Seq::<(String, Seq<Signature>)>::empty() + user_views(d.users@) =~= user_views(d.users@));
    assert(Seq::<(UserAttribute, Seq<Signature>)>::empty() + attribute_views(d.user_attributes@)
        =~= attribute_views(d.user_attributes@));
    assert(st4.details =~= d@);
}

/// The identity whose signatures are being read.
enum Pending {
    Nothing,
    User(SignedUser),
    Attribute(SignedUserAttribute),
}

spec fn grouped(
    rev: Seq<Signature>,
    direct: Seq<Signature>,
    users: Seq<SignedUser>,
    attrs: Seq<SignedUserAttribute>,
    pending: Pending,
) -> ParseState {
    let (pending_users, pending_attrs, open) = match pending {
        Pending::Nothing => (Seq::empty(), Seq::empty(), Open::Nothing),
        Pending::User(u) => (seq![u], Seq::empty(), Open::User),
        Pending::Attribute(a) => (Seq::empty(), seq![a], Open::Attribute),
    };
    ParseState {
        details: DetailsView {
            revocation: rev,
            direct,
            users: user_views(users + pending_users),
            attributes: attribute_views(attrs + pending_attrs),
        },
        open,
    }
}

fn settle(
    users: &mut Vec<SignedUser>,
    attrs: &mut Vec<SignedUserAttribute>,
    pending: Pending,
)
    ensures
        final(users)@ == old(users)@ + match pending {
            Pending::User(u) => seq![u],
            _ => Seq::empty(),
        },
        final(attrs)@ == old(attrs)@ + match pending {
            Pending::Attribute(a) => seq![a],
            _ => Seq::empty(),
        },
{
    match pending {
        Pending::Nothing => {},
        Pending::User(u) => users.push(u),
        Pending::Attribute(a) => attrs.push(a),
    }
    assert(final(users)@ =~= old(users)@ + match pending {
        Pending::User(u) => seq![u],
        _ => Seq::empty(),
    });
    assert(final(attrs)@ =~= old(attrs)@ + match pending {
        Pending::Attribute(a) => seq![a],
        _ => Seq::empty(),
    });
}

impl SignedKeyDetails {
    /// Groups packets in wire order: signatures before any identity are revocation
    /// signatures when of that type and direct signatures otherwise; each later
    /// signature belongs to the identity packet that precedes it. Identities are kept
    /// whether signed or not.
    pub fn from_packets(packets: Vec<Packet>) -> (r: SignedKeyDetails)
        ensures
            r@ == parse_packets(packets@),
    {
        let mut packets = packets;
        let ghost all = packets@;
        let ghost mut k: int = 0;
        let mut rev: Vec<Signature> = Vec::new();
        let mut direct: Vec<Signature> = Vec::new();
        let mut users: Vec<SignedUser> = Vec::new();
        let mut attrs: Vec<SignedUserAttribute> = Vec::new();
        let mut pending = Pending::Nothing;
        proof {
            assert(grouped(rev@, direct@, users@, attrs@, pending) =~= parse_from(
                initial_state(),
                all.take(0),
            ));
        }
        while packets.len() > 0
            invariant
                0 <= k <= all.len(),
                packets@ == all.skip(k),
                grouped(rev@, direct@, users@, attrs@, pending) == parse_from(
                    initial_state(),
                    all.take(k),
                ),
            decreases packets@.len(),
        {
            let ghost before = grouped(rev@, direct@, users@, attrs@, pending);
            let packet = packets.remove(0);
            proof {
                assert(packets@ =~= all.skip(k + 1));
                assert(all.take(k + 1).drop_last() =~= all.take(k));
                assert(all.take(k + 1).last() == packet);
            }
            match packet {
                Packet::Signature(sig) => {
                    pending = match pending {
                        Pending::Nothing => {
                            if sig.typ == SignatureType::KeyRevocation {
                                rev.push(sig);
                            } else {
                                direct.push(sig);
                            }
                            Pending::Nothing
                        },
                        Pending::User(u) => {
                            let mut u = u;
                            u.signatures.push(sig);
                            Pending::User(u)
                        },
                        Pending::Attribute(a) => {
                            let mut a = a;
                            a.signatures.push(sig);
                            Pending::Attribute(a)
                        },
                    };
                },
                Packet::UserId(id) => {
                    settle(&mut users, &mut attrs, pending);
                    pending = Pending::User(SignedUser { id, signatures: Vec::new() });
                },
                Packet::UserAttribute(attr) => {
                    settle(&mut users, &mut attrs, pending);
                    pending = Pending::Attribute(SignedUserAttribute { attr, signatures: Vec::new() });
                },
            }
            proof {
                let after = grouped(rev@, direct@, users@, attrs@, pending);
                assert(after.details =~= step(before, packet).details);
                k = k + 1;
            }
        }
        proof {
            assert(all.take(k) =~= all);
        }
        settle(&mut users, &mut attrs, pending);
        let r = SignedKeyDetails {
            revocation_signatures: rev,
            direct_signatures: direct,
            users,
            user_attributes: attrs,
        };
        proof {
            assert(r@ =~= parse_packets(all));
        }
        r
    }
}

fn append_signatures(out: &mut Vec<Packet>, sigs: Vec<Signature>)
    ensures
        final(out)@ == old(out)@ + signature_packets(sigs@),
{
    let mut sigs = sigs;
    let ghost all = sigs@;
    let ghost start = out@;
    let ghost mut k: int = 0;
    while sigs.len() > 0
        invariant
            0 <= k <= all.len(),
            sigs@ == all.skip(k),
            out@ == start + signature_packets(all.take(k)),
        decreases sigs@.len(),
    {
        let sig = sigs.remove(0);
        out.push(Packet::Signature(sig));
        proof {
            assert(sigs@ =~= all.skip(k + 1));
            k = k + 1;
            assert(out@ =~= start + signature_packets(all.take(k)));
        }
    }
    proof {
        assert(all.take(k) =~= all);
    }
}

impl SignedKeyDetails {
    /// The packets of the signed part in wire order: revocation signatures, direct
    /// signatures, each user followed by its signatures, each user attribute followed
    /// by its signatures.
    pub fn into_packets(self) -> (r: Vec<Packet>)
        ensures
            r@ == wire_packets(self),
    {
        let ghost d = self;
        let mut out: Vec<Packet> = Vec::new();
        append_signatures(&mut out, self.revocation_signatures);
        append_signatures(&mut out, self.direct_signatures);
        let ghost before_users = out@;

        let mut users = self.users;
        let ghost all_users = users@;
        let ghost mut k: int = 0;
        while users.len() > 0
            invariant
                0 <= k <= all_users.len(),
                users@ == all_users.skip(k),
                out@ == before_users + user_packets(all_users.take(k)),
            decreases users@.len(),
        {
            let user = users.remove(0);
            proof {
                assert(users@ =~= all_users.skip(k + 1));
                assert(all_users.take(k + 1).drop_last() =~= all_users.take(k));
                assert(all_users.take(k + 1).last() == user);
            }
            out.push(Packet::UserId(user.id));
            append_signatures(&mut out, user.signatures);
            proof {
                k = k + 1;
                assert(out@ =~= before_users + user_packets(all_users.take(k)));
            }
        }
        proof {
            assert(all_users.take(k) =~= all_users);
        }
        let ghost before_attrs = out@;

        let mut attrs = self.user_attributes;
        let ghost all_attrs = attrs@;
        let ghost mut n: int = 0;
        while attrs.len() > 0
            invariant
                0 <= n <= all_attrs.len(),
                attrs@ == all_attrs.skip(n),
                out@ == before_attrs + attribute_packets(all_attrs.take(n)),
            decreases attrs@.len(),
        {
            let attr = attrs.remove(0);
            proof {
                assert(attrs@ =~= all_attrs.skip(n + 1));
                assert(all_attrs.take(n + 1).drop_last() =~= all_attrs.take(n));
                assert(all_attrs.take(n + 1).last() == attr);
            }
            out.push(Packet::UserAttribute(attr.attr));
            append_signatures(&mut out, attr.signatures);
            proof {
                n = n + 1;
                assert(out@ =~= before_attrs + attribute_packets(all_attrs.take(n)));
            }
        }
        proof {
            assert(all_attrs.take(n) =~= all_attrs);
            assert(out@ =~= wire_packets(d));
        }
        out
    }
}

} // verus!

pub mod certificate;
pub mod details;
pub mod outside;
pub mod packets;
pub mod types;

pub use certificate::{PublicOrSecret, SignedPublicKey, SignedSecretKey};
pub use details::{KeyDetails, SignedKeyDetails};
pub use outside::Preferences;
pub use packets::Packet;
pub use types::{
    Error, KeyFlags, PublicKeyTrait, RevocationKey, Signature, SignatureType, SignedUser,
    SignedUserAttribute, UserAttribute,
};

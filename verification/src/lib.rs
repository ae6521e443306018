//! A flag that can be flipped and read, and a verdict on Ed25519 signatures.
//!
//! The crate holds the wire codec of a signature record ([`codec`]), the
//! Ed25519 check of such a record against the fixed all-zero message
//! ([`signature`]), a one-flag state store ([`store`]), and the routing of
//! calls to them ([`dispatch`]).

pub mod codec;
pub mod dispatch;
pub mod record;
pub mod store;
pub mod signature;

pub use codec::DecodeError;
pub use dispatch::Call;
pub use dispatch::Reply;
pub use record::EdSignature;
pub use record::EdSignatureView;
pub use store::TestVerify;
pub use signature::VerifyResult;

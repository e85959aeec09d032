//! Validation of Distinguished Names for a federated identity protocol, and
//! assembly of identity certificates from signing requests.
//!
//! A [`name::Name`] holds relative components of typed attributes
//! ([`attributes::AttributeTypeAndValue`]). [`name::Name::validate`] checks a
//! name against the protocol's structural and cross-field rules for an
//! optional [`name::Target`] role; everything it decides is stated by
//! [`name::validation_outcome`]. The certificate side assembles a signed
//! certificate's content and digest input ([`cert::IdCertTBS::to_bytes`]);
//! the signer itself stays outside the library.

pub mod attributes;
pub mod bytes;
pub mod cert;
pub mod errors;
pub mod fid;
pub mod laws;
pub mod name;
pub mod session;

pub use cert::{FederationId, IdCert, IdCertTBS, IdCsr, Signature, SignatureAlgorithm};
pub use errors::ConstraintError;
pub use name::{Name, RelativeDistinguishedName, Target};
pub use session::SessionId;

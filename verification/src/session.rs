use vstd::prelude::*;

use crate::attributes::AttributeTypeAndValue;
use crate::errors::ConstraintError;
use crate::errors::err_invalid_session_id;
use crate::errors::msg_invalid_session_id;
use crate::bytes::copy_bytes;

verus! {

/// A session identifier is an opaque token naming one client session of an
/// actor: at least 1 and at most 32 bytes.
pub open spec fn valid_session_id(s: Seq<u8>) -> bool {
    1 <= s.len() <= 32
}

/// An opaque token naming one client session of an actor. Values of this type
/// always satisfy [`valid_session_id`].
pub struct SessionId {
    id: Vec<u8>,
}

impl View for SessionId {
    type V = Seq<u8>;

    closed spec fn view(&self) -> Seq<u8> {
        self.id@
    }
}

impl SessionId {
    /// Accept `id` as a session identifier if and only if it is well-formed.
    pub fn new_validated(id: &Vec<u8>) -> (r: Result<SessionId, ConstraintError>)
        ensures
            match r {
                Ok(sid) => valid_session_id(id@) && sid@ == id@,
                Err(e) => !valid_session_id(id@) && e.is_malformed(msg_invalid_session_id()),
            },
    {
        if id.len() < 1 || id.len() > 32 {
            Err(err_invalid_session_id())
        } else {
            Ok(SessionId { id: copy_bytes(id) })
        }
    }

    /// The bytes of the identifier.
    pub fn as_bytes(&self) -> (r: &Vec<u8>)
        ensures
            r@ == self@,
    {
        &self.id
    }
}

/// Check that an attribute's value is a well-formed session identifier, as a
/// `uniqueIdentifier` attribute must carry.
pub fn validate_rdn_unique_identifier(item: &AttributeTypeAndValue) -> (r: Result<
    (),
    ConstraintError,
>)
    ensures
        match r {
            Ok(u) => valid_session_id(item.value@),
            Err(e) => !valid_session_id(item.value@) && e.is_malformed(msg_invalid_session_id()),
        },
{
    match SessionId::new_validated(&item.value) {
        Ok(_) => Ok(()),
        Err(e) => Err(e),
    }
}

} // verus!

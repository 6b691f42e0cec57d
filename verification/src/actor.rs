//! The authenticated identity a use case acts on behalf of.

use vstd::prelude::*;

use crate::model::{Role, UserId};
use crate::ports::AccessClaims;

verus! {

/// Who is invoking a use case, independent of transport.
#[derive(Debug, Clone, Copy)]
pub struct Actor {
    pub user_id: UserId,
    pub role: Role,
}

impl From<AccessClaims> for Actor {
    fn from(claims: AccessClaims) -> (r: Self) {
        Actor { user_id: claims.user_id, role: claims.role }
    }
}

impl vstd::std_specs::convert::FromSpecImpl<AccessClaims> for Actor {
    open spec fn obeys_from_spec() -> bool {
        true
    }

    open spec fn from_spec(claims: AccessClaims) -> Self {
        Actor { user_id: claims.user_id, role: claims.role }
    }
}

} // verus!

//! OCS result codes, as `ocs.meta.statuscode` carries them.
use vstd::prelude::*;

verus! {

pub const OK_V1: i32 = 100;

pub const OK_V2: i32 = 200;

pub const CREATED: i32 = 201;

pub const BAD_REQUEST: i32 = 400;

pub const UNAUTHORISED: i32 = 401;

pub const FORBIDDEN: i32 = 403;

pub const NOT_FOUND: i32 = 404;

pub const FAILURE: i32 = 996;

pub const NOT_AUTHORISED: i32 = 997;

pub const LEGACY_NOT_FOUND: i32 = 998;

} // verus!

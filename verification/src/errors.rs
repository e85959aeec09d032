use vstd::prelude::*;

verus! {

/// Why a Distinguished Name (or one of its attributes) failed validation.
///
/// `OutOfBounds` reports a cardinality violation: the number of attributes of
/// some type lies outside `lower..=upper`. `Malformed` reports a semantic or
/// content violation, with an optional human-readable reason.
#[derive(Debug)]
pub enum ConstraintError {
    OutOfBounds { lower: usize, upper: usize, actual: usize, reason: String },
    Malformed(Option<String>),
}

impl ConstraintError {
    /// The error is a cardinality violation with exactly these bounds,
    /// count and reason text.
    pub open spec fn is_out_of_bounds(
        self,
        lower: usize,
        upper: usize,
        actual: usize,
        msg: Seq<char>,
    ) -> bool {
        &&& self matches ConstraintError::OutOfBounds {
            lower: l,
            upper: u,
            actual: a,
            reason: r,
        }
        &&& l == lower
        &&& u == upper
        &&& a == actual
        &&& r@ == msg
    }

    /// The error is a content violation carrying exactly this reason text.
    pub open spec fn is_malformed(self, msg: Seq<char>) -> bool {
        self matches ConstraintError::Malformed(Some(r)) && r@ == msg
    }
}

pub open spec fn msg_too_many_cn() -> Seq<char> {
    "Distinguished Names must not contain more than one Common Name field"@
}

pub open spec fn msg_home_server_uid() -> Seq<char> {
    "Home Servers must not have UID or uniqueIdentifier"@
}

pub open spec fn msg_missing_dc() -> Seq<char> {
    "Domain Component is missing in Name component"@
}

pub open spec fn msg_too_many_uid() -> Seq<char> {
    "Too many UID components supplied"@
}

pub open spec fn msg_too_many_unique_identifier() -> Seq<char> {
    "Too many uniqueIdentifier components supplied"@
}

pub open spec fn msg_only_unique_identifier() -> Seq<char> {
    "Actors must have uniqueIdentifier AND UID, only uniqueIdentifier found"@
}

pub open spec fn msg_only_uid() -> Seq<char> {
    "Actors must have uniqueIdentifier AND UID, only UID found"@
}

pub open spec fn msg_no_at_in_uid() -> Seq<char> {
    "UID does not contain an @"@
}

pub open spec fn msg_dc_uid_mismatch() -> Seq<char> {
    "Domain Components do not match the domain in the UID"@
}

pub open spec fn msg_too_many_dc_segments() -> Seq<char> {
    "More than 255 Domain Components found"@
}

pub open spec fn msg_uid_cn_mismatch() -> Seq<char> {
    "UID username does not match the Common Name"@
}

pub open spec fn msg_invalid_fid() -> Seq<char> {
    "Provided Federation ID (FID) in uid field seems to be invalid"@
}

pub open spec fn msg_invalid_session_id() -> Seq<char> {
    "Session IDs must be between 1 and 32 bytes long"@
}

pub fn err_too_many_cn(actual: usize) -> (e: ConstraintError)
    ensures
        e.is_out_of_bounds(1, 1, actual, msg_too_many_cn()),
{
    ConstraintError::OutOfBounds {
        lower: 1,
        upper: 1,
        actual,
        reason: "Distinguished Names must not contain more than one Common Name field".to_owned(),
    }
}

pub fn err_home_server_uid() -> (e: ConstraintError)
    ensures
        e.is_out_of_bounds(0, 0, 1, msg_home_server_uid()),
{
    ConstraintError::OutOfBounds {
        lower: 0,
        upper: 0,
        actual: 1,
        reason: "Home Servers must not have UID or uniqueIdentifier".to_owned(),
    }
}

pub fn err_missing_dc() -> (e: ConstraintError)
    ensures
        e.is_out_of_bounds(1, 255, 0, msg_missing_dc()),
{
    ConstraintError::OutOfBounds {
        lower: 1,
        upper: 255,
        actual: 0,
        reason: "Domain Component is missing in Name component".to_owned(),
    }
}

pub fn err_too_many_uid(actual: usize) -> (e: ConstraintError)
    ensures
        e.is_out_of_bounds(0, 1, actual, msg_too_many_uid()),
{
    ConstraintError::OutOfBounds {
        lower: 0,
        upper: 1,
        actual,
        reason: "Too many UID components supplied".to_owned(),
    }
}

pub fn err_too_many_unique_identifier(actual: usize) -> (e: ConstraintError)
    ensures
        e.is_out_of_bounds(0, 1, actual, msg_too_many_unique_identifier()),
{
    ConstraintError::OutOfBounds {
        lower: 0,
        upper: 1,
        actual,
        reason: "Too many uniqueIdentifier components supplied".to_owned(),
    }
}

pub fn err_only_unique_identifier(actual: usize) -> (e: ConstraintError)
    ensures
        e.is_out_of_bounds(1, 1, actual, msg_only_unique_identifier()),
{
    ConstraintError::OutOfBounds {
        lower: 1,
        upper: 1,
        actual,
        reason: "Actors must have uniqueIdentifier AND UID, only uniqueIdentifier found".to_owned(),
    }
}

pub fn err_only_uid(actual: usize) -> (e: ConstraintError)
    ensures
        e.is_out_of_bounds(1, 1, actual, msg_only_uid()),
{
    ConstraintError::OutOfBounds {
        lower: 1,
        upper: 1,
        actual,
        reason: "Actors must have uniqueIdentifier AND UID, only UID found".to_owned(),
    }
}

pub fn err_no_at_in_uid() -> (e: ConstraintError)
    ensures
        e.is_malformed(msg_no_at_in_uid()),
{
    ConstraintError::Malformed(Some("UID does not contain an @".to_owned()))
}

pub fn err_dc_uid_mismatch() -> (e: ConstraintError)
    ensures
        e.is_malformed(msg_dc_uid_mismatch()),
{
    ConstraintError::Malformed(Some("Domain Components do not match the domain in the UID".to_owned()))
}

pub fn err_too_many_dc_segments() -> (e: ConstraintError)
    ensures
        e.is_malformed(msg_too_many_dc_segments()),
{
    ConstraintError::Malformed(Some("More than 255 Domain Components found".to_owned()))
}

pub fn err_uid_cn_mismatch() -> (e: ConstraintError)
    ensures
        e.is_malformed(msg_uid_cn_mismatch()),
{
    ConstraintError::Malformed(Some("UID username does not match the Common Name".to_owned()))
}

pub fn err_invalid_fid() -> (e: ConstraintError)
    ensures
        e.is_malformed(msg_invalid_fid()),
{
    ConstraintError::Malformed(Some(
        "Provided Federation ID (FID) in uid field seems to be invalid".to_owned(),
    ))
}

pub fn err_invalid_session_id() -> (e: ConstraintError)
    ensures
        e.is_malformed(msg_invalid_session_id()),
{
    ConstraintError::Malformed(Some("Session IDs must be between 1 and 32 bytes long".to_owned()))
}

} // verus!

use vstd::prelude::*;

verus! {

/// Relies on uuid::Uuid::new_v4 and the hyphenated form that its `Display`
/// writes: 36 characters, with hyphens at positions 8, 13, 18 and 23.
#[verifier::external_body]
pub(crate) fn new_uuid() -> (r: String)
    ensures
        r@.len() == 36,
        r@[8] == '-' && r@[13] == '-' && r@[18] == '-' && r@[23] == '-',
{
    uuid::Uuid::new_v4().to_string()
}

/// Relies on chrono::offset::Local::now, formatted as `%F %X`: the local date
/// and time at the call, of which nothing is promised here.
#[verifier::external_body]
pub(crate) fn local_time_now() -> (r: String) {
    chrono::offset::Local::now().format("%F %X").to_string()
}

} // verus!

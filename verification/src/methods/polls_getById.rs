//! `polls.getById`: a poll, its question and its answers.

use vstd::prelude::*;
use crate::text::{
    decimal, decimal_int, i64_to_string, law_i64_text_round_trip, law_u64_text_round_trip, parse_i64_spec,
    parse_u64_spec, u64_to_string,
};
use crate::vk::ApiRequest;

verus! {

/// The request for poll `poll_id` of owner `owner_id`.
pub open spec fn request_spec(owner_id: i64, poll_id: u64) -> (
    Seq<char>,
    Seq<(Seq<char>, Seq<char>)>,
) {
    (
        "polls.getById"@,
        seq![("owner_id"@, decimal_int(owner_id as int)), ("poll_id"@, decimal(poll_id as nat))],
    )
}

/// The request for poll `poll_id` of owner `owner_id`.
pub fn request(owner_id: i64, poll_id: u64) -> (r: ApiRequest)
    ensures
        (r@.method, r@.args) == request_spec(owner_id, poll_id),
{
    let mut args: Vec<(String, String)> = Vec::new();
    args.push((String::from_str("owner_id"), i64_to_string(owner_id)));
    args.push((String::from_str("poll_id"), u64_to_string(poll_id)));
    let r = ApiRequest { method: String::from_str("polls.getById"), args };
    assert(r@.args =~= request_spec(owner_id, poll_id).1);
    r
}


/// The request's arguments name the owner id and the poll id, and their
/// texts read back as exactly those ids, whatever their sign.
pub proof fn law_request_reads_back(owner_id: i64, poll_id: u64)
    ensures
        ({
            let (method, args) = request_spec(owner_id, poll_id);
            &&& method == "polls.getById"@
            &&& args.len() == 2
            &&& args[0].0 == "owner_id"@
            &&& parse_i64_spec(args[0].1) == Some(owner_id)
            &&& args[1].0 == "poll_id"@
            &&& parse_u64_spec(args[1].1) == Some(poll_id)
        }),
{
    law_i64_text_round_trip(owner_id);
    law_u64_text_round_trip(poll_id);
}

} // verus!

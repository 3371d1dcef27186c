//! `messages.getChat`: a chat and its members.

use vstd::prelude::*;
use crate::text::{
    decimal, join, join_strings, lacks, law_split_join, law_u64_text_round_trip, parse_u64_spec, split_on,
    u64_to_string,
};
use crate::vk::ApiRequest;

verus! {

/// The request for chat `chat_id`, with texts in `lang` and the members'
/// `fields` asked for.
pub open spec fn request_spec(chat_id: u64, lang: Seq<char>, fields: Seq<Seq<char>>) -> (
    Seq<char>,
    Seq<(Seq<char>, Seq<char>)>,
) {
    (
        "messages.getChat"@,
        seq![
            ("chat_id"@, decimal(chat_id as nat)),
            ("lang"@, lang),
            ("fields"@, join(fields, ","@)),
        ],
    )
}

/// The request for chat `chat_id`: its id, the language and the member
/// fields joined with commas.
pub fn request(chat_id: u64, lang: &String, fields: &Vec<String>) -> (r: ApiRequest)
    ensures
        (r@.method, r@.args) == request_spec(chat_id, lang@, fields@.map_values(|f: String| f@)),
{
    let mut args: Vec<(String, String)> = Vec::new();
    args.push((String::from_str("chat_id"), u64_to_string(chat_id)));
    args.push((String::from_str("lang"), lang.clone()));
    args.push((String::from_str("fields"), join_strings(fields, ",")));
    let r = ApiRequest { method: String::from_str("messages.getChat"), args };
    assert(r@.args =~= request_spec(chat_id, lang@, fields@.map_values(|f: String| f@)).1);
    r
}


/// The request names the chat by an id that reads back as `chat_id`, passes
/// the language unchanged, and lists the fields so that splitting at the
/// commas gives them back (where there are fields and none holds a comma).
pub proof fn law_request_reads_back(chat_id: u64, lang: Seq<char>, fields: Seq<Seq<char>>)
    ensures
        ({
            let (method, args) = request_spec(chat_id, lang, fields);
            &&& method == "messages.getChat"@
            &&& args.len() == 3
            &&& args[0].0 == "chat_id"@
            &&& parse_u64_spec(args[0].1) == Some(chat_id)
            &&& args[1] == ("lang"@, lang)
            &&& args[2].0 == "fields"@
            &&& (fields.len() > 0 && (forall|i: int| 0 <= i < fields.len() ==> lacks(#[trigger] fields[i], ',')))
                ==> split_on(args[2].1, ',') == fields
        }),
{
    law_u64_text_round_trip(chat_id);
    reveal_strlit(",");
    assert(","@ =~= seq![',']);
    if fields.len() > 0 && (forall|i: int| 0 <= i < fields.len() ==> lacks(#[trigger] fields[i], ',')) {
        law_split_join(fields, ',');
    }
}

} // verus!

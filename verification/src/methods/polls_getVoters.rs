//! `polls.getVoters`: one page of the voters of each answer of a poll.

use vstd::prelude::*;
use crate::text::{
    decimal, decimal_int, i64_to_string, is_digit, join, join_i64, join_strings, lacks, law_i64_text_round_trip,
    law_split_join, law_u64_text_round_trip, lemma_decimal_int_chars, parse_i64_spec, parse_u64_spec, split_on,
    u64_to_string,
};
use crate::vk::ApiRequest;

verus! {

/// The request for the voters of `answer_ids` in poll `poll_id` of owner
/// `owner_id`, from position `offset` on, with the users' `fields` and
/// texts in `lang`.
pub open spec fn request_spec(
    owner_id: i64,
    poll_id: u64,
    answer_ids: Seq<i64>,
    offset: i64,
    fields: Seq<Seq<char>>,
    lang: Seq<char>,
) -> (Seq<char>, Seq<(Seq<char>, Seq<char>)>) {
    (
        "polls.getVoters"@,
        seq![
            ("owner_id"@, decimal_int(owner_id as int)),
            ("poll_id"@, decimal(poll_id as nat)),
            ("answer_ids"@, join(answer_ids.map_values(|x: i64| decimal_int(x as int)), ","@)),
            ("offset"@, decimal_int(offset as int)),
            ("fields"@, join(fields, ","@)),
            ("lang"@, lang),
        ],
    )
}

/// The request for one page of voters: ids and lists joined with commas.
pub fn request(
    owner_id: i64,
    poll_id: u64,
    answer_ids: &Vec<i64>,
    offset: i64,
    fields: &Vec<String>,
    lang: &String,
) -> (r: ApiRequest)
    ensures
        (r@.method, r@.args) == request_spec(
            owner_id,
            poll_id,
            answer_ids@,
            offset,
            fields@.map_values(|f: String| f@),
            lang@,
        ),
{
    let mut args: Vec<(String, String)> = Vec::new();
    args.push((String::from_str("owner_id"), i64_to_string(owner_id)));
    args.push((String::from_str("poll_id"), u64_to_string(poll_id)));
    args.push((String::from_str("answer_ids"), join_i64(answer_ids, ",")));
    args.push((String::from_str("offset"), i64_to_string(offset)));
    args.push((String::from_str("fields"), join_strings(fields, ",")));
    args.push((String::from_str("lang"), lang.clone()));
    let r = ApiRequest { method: String::from_str("polls.getVoters"), args };
    assert(r@.args =~= request_spec(
        owner_id,
        poll_id,
        answer_ids@,
        offset,
        fields@.map_values(|f: String| f@),
        lang@,
    ).1);
    r
}


/// The request's ids and offset read back as the given ones, the answer ids
/// split at the commas and read back as the given answer ids in order, and
/// the language is passed unchanged.
pub proof fn law_request_reads_back(
    owner_id: i64,
    poll_id: u64,
    answer_ids: Seq<i64>,
    offset: i64,
    fields: Seq<Seq<char>>,
    lang: Seq<char>,
)
    ensures
        ({
            let (method, args) = request_spec(owner_id, poll_id, answer_ids, offset, fields, lang);
            &&& method == "polls.getVoters"@
            &&& args.len() == 6
            &&& args[0].0 == "owner_id"@
            &&& parse_i64_spec(args[0].1) == Some(owner_id)
            &&& args[1].0 == "poll_id"@
            &&& parse_u64_spec(args[1].1) == Some(poll_id)
            &&& args[2].0 == "answer_ids"@
            &&& (answer_ids.len() > 0 ==> {
                let pieces = split_on(args[2].1, ',');
                &&& pieces.len() == answer_ids.len()
                &&& forall|i: int| 0 <= i < answer_ids.len() ==> parse_i64_spec(#[trigger] pieces[i]) == Some(
                    answer_ids[i],
                )
            })
            &&& args[3].0 == "offset"@
            &&& parse_i64_spec(args[3].1) == Some(offset)
            &&& args[4].0 == "fields"@
            &&& (fields.len() > 0 && (forall|i: int| 0 <= i < fields.len() ==> lacks(#[trigger] fields[i], ',')))
                ==> split_on(args[4].1, ',') == fields
            &&& args[5] == ("lang"@, lang)
        }),
{
    law_i64_text_round_trip(owner_id);
    law_u64_text_round_trip(poll_id);
    law_i64_text_round_trip(offset);
    reveal_strlit(",");
    assert(","@ =~= seq![',']);
    if fields.len() > 0 && (forall|i: int| 0 <= i < fields.len() ==> lacks(#[trigger] fields[i], ',')) {
        law_split_join(fields, ',');
    }
    if answer_ids.len() > 0 {
        let items = answer_ids.map_values(|x: i64| decimal_int(x as int));
        assert(!is_digit(','));
        assert forall|i: int| 0 <= i < items.len() implies lacks(#[trigger] items[i], ',') by {
            lemma_decimal_int_chars(answer_ids[i] as int, ',');
        }
        law_split_join(items, ',');
        assert forall|i: int| 0 <= i < answer_ids.len() implies parse_i64_spec(#[trigger] items[i]) == Some(
            answer_ids[i],
        ) by {
            law_i64_text_round_trip(answer_ids[i]);
        }
    }
}

} // verus!

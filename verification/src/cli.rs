//! What a run does once its settings are read: which tool runs, with which
//! arguments.

use vstd::prelude::*;
use vstd::hash_map::StringHashMap;
use crate::args_parser::{Convert, Value, ValueView, settings_view};
use crate::text::{split_on, parse_i64_spec, parse_u64_spec};
use crate::tools::voter;

verus! {

/// A run of the voter tool: the poll, the chat, the language, and the file
/// to write the report to (`None` to print it).
pub struct VoterJob {
    pub owner_id: i64,
    pub poll_id: u64,
    pub chat_id: u64,
    pub lang: String,
    pub out: Option<String>,
}

/// What a run does.
pub enum Command {
    /// No tool was asked for.
    Nothing,
    /// The voter tool runs.
    Voter(VoterJob),
}

/// A command as plain values.
pub enum CommandView {
    Nothing,
    Voter { owner_id: i64, poll_id: u64, chat_id: u64, lang: Seq<char>, out: Option<Seq<char>> },
}

impl View for Command {
    type V = CommandView;

    open spec fn view(&self) -> CommandView {
        match self {
            Command::Nothing => CommandView::Nothing,
            Command::Voter(j) => CommandView::Voter {
                owner_id: j.owner_id,
                poll_id: j.poll_id,
                chat_id: j.chat_id,
                lang: j.lang@,
                out: match j.out {
                    Some(o) => Some(o@),
                    None => None,
                },
            },
        }
    }
}

/// The setting `k` of `m`, where there is one.
pub open spec fn entry(m: Map<Seq<char>, ValueView>, k: Seq<char>) -> Option<ValueView> {
    if m.dom().contains(k) {
        Some(m[k])
    } else {
        None
    }
}

/// The access token: the `token` setting, which must be a string. `None`
/// where the run cannot go on and the program stops with a panic.
pub open spec fn token_spec(m: Map<Seq<char>, ValueView>) -> Option<Seq<char>> {
    match entry(m, "token"@) {
        Some(ValueView::Str(t)) => Some(t),
        _ => None,
    }
}

/// What a run with settings `m` does: the voter tool where `voter` is set,
/// with the poll, chat and language that the voter settings hold and the
/// `out` file where one is set. `None` where the run cannot go on and the
/// program stops with a panic: a voter setting is missing or of another
/// kind, or `out` is not a string.
pub open spec fn call_spec(m: Map<Seq<char>, ValueView>) -> Option<CommandView> {
    if !m.dom().contains("voter"@) {
        Some(CommandView::Nothing)
    } else {
        match (
            entry(m, "voter::owner_id"@),
            entry(m, "voter::poll_id"@),
            entry(m, "voter::chat_id"@),
            entry(m, "voter::lang"@),
        ) {
            (
                Some(ValueView::Int(owner_id)),
                Some(ValueView::UInt(poll_id)),
                Some(ValueView::UInt(chat_id)),
                Some(ValueView::Str(lang)),
            ) => match entry(m, "out"@) {
                None => Some(CommandView::Voter { owner_id, poll_id, chat_id, lang, out: None }),
                Some(ValueView::Str(o)) => Some(
                    CommandView::Voter { owner_id, poll_id, chat_id, lang, out: Some(o) },
                ),
                Some(_) => None,
            },
            _ => None,
        }
    }
}

fn get_setting<'a>(map: &'a StringHashMap<Value>, k: &str) -> (r: Option<&'a Value>)
    ensures
        match r {
            Some(v) => entry(settings_view(map@), k@) == Some(v@),
            None => entry(settings_view(map@), k@) is None,
        },
{
    map.get(k)
}

/// The access token (see [`token_spec`]).
pub fn token(map: &StringHashMap<Value>) -> (r: Option<String>)
    ensures
        match token_spec(settings_view(map@)) {
            Some(t) => r matches Some(s) && s@ == t,
            None => r is None,
        },
{
    match get_setting(map, "token") {
        Some(v) => match v.as_str() {
            Ok(t) => Some(t),
            Err(_) => None,
        },
        None => None,
    }
}

/// What a run does with its settings (see [`call_spec`]).
pub fn call(map: &StringHashMap<Value>) -> (r: Option<Command>)
    ensures
        match call_spec(settings_view(map@)) {
            Some(c) => r matches Some(x) && x@ == c,
            None => r is None,
        },
{
    if !map.contains_key("voter") {
        return Some(Command::Nothing);
    }
    let owner_id = match get_setting(map, "voter::owner_id") {
        Some(v) => match v.as_i64() {
            Ok(x) => x,
            Err(_) => return None,
        },
        None => return None,
    };
    let poll_id = match get_setting(map, "voter::poll_id") {
        Some(v) => match v.as_u64() {
            Ok(x) => x,
            Err(_) => return None,
        },
        None => return None,
    };
    let chat_id = match get_setting(map, "voter::chat_id") {
        Some(v) => match v.as_u64() {
            Ok(x) => x,
            Err(_) => return None,
        },
        None => return None,
    };
    let lang = match get_setting(map, "voter::lang") {
        Some(v) => match v.as_str() {
            Ok(x) => x,
            Err(_) => return None,
        },
        None => return None,
    };
    let out = match get_setting(map, "out") {
        Some(v) => match v.as_str() {
            Ok(x) => Some(x),
            Err(_) => return None,
        },
        None => None,
    };
    Some(Command::Voter(VoterJob { owner_id, poll_id, chat_id, lang, out }))
}


/// Once a voter argument is read without error, a run with those settings
/// is the voter tool for the owner id, poll id, chat id and language that
/// the argument holds, writing to the `out` file where one is set (as a
/// string) before.
pub proof fn law_parsed_voter_runs(m: Map<Seq<char>, ValueView>, val: Seq<char>)
    requires
        voter::parse_spec(m, val) matches Some((_, Ok(()))),
        entry(m, "out"@) matches Some(o) ==> o is Str,
    ensures
        ({
            let m1 = voter::parse_spec(m, val).unwrap().0;
            let parts = split_on(val, ':');
            call_spec(m1) == Some(
                CommandView::Voter {
                    owner_id: parse_i64_spec(parts[0]).unwrap(),
                    poll_id: parse_u64_spec(parts[1]).unwrap(),
                    chat_id: parse_u64_spec(parts[2]).unwrap(),
                    lang: parts[3],
                    out: match entry(m, "out"@) {
                        Some(ValueView::Str(o)) => Some(o),
                        _ => None,
                    },
                },
            )
        }),
{
    reveal_strlit("out");
    reveal_strlit("voter");
    reveal_strlit("voter::owner_id");
    reveal_strlit("voter::poll_id");
    reveal_strlit("voter::chat_id");
    reveal_strlit("voter::lang");
    assert("out"@.len() != "voter"@.len());
    assert("out"@.len() != "voter::owner_id"@.len());
    assert("out"@.len() != "voter::poll_id"@.len());
    assert("out"@.len() != "voter::chat_id"@.len());
    assert("out"@.len() != "voter::lang"@.len());
    assert("voter"@.len() != "voter::owner_id"@.len());
    assert("voter"@.len() != "voter::poll_id"@.len());
    assert("voter"@.len() != "voter::chat_id"@.len());
    assert("voter"@.len() != "voter::lang"@.len());
    assert("voter::lang"@.len() != "voter::owner_id"@.len());
    assert("voter::lang"@.len() != "voter::poll_id"@.len());
    assert("voter::lang"@.len() != "voter::chat_id"@.len());
    assert("voter::owner_id"@.len() != "voter::poll_id"@.len());
    assert("voter::owner_id"@.len() != "voter::chat_id"@.len());
    assert("voter::poll_id"@[7] != "voter::chat_id"@[7]);
}

} // verus!

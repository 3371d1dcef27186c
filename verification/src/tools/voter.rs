//! The "voter" tool: which members of a chat voted in a poll, for which
//! answers, and who voted without being a member.

use vstd::prelude::*;
use vstd::hash_map::StringHashMap;
use crate::args_parser::{Value, ValueView, settings_view, lemma_settings_view_insert};
use crate::vk::{ApiRequest, ApiRequestView};
use crate::methods::{messages_getChat, polls_getById, polls_getVoters};
use crate::text::{decimal, decimal_int, join, lemma_join_push, push_decimal, push_decimal_i64, split_char, split_on, unit_result_view, parse_i64_spec, parse_u64_spec};

verus! {

// ---------------------------------------------------------------------------
// The `OwnerID:PollID:ChatID:lang` argument
// ---------------------------------------------------------------------------

/// What the `regex` crate answers for `pattern` and `text`: `None` where the
/// pattern does not compile, else whether the pattern matches somewhere in
/// the text.
pub uninterp spec fn regex_match(pattern: Seq<char>, text: Seq<char>) -> Option<bool>;

/// Compiles `pattern` with `regex::Regex::new` and, where that succeeds,
/// tests `text` with `Regex::is_match`. The answer is named `regex_match`;
/// what the pattern language means is not restated here.
#[verifier::external_body]
fn regex_is_match(pattern: &str, text: &str) -> (r: Option<bool>)
    ensures
        r == regex_match(pattern@, text@),
{
    match regex::Regex::new(pattern) {
        Ok(re) => Some(re.is_match(text)),
        Err(_) => None,
    }
}

/// Reads `s` as an `i64` through `try_from::TryFrom<&str>`, which is
/// `i64::from_str`: an optional sign and ASCII digits, in range.
#[verifier::external_body]
fn i64_try_from(s: &str) -> (r: Option<i64>)
    ensures
        r == parse_i64_spec(s@),
{
    <i64 as try_from::TryFrom<&str>>::try_from(s).ok()
}

/// Reads `s` as a `u64` through `try_from::TryFrom<&str>`, which is
/// `u64::from_str`: an optional `+` and ASCII digits, in range.
#[verifier::external_body]
fn u64_try_from(s: &str) -> (r: Option<u64>)
    ensures
        r == parse_u64_spec(s@),
{
    <u64 as try_from::TryFrom<&str>>::try_from(s).ok()
}

/// The pattern that a voter argument must match.
pub open spec fn voter_format_spec() -> Seq<char> {
    "^[+-]?\\d+:\\d+:\\d+:[a-z]+$"@
}

/// The pattern that a voter argument must match: a signed owner id, a poll
/// id, a chat id and a language code, separated by colons.
pub fn voter_format() -> (r: &'static str)
    ensures
        r@ == voter_format_spec(),
{
    "^[+-]?\\d+:\\d+:\\d+:[a-z]+$"
}

/// The error for an argument that does not have the voter format.
pub open spec fn check_msg(val: Seq<char>) -> Seq<char> {
    "Can't check \""@ + val + "\" as OwnerID:PollID:ChatID:lang."@
}

/// The error for a piece that does not read as an integer of kind `kind`.
pub open spec fn parse_msg(kind: Seq<char>, piece: Seq<char>) -> Seq<char> {
    "Can't parse "@ + kind + " from \""@ + piece + "\"."@
}

fn check_error(val: &str) -> (r: String)
    ensures
        r@ == check_msg(val@),
{
    let mut s = String::from_str("Can't check \"");
    s.append(val);
    s.append("\" as OwnerID:PollID:ChatID:lang.");
    assert(s@ =~= check_msg(val@));
    s
}

fn parse_error(kind: &str, piece: &str) -> (r: String)
    ensures
        r@ == parse_msg(kind@, piece@),
{
    let mut s = String::from_str("Can't parse ");
    s.append(kind);
    s.append(" from \"");
    s.append(piece);
    s.append("\".");
    assert(s@ =~= parse_msg(kind@, piece@));
    s
}

/// Tests a voter argument against the voter format: `Ok` where it matches,
/// the error that names it where it does not. `None` where the pattern does
/// not compile.
pub fn check(val: &str) -> (r: Option<Result<(), String>>)
    ensures
        match regex_match(voter_format_spec(), val@) {
            None => r is None,
            Some(true) => r == Some(Ok::<(), String>(())),
            Some(false) => r matches Some(Err(e)) && e@ == check_msg(val@),
        },
{
    match regex_is_match(voter_format(), val) {
        None => None,
        Some(true) => Some(Ok(())),
        Some(false) => Some(Err(check_error(val))),
    }
}

/// The settings after reading the voter argument `val` into `m`, and the
/// outcome; `None` where the pattern does not compile or a matching
/// argument has fewer than four colon-separated pieces.
///
/// The pieces are read in turn; a piece that does not read leaves the
/// settings of the pieces before it in place.
pub open spec fn parse_spec(m: Map<Seq<char>, ValueView>, val: Seq<char>) -> Option<
    (Map<Seq<char>, ValueView>, Result<(), Seq<char>>),
> {
    match regex_match(voter_format_spec(), val) {
        None => None,
        Some(false) => Some((m, Err(check_msg(val)))),
        Some(true) => {
            let parts = split_on(val, ':');
            if parts.len() < 4 {
                None
            } else {
                match parse_i64_spec(parts[0]) {
                    None => Some((m, Err(parse_msg("i64"@, parts[0])))),
                    Some(owner) => {
                        let m1 = m.insert("voter::owner_id"@, ValueView::Int(owner));
                        match parse_u64_spec(parts[1]) {
                            None => Some((m1, Err(parse_msg("u64"@, parts[1])))),
                            Some(poll) => {
                                let m2 = m1.insert("voter::poll_id"@, ValueView::UInt(poll));
                                match parse_u64_spec(parts[2]) {
                                    None => Some((m2, Err(parse_msg("u64"@, parts[2])))),
                                    Some(chat) => {
                                        let m3 = m2.insert("voter::chat_id"@, ValueView::UInt(chat));
                                        Some(
                                            (
                                                m3.insert("voter::lang"@, ValueView::Str(parts[3])).insert(
                                                    "voter"@,
                                                    ValueView::Bool(true),
                                                ),
                                                Ok(()),
                                            ),
                                        )
                                    },
                                }
                            },
                        }
                    },
                }
            }
        },
    }
}

fn insert_setting(map: &mut StringHashMap<Value>, key: &str, v: Value)
    ensures
        settings_view(final(map)@) == settings_view(old(map)@).insert(key@, v@),
{
    let ghost old_m = map@;
    map.insert(String::from_str(key), v);
    proof {
        lemma_settings_view_insert(old_m, key@, v);
    }
}

/// Reads the voter argument `val` into the settings: the owner id, poll id,
/// chat id and language under `voter::owner_id`, `voter::poll_id`,
/// `voter::chat_id` and `voter::lang`, and `voter` set to `true`.
/// `None` where the run cannot go on and the program stops with a panic
/// (see [`parse_spec`]).
pub fn parse(map: &mut StringHashMap<Value>, val: &str) -> (r: Option<Result<(), String>>)
    ensures
        match parse_spec(settings_view(old(map)@), val@) {
            None => r is None,
            Some((m, res)) => r matches Some(x) && unit_result_view(x) == res && settings_view(
                final(map)@,
            ) == m,
        },
{
    match regex_is_match(voter_format(), val) {
        None => return None,
        Some(false) => return Some(Err(check_error(val))),
        Some(true) => {},
    }
    let parts = split_char(val, ':');
    proof {
        assert(parts@.map_values(|p: String| p@).len() == parts@.len());
    }
    if parts.len() < 4 {
        return None;
    }
    let ghost pv = parts@.map_values(|p: String| p@);
    assert(pv[0] == parts[0]@ && pv[1] == parts[1]@ && pv[2] == parts[2]@ && pv[3] == parts[3]@);
    let owner = match i64_try_from(parts[0].as_str()) {
        Some(v) => v,
        None => return Some(Err(parse_error("i64", parts[0].as_str()))),
    };
    insert_setting(map, "voter::owner_id", Value::Int(owner));
    let poll = match u64_try_from(parts[1].as_str()) {
        Some(v) => v,
        None => return Some(Err(parse_error("u64", parts[1].as_str()))),
    };
    insert_setting(map, "voter::poll_id", Value::UInt(poll));
    let chat = match u64_try_from(parts[2].as_str()) {
        Some(v) => v,
        None => return Some(Err(parse_error("u64", parts[2].as_str()))),
    };
    insert_setting(map, "voter::chat_id", Value::UInt(chat));
    insert_setting(map, "voter::lang", Value::Str(parts[3].clone()));
    insert_setting(map, "voter", Value::Bool(true));
    Some(Ok(()))
}


// ---------------------------------------------------------------------------
// Users, answers and the tally of votes
// ---------------------------------------------------------------------------

/// A user: id and name.
pub struct User {
    pub id: i64,
    pub first_name: String,
    pub last_name: String,
}

/// A user with the name taken as character sequences.
pub struct UserView {
    pub id: i64,
    pub first_name: Seq<char>,
    pub last_name: Seq<char>,
}

impl View for User {
    type V = UserView;

    open spec fn view(&self) -> UserView {
        UserView { id: self.id, first_name: self.first_name@, last_name: self.last_name@ }
    }
}

/// The views of a list of users.
pub open spec fn users_view(us: Seq<User>) -> Seq<UserView> {
    us.map_values(|u: User| u@)
}

impl User {
    /// A copy of this user.
    pub fn copy(&self) -> (r: User)
        ensures
            r@ == self@,
    {
        User { id: self.id, first_name: self.first_name.clone(), last_name: self.last_name.clone() }
    }
}

/// An answer of a poll as `polls.getById` describes it.
pub struct AnswerInfo {
    pub id: i64,
    pub text: String,
    pub votes: i64,
}

/// A poll as `polls.getById` describes it: the number of votes, the
/// question and the answers.
pub struct PollInfo {
    pub votes: i64,
    pub question: String,
    pub answers: Vec<AnswerInfo>,
}

/// The voters of one answer on one page of `polls.getVoters`.
pub struct AnswerVoters {
    pub answer_id: i64,
    pub users: Vec<User>,
}

/// The voters of one answer, as character sequences.
pub struct AnswerVotersView {
    pub answer_id: i64,
    pub users: Seq<UserView>,
}

impl View for AnswerVoters {
    type V = AnswerVotersView;

    open spec fn view(&self) -> AnswerVotersView {
        AnswerVotersView { answer_id: self.answer_id, users: users_view(self.users@) }
    }
}

/// The views of a page of voters.
pub open spec fn page_view(p: Seq<AnswerVoters>) -> Seq<AnswerVotersView> {
    p.map_values(|e: AnswerVoters| e@)
}

/// An answer with the users recorded as its voters so far.
pub struct Answer {
    pub id: i64,
    pub text: String,
    pub votes: i64,
    pub users: Vec<User>,
}

/// An answer as character sequences.
pub struct AnswerView {
    pub id: i64,
    pub text: Seq<char>,
    pub votes: i64,
    pub users: Seq<UserView>,
}

impl View for Answer {
    type V = AnswerView;

    open spec fn view(&self) -> AnswerView {
        AnswerView { id: self.id, text: self.text@, votes: self.votes, users: users_view(self.users@) }
    }
}

/// The tally of a poll: each answer with its voters, the chat members who
/// have not voted, and the voters who are not (or no longer) counted among
/// the members who have not voted.
pub struct Tally {
    pub answers: Vec<Answer>,
    pub not_voted: Vec<User>,
    pub voted_but: Vec<User>,
}

/// A tally as character sequences.
pub struct TallyView {
    pub answers: Seq<AnswerView>,
    pub not_voted: Seq<UserView>,
    pub voted_but: Seq<UserView>,
}

impl View for Tally {
    type V = TallyView;

    open spec fn view(&self) -> TallyView {
        TallyView {
            answers: self.answers@.map_values(|a: Answer| a@),
            not_voted: users_view(self.not_voted@),
            voted_but: users_view(self.voted_but@),
        }
    }
}

/// Some user in `s` has id `id`.
pub open spec fn has_id(s: Seq<UserView>, id: i64) -> bool {
    exists|i: int| 0 <= i < s.len() && s[i].id == id
}

/// `s` without the users whose id is `id`, the others in their order.
pub open spec fn without_id(s: Seq<UserView>, id: i64) -> Seq<UserView>
    decreases s.len(),
{
    if s.len() == 0 {
        s
    } else {
        let rest = without_id(s.drop_last(), id);
        if s.last().id == id {
            rest
        } else {
            rest.push(s.last())
        }
    }
}

/// Records that `u` voted for answer `a`: a user who is not among the
/// members still to vote is added to `voted_but`; every user with that id
/// leaves `not_voted`; `u` joins the voters of the answer.
pub open spec fn record_user(t: TallyView, a: int, u: UserView) -> TallyView {
    TallyView {
        answers: t.answers.update(a, AnswerView { users: t.answers[a].users.push(u), ..t.answers[a] }),
        not_voted: without_id(t.not_voted, u.id),
        voted_but: if has_id(t.not_voted, u.id) {
            t.voted_but
        } else {
            t.voted_but.push(u)
        },
    }
}

/// Records the users `us`, in order, as voters of answer `a`.
pub open spec fn record_users(t: TallyView, a: int, us: Seq<UserView>) -> TallyView
    decreases us.len(),
{
    if us.len() == 0 {
        t
    } else {
        record_user(record_users(t, a, us.drop_last()), a, us.last())
    }
}

/// Records the voters of `e` for each of the first `n` answers whose id is
/// the one of `e`, in order.
pub open spec fn record_entry_upto(t: TallyView, e: AnswerVotersView, n: nat) -> TallyView
    decreases n,
{
    if n == 0 {
        t
    } else {
        let t1 = record_entry_upto(t, e, (n - 1) as nat);
        if t1.answers[n - 1].id == e.answer_id {
            record_users(t1, n - 1, e.users)
        } else {
            t1
        }
    }
}

/// Records the voters of `e` for every answer with the id of `e`.
pub open spec fn record_entry(t: TallyView, e: AnswerVotersView) -> TallyView {
    record_entry_upto(t, e, t.answers.len())
}

/// Records the entries of a page of voters, in order.
pub open spec fn record_page(t: TallyView, p: Seq<AnswerVotersView>) -> TallyView
    decreases p.len(),
{
    if p.len() == 0 {
        t
    } else {
        record_entry(record_page(t, p.drop_last()), p.last())
    }
}

/// Two tallies have answers with the same ids, texts and announced votes.
pub open spec fn same_answers(t1: TallyView, t2: TallyView) -> bool {
    &&& t1.answers.len() == t2.answers.len()
    &&& forall|i: int|
        0 <= i < t1.answers.len() ==> #[trigger] t1.answers[i].id == t2.answers[i].id
            && t1.answers[i].text == t2.answers[i].text && t1.answers[i].votes
            == t2.answers[i].votes
}

proof fn lemma_record_users_same_answers(t: TallyView, a: int, us: Seq<UserView>)
    requires
        0 <= a < t.answers.len(),
    ensures
        same_answers(t, record_users(t, a, us)),
    decreases us.len(),
{
    if us.len() > 0 {
        lemma_record_users_same_answers(t, a, us.drop_last());
    }
}

proof fn lemma_record_entry_upto_same_answers(t: TallyView, e: AnswerVotersView, n: nat)
    requires
        n <= t.answers.len(),
    ensures
        same_answers(t, record_entry_upto(t, e, n)),
    decreases n,
{
    if n > 0 {
        lemma_record_entry_upto_same_answers(t, e, (n - 1) as nat);
        let t1 = record_entry_upto(t, e, (n - 1) as nat);
        if t1.answers[n - 1].id == e.answer_id {
            lemma_record_users_same_answers(t1, n - 1, e.users);
        }
    }
}

proof fn lemma_record_page_same_answers(t: TallyView, p: Seq<AnswerVotersView>)
    ensures
        same_answers(t, record_page(t, p)),
    decreases p.len(),
{
    if p.len() > 0 {
        lemma_record_page_same_answers(t, p.drop_last());
        let t1 = record_page(t, p.drop_last());
        lemma_record_entry_upto_same_answers(t1, p.last(), t1.answers.len());
    }
}

fn contains_id(s: &Vec<User>, id: i64) -> (r: bool)
    ensures
        r == has_id(users_view(s@), id),
{
    let mut i: usize = 0;
    while i < s.len()
        invariant
            i <= s.len(),
            forall|j: int| 0 <= j < i ==> s@[j].id != id,
        decreases s.len() - i,
    {
        if s[i].id == id {
            assert(users_view(s@)[i as int].id == id);
            return true;
        }
        i = i + 1;
    }
    assert forall|j: int| 0 <= j < users_view(s@).len() implies users_view(s@)[j].id != id by {
        assert(users_view(s@)[j] == s@[j]@);
    }
    false
}

fn remove_id(s: &Vec<User>, id: i64) -> (r: Vec<User>)
    ensures
        users_view(r@) == without_id(users_view(s@), id),
{
    let mut r: Vec<User> = Vec::new();
    let mut i: usize = 0;
    assert(users_view(s@).take(0) =~= Seq::<UserView>::empty());
    while i < s.len()
        invariant
            i <= s.len(),
            users_view(r@) == without_id(users_view(s@).take(i as int), id),
        decreases s.len() - i,
    {
        assert(users_view(s@).take(i + 1).drop_last() =~= users_view(s@).take(i as int));
        if s[i].id != id {
            let ghost before = users_view(r@);
            r.push(s[i].copy());
            assert(users_view(r@) =~= before.push(s@[i as int]@));
        }
        i = i + 1;
    }
    assert(users_view(s@).take(s.len() as int) =~= users_view(s@));
    r
}

impl Tally {
    fn record_user(&mut self, a: usize, u: &User)
        requires
            a < old(self).answers.len(),
        ensures
            final(self)@ == record_user(old(self)@, a as int, u@),
            final(self).answers.len() == old(self).answers.len(),
    {
        let ghost t = self@;
        if !contains_id(&self.not_voted, u.id) {
            self.voted_but.push(u.copy());
        }
        self.not_voted = remove_id(&self.not_voted, u.id);
        let ghost before = self.answers@;
        let v = u.copy();
        self.answers[a].users.push(v);
        assert(self.answers@.len() == before.len());
        assert(self.answers@[a as int].users@ == before[a as int].users@.push(v));
        assert(users_view(self.answers@[a as int].users@) =~= users_view(before[a as int].users@).push(u@));
        assert forall|i: int| 0 <= i < before.len() && i != a implies self.answers@[i] == before[i] by {}
        assert(self@.voted_but =~= record_user(t, a as int, u@).voted_but);
        assert(self@.answers =~= record_user(t, a as int, u@).answers);
    }

    fn record_users(&mut self, a: usize, us: &Vec<User>)
        requires
            a < old(self).answers.len(),
        ensures
            final(self)@ == record_users(old(self)@, a as int, users_view(us@)),
            final(self).answers.len() == old(self).answers.len(),
    {
        let ghost t = self@;
        let mut k: usize = 0;
        assert(users_view(us@).take(0) =~= Seq::<UserView>::empty());
        while k < us.len()
            invariant
                k <= us.len(),
                a < self.answers.len(),
                self.answers.len() == t.answers.len(),
                self@ == record_users(t, a as int, users_view(us@).take(k as int)),
            decreases us.len() - k,
        {
            assert(users_view(us@).take(k + 1).drop_last() =~= users_view(us@).take(k as int));
            assert(users_view(us@).take(k + 1).last() == us@[k as int]@);
            self.record_user(a, &us[k]);
            k = k + 1;
        }
        assert(users_view(us@).take(us.len() as int) =~= users_view(us@));
    }

    fn record_entry(&mut self, e: &AnswerVoters)
        ensures
            final(self)@ == record_entry(old(self)@, e@),
            final(self).answers.len() == old(self).answers.len(),
    {
        let ghost t = self@;
        let n = self.answers.len();
        let mut j: usize = 0;
        while j < n
            invariant
                j <= n,
                n == self.answers.len(),
                n == t.answers.len(),
                self@ == record_entry_upto(t, e@, j as nat),
            decreases n - j,
        {
            if self.answers[j].id == e.answer_id {
                self.record_users(j, &e.users);
            }
            j = j + 1;
        }
    }

    /// Records a page of voters (see [`record_page`]).
    pub fn record_page(&mut self, page: &Vec<AnswerVoters>)
        ensures
            final(self)@ == record_page(old(self)@, page_view(page@)),
    {
        let ghost t = self@;
        let mut k: usize = 0;
        assert(page_view(page@).take(0) =~= Seq::<AnswerVotersView>::empty());
        while k < page.len()
            invariant
                k <= page.len(),
                self@ == record_page(t, page_view(page@).take(k as int)),
            decreases page.len() - k,
        {
            assert(page_view(page@).take(k + 1).drop_last() =~= page_view(page@).take(k as int));
            assert(page_view(page@).take(k + 1).last() == page@[k as int]@);
            self.record_entry(&page[k]);
            k = k + 1;
        }
        assert(page_view(page@).take(page.len() as int) =~= page_view(page@));
    }
}


// ---------------------------------------------------------------------------
// The report
// ---------------------------------------------------------------------------

/// How the report lists a user.
pub open spec fn user_block(u: UserView) -> Seq<char> {
    "        - user:\n          - id: "@ + decimal_int(u.id as int) + "\n          - name: \""@
        + u.last_name + " "@ + u.first_name + "\""@
}

/// How the report lists users: one block each, separated by line breaks.
pub open spec fn users_text(us: Seq<UserView>) -> Seq<char> {
    join(us.map_values(|u: UserView| user_block(u)), "\n"@)
}

/// How the report lists an answer and its voters.
pub open spec fn answer_block(a: AnswerView) -> Seq<char> {
    "    - answer:\n      - id: "@ + decimal_int(a.id as int) + "\n      - text: \""@ + a.text
        + "\"\n      - votes: "@ + decimal_int(a.votes as int) + "\n      - users:\n"@
        + users_text(a.users)
}

/// How the report lists the answers.
pub open spec fn answers_text(answers: Seq<AnswerView>) -> Seq<char> {
    join(answers.map_values(|a: AnswerView| answer_block(a)), "\n"@)
}

/// The report on a poll with `votes` votes, question `question` and id
/// `poll_id`, after the tally `t`.
pub open spec fn report(votes: i64, question: Seq<char>, poll_id: u64, t: TallyView) -> Seq<char> {
    "voter:\n  votes: "@ + decimal_int(votes as int) + "\n  text: \""@ + question + "\"\n  id: "@
        + decimal(poll_id as nat) + "\n  answers: \n"@ + answers_text(t.answers)
        + "\n  not_voted:\n"@ + users_text(t.not_voted) + "\n  voted_but:\n"@ + users_text(
        t.voted_but,
    )
}

fn push_user_block(s: &mut String, u: &User)
    ensures
        final(s)@ == old(s)@ + user_block(u@),
{
    s.append("        - user:\n          - id: ");
    push_decimal_i64(s, u.id);
    s.append("\n          - name: \"");
    s.append(u.last_name.as_str());
    s.append(" ");
    s.append(u.first_name.as_str());
    s.append("\"");
    assert(final(s)@ =~= old(s)@ + user_block(u@));
}

fn push_users(s: &mut String, us: &Vec<User>)
    ensures
        final(s)@ == old(s)@ + users_text(users_view(us@)),
{
    let ghost start = s@;
    let ghost items = users_view(us@).map_values(|u: UserView| user_block(u));
    let mut i: usize = 0;
    assert(items.take(0) =~= Seq::<Seq<char>>::empty());
    assert(s@ =~= start + join(items.take(0), "\n"@));
    while i < us.len()
        invariant
            i <= us.len(),
            items == users_view(us@).map_values(|u: UserView| user_block(u)),
            items.len() == us.len(),
            s@ == start + join(items.take(i as int), "\n"@),
        decreases us.len() - i,
    {
        proof {
            assert(items.take(i + 1) =~= items.take(i as int).push(items[i as int]));
            lemma_join_push(items.take(i as int), "\n"@, items[i as int]);
        }
        if i > 0 {
            s.append("\n");
        }
        push_user_block(s, &us[i]);
        i = i + 1;
    }
    assert(items.take(us.len() as int) =~= items);
    assert(s@ =~= start + users_text(users_view(us@)));
}

fn push_answer_block(s: &mut String, a: &Answer)
    ensures
        final(s)@ == old(s)@ + answer_block(a@),
{
    s.append("    - answer:\n      - id: ");
    push_decimal_i64(s, a.id);
    s.append("\n      - text: \"");
    s.append(a.text.as_str());
    s.append("\"\n      - votes: ");
    push_decimal_i64(s, a.votes);
    s.append("\n      - users:\n");
    push_users(s, &a.users);
    assert(final(s)@ =~= old(s)@ + answer_block(a@));
}

fn push_answers(s: &mut String, answers: &Vec<Answer>)
    ensures
        final(s)@ == old(s)@ + answers_text(answers@.map_values(|a: Answer| a@)),
{
    let ghost start = s@;
    let ghost items = answers@.map_values(|a: Answer| a@).map_values(|a: AnswerView| answer_block(a));
    let mut i: usize = 0;
    assert(items.take(0) =~= Seq::<Seq<char>>::empty());
    assert(s@ =~= start + join(items.take(0), "\n"@));
    while i < answers.len()
        invariant
            i <= answers.len(),
            items == answers@.map_values(|a: Answer| a@).map_values(|a: AnswerView| answer_block(a)),
            items.len() == answers.len(),
            s@ == start + join(items.take(i as int), "\n"@),
        decreases answers.len() - i,
    {
        proof {
            assert(items.take(i + 1) =~= items.take(i as int).push(items[i as int]));
            lemma_join_push(items.take(i as int), "\n"@, items[i as int]);
        }
        if i > 0 {
            s.append("\n");
        }
        push_answer_block(s, &answers[i]);
        i = i + 1;
    }
    assert(items.take(answers.len() as int) =~= items);
    assert(s@ =~= start + answers_text(answers@.map_values(|a: Answer| a@)));
}

impl Tally {
    /// The report on a poll with `votes` votes, question `question` and id
    /// `poll_id`, after this tally.
    pub fn render(&self, votes: i64, question: &String, poll_id: u64) -> (r: String)
        ensures
            r@ == report(votes, question@, poll_id, self@),
    {
        let mut s = String::from_str("voter:\n  votes: ");
        push_decimal_i64(&mut s, votes);
        s.append("\n  text: \"");
        s.append(question.as_str());
        s.append("\"\n  id: ");
        push_decimal(&mut s, poll_id);
        s.append("\n  answers: \n");
        push_answers(&mut s, &self.answers);
        s.append("\n  not_voted:\n");
        push_users(&mut s, &self.not_voted);
        s.append("\n  voted_but:\n");
        push_users(&mut s, &self.voted_but);
        assert(s@ =~= report(votes, question@, poll_id, self@));
        s
    }
}


// ---------------------------------------------------------------------------
// The voter session: which request comes next, and the report at the end
// ---------------------------------------------------------------------------

/// How many voters one page of `polls.getVoters` holds.
pub const PAGE_SIZE: i64 = 100;

/// The index of the last page of voters for a poll with `votes` votes: the
/// least integer `c` with `100 * c >= votes`. Pages `0` to `c` are fetched.
pub open spec fn circles_spec(votes: int) -> int {
    if votes >= 0 {
        (votes + 99) / 100
    } else {
        -((-votes) / 100)
    }
}

/// The index of the last page of voters for a poll with `votes` votes, the
/// ceiling of `votes / 100`.
pub fn circles(votes: i64) -> (r: i64)
    ensures
        r == circles_spec(votes as int),
        100 * r >= votes,
        100 * (r - 1) < votes,
{
    if votes >= 0 {
        let q = votes / PAGE_SIZE;
        let r = if votes % PAGE_SIZE != 0 { q + 1 } else { q };
        assert(r == (votes + 99) / 100 && 100 * r >= votes && 100 * (r - 1) < votes) by (nonlinear_arith)
            requires
                votes >= 0,
                q == votes / 100,
                (votes % 100 != 0 ==> r == q + 1) && (votes % 100 == 0 ==> r == q),
        ;
        r
    } else {
        let a: u64 = (0i128 - votes as i128) as u64;
        let q = a / 100;
        let r = 0i64 - (q as i64);
        assert(r == -((-votes) / 100) && 100 * r >= votes && 100 * (r - 1) < votes) by (nonlinear_arith)
            requires
                votes < 0,
                a == -votes,
                q == a / 100,
                r == -q,
        ;
        r
    }
}

/// Where a voter session stands: which reply it waits for, or that it is
/// done.
#[derive(PartialEq, Eq, Structural, Clone, Copy, Debug)]
pub enum Stage {
    AwaitPoll,
    AwaitChat,
    AwaitVoters,
    Done,
}

/// The state of one run of the voter tool.
pub struct VoterSession {
    owner_id: i64,
    poll_id: u64,
    chat_id: u64,
    lang: String,
    stage: Stage,
    votes: i64,
    question: String,
    tally: Tally,
    page: i64,
    circles: i64,
}

/// A voter session as plain values: the poll and chat it is about, the stage,
/// the poll's votes and question, the tally so far, the next page and the
/// last page.
pub struct SessionView {
    pub owner_id: i64,
    pub poll_id: u64,
    pub chat_id: u64,
    pub lang: Seq<char>,
    pub stage: Stage,
    pub votes: i64,
    pub question: Seq<char>,
    pub tally: TallyView,
    pub page: i64,
    pub circles: i64,
}

impl View for VoterSession {
    type V = SessionView;

    closed spec fn view(&self) -> SessionView {
        SessionView {
            owner_id: self.owner_id,
            poll_id: self.poll_id,
            chat_id: self.chat_id,
            lang: self.lang@,
            stage: self.stage,
            votes: self.votes,
            question: self.question@,
            tally: self.tally@,
            page: self.page,
            circles: self.circles,
        }
    }
}

/// A session's numbers are in range: the offset of every page up to the
/// last one fits an `i64`, and while voters are awaited the next page is
/// one of them.
pub open spec fn session_wf(s: SessionView) -> bool {
    &&& 100 * s.circles <= i64::MAX
    &&& s.stage == Stage::AwaitVoters ==> 0 <= s.page <= s.circles
}

/// An answer of a poll as character sequences.
pub struct AnswerInfoView {
    pub id: i64,
    pub text: Seq<char>,
    pub votes: i64,
}

/// A poll as character sequences.
pub struct PollInfoView {
    pub votes: i64,
    pub question: Seq<char>,
    pub answers: Seq<AnswerInfoView>,
}

impl View for PollInfo {
    type V = PollInfoView;

    open spec fn view(&self) -> PollInfoView {
        PollInfoView {
            votes: self.votes,
            question: self.question@,
            answers: self.answers@.map_values(
                |a: AnswerInfo| AnswerInfoView { id: a.id, text: a.text@, votes: a.votes },
            ),
        }
    }
}

/// What the API answered to the request a session made.
pub enum VoterReply {
    Poll(PollInfo),
    Chat(Vec<User>),
    Voters(Vec<AnswerVoters>),
}

/// A reply as plain values.
pub enum VoterReplyView {
    Poll(PollInfoView),
    Chat(Seq<UserView>),
    Voters(Seq<AnswerVotersView>),
}

impl View for VoterReply {
    type V = VoterReplyView;

    open spec fn view(&self) -> VoterReplyView {
        match self {
            VoterReply::Poll(p) => VoterReplyView::Poll(p@),
            VoterReply::Chat(us) => VoterReplyView::Chat(users_view(us@)),
            VoterReply::Voters(pg) => VoterReplyView::Voters(page_view(pg@)),
        }
    }
}

/// A reply, or the error that the request ended with.
pub open spec fn reply_view(r: Result<VoterReply, String>) -> Result<VoterReplyView, Seq<char>> {
    match r {
        Ok(x) => Ok(x@),
        Err(e) => Err(e@),
    }
}

/// What a session asks for next: a request to send, or the end of the run
/// with its result.
pub enum VoterAction {
    Send(ApiRequest),
    Finish(Result<String, String>),
}

/// An action as plain values.
pub enum VoterActionView {
    Send(ApiRequestView),
    Finish(Result<Seq<char>, Seq<char>>),
}

impl View for VoterAction {
    type V = VoterActionView;

    open spec fn view(&self) -> VoterActionView {
        match self {
            VoterAction::Send(r) => VoterActionView::Send(r@),
            VoterAction::Finish(Ok(s)) => VoterActionView::Finish(Ok(s@)),
            VoterAction::Finish(Err(e)) => VoterActionView::Finish(Err(e@)),
        }
    }
}

/// A request as plain values, from its method name and arguments.
pub open spec fn request_view(r: (Seq<char>, Seq<(Seq<char>, Seq<char>)>)) -> ApiRequestView {
    ApiRequestView { method: r.0, args: r.1 }
}

/// The user fields that the tool asks for.
pub open spec fn name_fields() -> Seq<Seq<char>> {
    seq!["first_name"@, "last_name"@]
}

/// The ids of the answers, in order.
pub open spec fn answer_ids(answers: Seq<AnswerView>) -> Seq<i64> {
    answers.map_values(|a: AnswerView| a.id)
}

/// The request for the poll.
pub open spec fn poll_request(s: SessionView) -> ApiRequestView {
    request_view(polls_getById::request_spec(s.owner_id, s.poll_id))
}

/// The request for the chat's members.
pub open spec fn chat_request(s: SessionView) -> ApiRequestView {
    request_view(messages_getChat::request_spec(s.chat_id, s.lang, name_fields()))
}

/// The request for page `page` of the voters of every answer.
pub open spec fn voters_request(s: SessionView, page: i64) -> ApiRequestView {
    request_view(
        polls_getVoters::request_spec(
            s.owner_id,
            s.poll_id,
            answer_ids(s.tally.answers),
            (page * 100) as i64,
            name_fields(),
            s.lang,
        ),
    )
}

/// The tally at the start: the poll's answers without voters, nobody yet
/// among the members who have not voted.
pub open spec fn initial_tally(p: PollInfoView) -> TallyView {
    TallyView {
        answers: p.answers.map_values(
            |a: AnswerInfoView| AnswerView { id: a.id, text: a.text, votes: a.votes, users: Seq::empty() },
        ),
        not_voted: Seq::empty(),
        voted_but: Seq::empty(),
    }
}

/// The report that ends a session in state `s` with tally `t`.
pub open spec fn session_report(s: SessionView, t: TallyView) -> Seq<char> {
    report(s.votes, s.question, s.poll_id, t)
}

/// A reply is of the kind that stage `stage` waits for.
pub open spec fn reply_fits(stage: Stage, r: VoterReplyView) -> bool {
    match r {
        VoterReplyView::Poll(_) => stage == Stage::AwaitPoll,
        VoterReplyView::Chat(_) => stage == Stage::AwaitChat,
        VoterReplyView::Voters(_) => stage == Stage::AwaitVoters,
    }
}

/// The session at the start, before the poll is asked for.
pub open spec fn start_spec(owner_id: i64, poll_id: u64, chat_id: u64, lang: Seq<char>) -> SessionView {
    SessionView {
        owner_id,
        poll_id,
        chat_id,
        lang,
        stage: Stage::AwaitPoll,
        votes: 0,
        question: Seq::empty(),
        tally: TallyView { answers: Seq::empty(), not_voted: Seq::empty(), voted_but: Seq::empty() },
        page: 0,
        circles: 0,
    }
}

/// One step of a session: the next state and action after the reply `r` to
/// the last request.
///
/// An error ends the run with that error. The poll's reply sets the answers
/// and the number of pages and asks for the chat; the chat's reply sets the
/// members still to vote and asks for the first page of voters, or ends the
/// run when there is none; each page of voters is recorded, and the next
/// page is asked for until the last one is in, which ends the run with the
/// report.
#[verifier::opaque]
pub open spec fn step_spec(s: SessionView, r: Result<VoterReplyView, Seq<char>>) -> (
    SessionView,
    VoterActionView,
) {
    match r {
        Err(e) => (SessionView { stage: Stage::Done, ..s }, VoterActionView::Finish(Err(e))),
        Ok(VoterReplyView::Poll(p)) => {
            let s1 = SessionView {
                stage: Stage::AwaitChat,
                votes: p.votes,
                question: p.question,
                tally: initial_tally(p),
                page: 0,
                circles: circles_spec(p.votes as int) as i64,
                ..s
            };
            (s1, VoterActionView::Send(chat_request(s1)))
        },
        Ok(VoterReplyView::Chat(users)) => {
            let s1 = SessionView { tally: TallyView { not_voted: users, ..s.tally }, page: 0, ..s };
            if 0 <= s.circles {
                (
                    SessionView { stage: Stage::AwaitVoters, ..s1 },
                    VoterActionView::Send(voters_request(s1, 0)),
                )
            } else {
                (
                    SessionView { stage: Stage::Done, ..s1 },
                    VoterActionView::Finish(Ok(session_report(s1, s1.tally))),
                )
            }
        },
        Ok(VoterReplyView::Voters(pg)) => {
            let s1 = SessionView { tally: record_page(s.tally, pg), page: (s.page + 1) as i64, ..s };
            if s1.page <= s.circles {
                (s1, VoterActionView::Send(voters_request(s1, s1.page)))
            } else {
                (
                    SessionView { stage: Stage::Done, ..s1 },
                    VoterActionView::Finish(Ok(session_report(s1, s1.tally))),
                )
            }
        },
    }
}

fn name_fields_vec() -> (r: Vec<String>)
    ensures
        r@.map_values(|f: String| f@) == name_fields(),
{
    let mut v: Vec<String> = Vec::new();
    v.push(String::from_str("first_name"));
    v.push(String::from_str("last_name"));
    assert(v@.map_values(|f: String| f@) =~= name_fields());
    v
}

impl VoterSession {
    /// The stage of the session: which reply it waits for.
    pub fn stage(&self) -> (r: Stage)
        ensures
            r == self@.stage,
    {
        self.stage
    }

    fn answer_ids(&self) -> (r: Vec<i64>)
        ensures
            r@ == answer_ids(self@.tally.answers),
    {
        let mut r: Vec<i64> = Vec::new();
        let mut i: usize = 0;
        while i < self.tally.answers.len()
            invariant
                i <= self.tally.answers.len(),
                r@ == answer_ids(self@.tally.answers).take(i as int),
            decreases self.tally.answers.len() - i,
        {
            r.push(self.tally.answers[i].id);
            assert(r@ =~= answer_ids(self@.tally.answers).take(i + 1));
            i = i + 1;
        }
        assert(r@ =~= answer_ids(self@.tally.answers));
        r
    }

    fn voters_request(&self, page: i64) -> (r: ApiRequest)
        requires
            0 <= page,
            100 * page <= i64::MAX,
        ensures
            r@ == voters_request(self@, page),
    {
        let ids = self.answer_ids();
        let fields = name_fields_vec();
        polls_getVoters::request(self.owner_id, self.poll_id, &ids, page * PAGE_SIZE, &fields, &self.lang)
    }

    fn finish(&self) -> (r: VoterAction)
        ensures
            r@ == VoterActionView::Finish(Ok(session_report(self@, self@.tally))),
    {
        VoterAction::Finish(Ok(self.tally.render(self.votes, &self.question, self.poll_id)))
    }
}

/// Starts a run of the voter tool for poll `poll_id` of owner `owner_id` and
/// chat `chat_id`, with texts in `lang`: the session, and the request for the
/// poll that comes first.
pub fn start(owner_id: i64, poll_id: u64, chat_id: u64, lang: &String) -> (r: (VoterSession, ApiRequest))
    ensures
        r.0@ == start_spec(owner_id, poll_id, chat_id, lang@),
        session_wf(r.0@),
        r.1@ == poll_request(r.0@),
{
    let session = VoterSession {
        owner_id,
        poll_id,
        chat_id,
        lang: lang.clone(),
        stage: Stage::AwaitPoll,
        votes: 0,
        question: String::new(),
        tally: Tally { answers: Vec::new(), not_voted: Vec::new(), voted_but: Vec::new() },
        page: 0,
        circles: 0,
    };
    assert(session.tally@.answers =~= Seq::<AnswerView>::empty());
    assert(session.tally@.not_voted =~= Seq::<UserView>::empty());
    assert(session.tally@.voted_but =~= Seq::<UserView>::empty());
    let req = polls_getById::request(owner_id, poll_id);
    (session, req)
}

fn initial_answers(p: &PollInfo) -> (r: Vec<Answer>)
    ensures
        r@.map_values(|a: Answer| a@) == initial_tally(p@).answers,
{
    let mut r: Vec<Answer> = Vec::new();
    let mut i: usize = 0;
    while i < p.answers.len()
        invariant
            i <= p.answers.len(),
            r@.map_values(|a: Answer| a@) == initial_tally(p@).answers.take(i as int),
        decreases p.answers.len() - i,
    {
        let a = &p.answers[i];
        let ans = Answer { id: a.id, text: a.text.clone(), votes: a.votes, users: Vec::new() };
        let ghost before = r@.map_values(|a: Answer| a@);
        r.push(ans);
        assert(ans@.users =~= Seq::<UserView>::empty());
        assert(r@.map_values(|a: Answer| a@) =~= before.push(ans@));
        assert(r@.map_values(|a: Answer| a@) =~= initial_tally(p@).answers.take(i + 1));
        i = i + 1;
    }
    assert(initial_tally(p@).answers.take(p.answers.len() as int) =~= initial_tally(p@).answers);
    r
}

/// Takes the reply to the last request of a session and says what comes
/// next: another request, or the end of the run with the report or the
/// error (see [`step_spec`]).
pub fn execute(session: &mut VoterSession, reply: Result<VoterReply, String>) -> (r: VoterAction)
    requires
        session_wf(old(session)@),
        old(session)@.stage != Stage::Done,
        reply matches Ok(x) ==> reply_fits(old(session)@.stage, x@),
        reply matches Ok(VoterReply::Poll(p)) ==> p.votes <= i64::MAX - 99,
    ensures
        (final(session)@, r@) == step_spec(old(session)@, reply_view(reply)),
        session_wf(final(session)@),
{
    reveal(step_spec);
    match reply {
        Err(e) => {
            session.stage = Stage::Done;
            VoterAction::Finish(Err(e))
        },
        Ok(VoterReply::Poll(p)) => {
            let answers = initial_answers(&p);
            session.stage = Stage::AwaitChat;
            session.votes = p.votes;
            session.question = p.question;
            session.tally = Tally { answers, not_voted: Vec::new(), voted_but: Vec::new() };
            session.page = 0;
            session.circles = circles(p.votes);
            assert(session.tally@.not_voted =~= Seq::<UserView>::empty());
            assert(session.tally@.voted_but =~= Seq::<UserView>::empty());
            let fields = name_fields_vec();
            VoterAction::Send(messages_getChat::request(session.chat_id, &session.lang, &fields))
        },
        Ok(VoterReply::Chat(users)) => {
            session.tally.not_voted = users;
            session.page = 0;
            if 0 <= session.circles {
                session.stage = Stage::AwaitVoters;
                VoterAction::Send(session.voters_request(0))
            } else {
                session.stage = Stage::Done;
                session.finish()
            }
        },
        Ok(VoterReply::Voters(pg)) => {
            session.tally.record_page(&pg);
            session.page = session.page + 1;
            if session.page <= session.circles {
                VoterAction::Send(session.voters_request(session.page))
            } else {
                session.stage = Stage::Done;
                session.finish()
            }
        },
    }
}


// ---------------------------------------------------------------------------
// Laws of a whole run
// ---------------------------------------------------------------------------

/// A session in state `s` after the replies `rs`, in order, and the actions
/// it answered them with.
pub open spec fn run(s: SessionView, rs: Seq<Result<VoterReplyView, Seq<char>>>) -> (
    SessionView,
    Seq<VoterActionView>,
)
    decreases rs.len(),
{
    if rs.len() == 0 {
        (s, Seq::empty())
    } else {
        let prev = run(s, rs.drop_last());
        let next = step_spec(prev.0, rs.last());
        (next.0, prev.1.push(next.1))
    }
}

/// Each reply of `rs` comes while the session still waits, and is of the
/// kind it waits for, so that [`execute`] accepts them in turn.
pub open spec fn admissible(s: SessionView, rs: Seq<Result<VoterReplyView, Seq<char>>>) -> bool
    decreases rs.len(),
{
    if rs.len() == 0 {
        true
    } else {
        &&& admissible(s, rs.drop_last())
        &&& run(s, rs.drop_last()).0.stage != Stage::Done
        &&& (rs.last() matches Ok(x) ==> reply_fits(run(s, rs.drop_last()).0.stage, x))
    }
}

/// The tally after the pages `pages`, in order.
pub open spec fn record_pages(t: TallyView, pages: Seq<Seq<AnswerVotersView>>) -> TallyView
    decreases pages.len(),
{
    if pages.len() == 0 {
        t
    } else {
        record_page(record_pages(t, pages.drop_last()), pages.last())
    }
}

/// How many pages of voters a poll with `votes` votes has.
pub open spec fn page_count(votes: i64) -> nat {
    if circles_spec(votes as int) >= 0 {
        (circles_spec(votes as int) + 1) as nat
    } else {
        0
    }
}

/// The replies of a run without errors: the poll, the chat's members, then
/// each page of voters.
pub open spec fn full_replies(
    p: PollInfoView,
    users: Seq<UserView>,
    pages: Seq<Seq<AnswerVotersView>>,
) -> Seq<Result<VoterReplyView, Seq<char>>> {
    seq![
        Ok::<VoterReplyView, Seq<char>>(VoterReplyView::Poll(p)),
        Ok::<VoterReplyView, Seq<char>>(VoterReplyView::Chat(users)),
    ] + pages.map_values(
        |pg: Seq<AnswerVotersView>| Ok::<VoterReplyView, Seq<char>>(VoterReplyView::Voters(pg)),
    )
}

/// The tally once the chat's members are known.
pub open spec fn tally_with_members(p: PollInfoView, users: Seq<UserView>) -> TallyView {
    TallyView { not_voted: users, ..initial_tally(p) }
}

/// The session after the poll's reply.
pub open spec fn after_poll(s0: SessionView, p: PollInfoView) -> SessionView {
    SessionView {
        stage: Stage::AwaitChat,
        votes: p.votes,
        question: p.question,
        tally: initial_tally(p),
        page: 0,
        circles: circles_spec(p.votes as int) as i64,
        ..s0
    }
}

/// The session that waits for page `k`, after the poll, the chat and the
/// pages before it.
pub open spec fn awaiting_page(
    s0: SessionView,
    p: PollInfoView,
    users: Seq<UserView>,
    pages: Seq<Seq<AnswerVotersView>>,
    k: int,
) -> SessionView {
    SessionView {
        stage: Stage::AwaitVoters,
        tally: record_pages(tally_with_members(p, users), pages.take(k)),
        page: k as i64,
        ..after_poll(s0, p)
    }
}

proof fn lemma_record_pages_same_answers(t: TallyView, pages: Seq<Seq<AnswerVotersView>>)
    ensures
        same_answers(t, record_pages(t, pages)),
    decreases pages.len(),
{
    if pages.len() > 0 {
        lemma_record_pages_same_answers(t, pages.drop_last());
        lemma_record_page_same_answers(record_pages(t, pages.drop_last()), pages.last());
    }
}

proof fn lemma_run_push(
    s: SessionView,
    rs: Seq<Result<VoterReplyView, Seq<char>>>,
    x: Result<VoterReplyView, Seq<char>>,
)
    ensures
        run(s, rs.push(x)).0 == step_spec(run(s, rs).0, x).0,
        run(s, rs.push(x)).1 == run(s, rs).1.push(step_spec(run(s, rs).0, x).1),
        admissible(s, rs.push(x)) == (admissible(s, rs) && run(s, rs).0.stage != Stage::Done && (
        x matches Ok(y) ==> reply_fits(run(s, rs).0.stage, y))),
{
    assert(rs.push(x).drop_last() =~= rs);
}

proof fn lemma_step_poll(s0: SessionView, p: PollInfoView)
    ensures
        step_spec(s0, Ok(VoterReplyView::Poll(p))) == (
            after_poll(s0, p),
            VoterActionView::Send(chat_request(after_poll(s0, p))),
        ),
{
    reveal(step_spec);
}

proof fn lemma_step_chat(s1: SessionView, users: Seq<UserView>)
    ensures
        ({
            let s2 = SessionView { tally: TallyView { not_voted: users, ..s1.tally }, page: 0, ..s1 };
            step_spec(s1, Ok(VoterReplyView::Chat(users))) == if 0 <= s1.circles {
                (
                    SessionView { stage: Stage::AwaitVoters, ..s2 },
                    VoterActionView::Send(voters_request(s2, 0)),
                )
            } else {
                (
                    SessionView { stage: Stage::Done, ..s2 },
                    VoterActionView::Finish(Ok(session_report(s2, s2.tally))),
                )
            }
        }),
{
    reveal(step_spec);
}

proof fn lemma_step_page(s: SessionView, pg: Seq<AnswerVotersView>)
    ensures
        ({
            let s1 = SessionView { tally: record_page(s.tally, pg), page: (s.page + 1) as i64, ..s };
            step_spec(s, Ok(VoterReplyView::Voters(pg))) == if s1.page <= s.circles {
                (s1, VoterActionView::Send(voters_request(s1, s1.page)))
            } else {
                (
                    SessionView { stage: Stage::Done, ..s1 },
                    VoterActionView::Finish(Ok(session_report(s1, s1.tally))),
                )
            }
        }),
{
    reveal(step_spec);
}

proof fn lemma_voters_request_same_answers(s: SessionView, t: SessionView, k: i64)
    requires
        same_answers(s.tally, t.tally),
        s.owner_id == t.owner_id,
        s.poll_id == t.poll_id,
        s.lang == t.lang,
    ensures
        voters_request(s, k) == voters_request(t, k),
{
    assert(answer_ids(s.tally.answers) =~= answer_ids(t.tally.answers));
}

proof fn lemma_first_two(
    s0: SessionView,
    p: PollInfoView,
    users: Seq<UserView>,
    pages: Seq<Seq<AnswerVotersView>>,
)
    requires
        s0.stage == Stage::AwaitPoll,
    ensures
        ({
            let all = full_replies(p, users, pages);
            let s2 = SessionView {
                tally: tally_with_members(p, users),
                page: 0,
                ..after_poll(s0, p)
            };
            let r = run(s0, all.take(2));
            &&& admissible(s0, all.take(2))
            &&& r.1.len() == 2
            &&& r.1[0] == VoterActionView::Send(chat_request(after_poll(s0, p)))
            &&& r == if 0 <= s2.circles {
                (
                    SessionView { stage: Stage::AwaitVoters, ..s2 },
                    seq![r.1[0], VoterActionView::Send(voters_request(s2, 0))],
                )
            } else {
                (
                    SessionView { stage: Stage::Done, ..s2 },
                    seq![r.1[0], VoterActionView::Finish(Ok(session_report(s2, s2.tally)))],
                )
            }
        }),
{
    let all = full_replies(p, users, pages);
    let e: Seq<Result<VoterReplyView, Seq<char>>> = Seq::empty();
    assert(all.take(1) =~= e.push(Ok(VoterReplyView::Poll(p))));
    assert(all.take(2) =~= all.take(1).push(Ok(VoterReplyView::Chat(users))));
    lemma_run_push(s0, e, Ok(VoterReplyView::Poll(p)));
    lemma_step_poll(s0, p);
    lemma_run_push(s0, all.take(1), Ok(VoterReplyView::Chat(users)));
    lemma_step_chat(after_poll(s0, p), users);
    let r = run(s0, all.take(2));
    assert(r.1 =~= seq![r.1[0], r.1[1]]);
}

proof fn lemma_run_pages(
    s0: SessionView,
    p: PollInfoView,
    users: Seq<UserView>,
    pages: Seq<Seq<AnswerVotersView>>,
    k: int,
)
    requires
        s0.stage == Stage::AwaitPoll,
        circles_spec(p.votes as int) >= 0,
        pages.len() == circles_spec(p.votes as int) + 1,
        0 <= k < pages.len(),
        100 * circles_spec(p.votes as int) <= i64::MAX,
    ensures
        ({
            let r = run(s0, full_replies(p, users, pages).take(2 + k));
            &&& admissible(s0, full_replies(p, users, pages).take(2 + k))
            &&& r.0 == awaiting_page(s0, p, users, pages, k)
            &&& r.1.len() == 2 + k
            &&& r.1[0] == VoterActionView::Send(chat_request(after_poll(s0, p)))
            &&& forall|j: int| 0 <= j <= k ==> #[trigger] r.1[1 + j] == VoterActionView::Send(
                voters_request(awaiting_page(s0, p, users, pages, j), j as i64),
            )
        }),
    decreases k,
{
    let all = full_replies(p, users, pages);
    if k == 0 {
        lemma_first_two(s0, p, users, pages);
        assert(pages.take(0) =~= Seq::<Seq<AnswerVotersView>>::empty());
        let s2 = SessionView { tally: tally_with_members(p, users), page: 0, ..after_poll(s0, p) };
        assert(SessionView { stage: Stage::AwaitVoters, ..s2 } == awaiting_page(s0, p, users, pages, 0));
        lemma_voters_request_same_answers(s2, awaiting_page(s0, p, users, pages, 0), 0);
    } else {
        lemma_run_pages(s0, p, users, pages, k - 1);
        let prev_rs = all.take(2 + k - 1);
        let x = Ok::<VoterReplyView, Seq<char>>(VoterReplyView::Voters(pages[k - 1]));
        assert(all.take(2 + k) =~= prev_rs.push(x));
        lemma_run_push(s0, prev_rs, x);
        let prev = awaiting_page(s0, p, users, pages, k - 1);
        let next = awaiting_page(s0, p, users, pages, k);
        lemma_step_page(prev, pages[k - 1]);
        assert(pages.take(k).drop_last() =~= pages.take(k - 1));
        assert(SessionView { tally: record_page(prev.tally, pages[k - 1]), page: (prev.page + 1) as i64, ..prev } == next);
        let r = run(s0, all.take(2 + k));
        let pr = run(s0, prev_rs);
        assert forall|j: int| 0 <= j <= k implies #[trigger] r.1[1 + j] == VoterActionView::Send(
            voters_request(awaiting_page(s0, p, users, pages, j), j as i64),
        ) by {
            if j < k {
                assert(r.1[1 + j] == pr.1[1 + j]);
            }
        }
    }
}

/// A run whose replies are the poll, the chat's members and one page of
/// voters for each page the poll has is accepted step by step, asks for
/// the chat and then for each page in order, and ends with the report on
/// the tally of all pages.
pub proof fn law_run_reports(
    owner_id: i64,
    poll_id: u64,
    chat_id: u64,
    lang: Seq<char>,
    p: PollInfoView,
    users: Seq<UserView>,
    pages: Seq<Seq<AnswerVotersView>>,
)
    requires
        p.votes <= i64::MAX - 99,
        pages.len() == page_count(p.votes),
    ensures
        ({
            let s0 = start_spec(owner_id, poll_id, chat_id, lang);
            let r = run(s0, full_replies(p, users, pages));
            &&& admissible(s0, full_replies(p, users, pages))
            &&& r.0.stage == Stage::Done
            &&& r.1.len() == pages.len() + 2
            &&& r.1[0] == VoterActionView::Send(chat_request(after_poll(s0, p)))
            &&& forall|j: int| 0 <= j < pages.len() ==> #[trigger] r.1[1 + j] == VoterActionView::Send(
                voters_request(awaiting_page(s0, p, users, pages, j), j as i64),
            )
            &&& r.1.last() == VoterActionView::Finish(
                Ok(report(p.votes, p.question, poll_id, record_pages(tally_with_members(p, users), pages))),
            )
        }),
{
    let s0 = start_spec(owner_id, poll_id, chat_id, lang);
    let all = full_replies(p, users, pages);
    let n = pages.len() as int;
    let c = circles_spec(p.votes as int);
    assert(100 * c <= i64::MAX) by (nonlinear_arith)
        requires
            c == if p.votes >= 0 { (p.votes + 99) / 100 } else { -((-p.votes) / 100) },
            p.votes <= i64::MAX - 99,
    ;
    assert(all.len() == n + 2);
    if n == 0 {
        lemma_first_two(s0, p, users, pages);
        assert(all.take(2) =~= all);
        assert(pages =~= Seq::<Seq<AnswerVotersView>>::empty());
    } else {
        lemma_run_pages(s0, p, users, pages, n - 1);
        let prev_rs = all.take(2 + n - 1);
        let x = Ok::<VoterReplyView, Seq<char>>(VoterReplyView::Voters(pages[n - 1]));
        assert(all =~= prev_rs.push(x));
        lemma_run_push(s0, prev_rs, x);
        let prev = awaiting_page(s0, p, users, pages, n - 1);
        lemma_step_page(prev, pages[n - 1]);
        assert(pages.take(n).drop_last() =~= pages.take(n - 1));
        assert(pages.take(n) =~= pages);
        let r = run(s0, all);
        let pr = run(s0, prev_rs);
        assert forall|j: int| 0 <= j < n implies #[trigger] r.1[1 + j] == VoterActionView::Send(
            voters_request(awaiting_page(s0, p, users, pages, j), j as i64),
        ) by {
            assert(r.1[1 + j] == pr.1[1 + j]);
        }
    }
}

/// An error reply ends any session that is still waiting: it is done, and
/// its last action ends the run with that error.
pub proof fn law_error_ends_run(s: SessionView, e: Seq<char>)
    ensures
        step_spec(s, Err(e)).0.stage == Stage::Done,
        step_spec(s, Err(e)).1 == VoterActionView::Finish(Err(e)),
{
    reveal(step_spec);
}


// ---------------------------------------------------------------------------
// Laws of the tally
// ---------------------------------------------------------------------------

/// `e` names an answer of `answers` and lists a user with id `x`.
pub open spec fn votes_for(answers: Seq<AnswerView>, e: AnswerVotersView, x: i64) -> bool {
    &&& exists|a: int| 0 <= a < answers.len() && answers[a].id == e.answer_id
    &&& has_id(e.users, x)
}

/// Some entry of the page `pg` lists a user with id `x` for an answer of
/// `answers`.
pub open spec fn voted_in_page(answers: Seq<AnswerView>, pg: Seq<AnswerVotersView>, x: i64) -> bool {
    exists|i: int| 0 <= i < pg.len() && votes_for(answers, #[trigger] pg[i], x)
}

proof fn lemma_without_id_has(s: Seq<UserView>, y: i64, x: i64)
    ensures
        has_id(without_id(s, y), x) <==> (has_id(s, x) && x != y),
    decreases s.len(),
{
    if s.len() > 0 {
        let sp = s.drop_last();
        lemma_without_id_has(sp, y, x);
        let r = without_id(sp, y);
        let w = without_id(s, y);
        let last = s.last();
        if last.id == y {
            assert(w == r);
        } else {
            assert(w == r.push(last));
        }
        if has_id(s, x) && x != y {
            let i = choose|i: int| 0 <= i < s.len() && s[i].id == x;
            if i < s.len() - 1 {
                assert(sp[i].id == x);
                assert(has_id(sp, x));
                let k = choose|k: int| 0 <= k < r.len() && r[k].id == x;
                assert(w[k].id == x);
            } else {
                assert(last.id == x);
                assert(w[r.len() as int].id == x);
            }
        }
        if has_id(w, x) {
            let i = choose|i: int| 0 <= i < w.len() && w[i].id == x;
            if i < r.len() {
                assert(r[i].id == x);
                assert(has_id(r, x));
                let k = choose|k: int| 0 <= k < sp.len() && sp[k].id == x;
                assert(s[k].id == x);
            } else {
                assert(w[i] == last);
                assert(s[s.len() - 1].id == x);
            }
        }
    }
}

proof fn lemma_record_users_members(t: TallyView, a: int, us: Seq<UserView>, x: i64)
    requires
        0 <= a < t.answers.len(),
    ensures
        has_id(record_users(t, a, us).not_voted, x) <==> (has_id(t.not_voted, x) && !has_id(us, x)),
    decreases us.len(),
{
    if us.len() > 0 {
        lemma_record_users_members(t, a, us.drop_last(), x);
        lemma_record_users_same_answers(t, a, us.drop_last());
        lemma_without_id_has(record_users(t, a, us.drop_last()).not_voted, us.last().id, x);
        if has_id(us, x) {
            let i = choose|i: int| 0 <= i < us.len() && us[i].id == x;
            if i < us.len() - 1 {
                assert(us.drop_last()[i].id == x);
            }
        }
        if has_id(us.drop_last(), x) {
            let i = choose|i: int| 0 <= i < us.drop_last().len() && us.drop_last()[i].id == x;
            assert(us[i].id == x);
        }
    }
}

proof fn lemma_record_entry_upto_members(t: TallyView, e: AnswerVotersView, n: nat, x: i64)
    requires
        n <= t.answers.len(),
    ensures
        has_id(record_entry_upto(t, e, n).not_voted, x) <==> (has_id(t.not_voted, x) && !(
        (exists|a: int| 0 <= a < n && t.answers[a].id == e.answer_id) && has_id(e.users, x))),
    decreases n,
{
    if n > 0 {
        lemma_record_entry_upto_members(t, e, (n - 1) as nat, x);
        lemma_record_entry_upto_same_answers(t, e, (n - 1) as nat);
        let t1 = record_entry_upto(t, e, (n - 1) as nat);
        assert(t1.answers[n - 1].id == t.answers[n - 1].id);
        if t1.answers[n - 1].id == e.answer_id {
            lemma_record_users_members(t1, n - 1, e.users, x);
        }
        if exists|a: int| 0 <= a < n && t.answers[a].id == e.answer_id {
            let a = choose|a: int| 0 <= a < n && t.answers[a].id == e.answer_id;
            if a < n - 1 {
                assert(exists|a: int| 0 <= a < n - 1 && t.answers[a].id == e.answer_id);
            }
        }
    }
}

/// A member is still among those who have not voted after a page exactly
/// when they were before it and no entry of the page lists them for an
/// answer of the poll.
pub proof fn law_page_members(t: TallyView, pg: Seq<AnswerVotersView>, x: i64)
    ensures
        has_id(record_page(t, pg).not_voted, x) <==> (has_id(t.not_voted, x) && !voted_in_page(
            t.answers,
            pg,
            x,
        )),
    decreases pg.len(),
{
    if pg.len() > 0 {
        let t1 = record_page(t, pg.drop_last());
        law_page_members(t, pg.drop_last(), x);
        lemma_record_page_same_answers(t, pg.drop_last());
        lemma_record_entry_upto_members(t1, pg.last(), t1.answers.len(), x);
        let e = pg.last();
        assert((exists|a: int| 0 <= a < t1.answers.len() && t1.answers[a].id == e.answer_id) <==> (
        exists|a: int| 0 <= a < t.answers.len() && t.answers[a].id == e.answer_id)) by {
            if exists|a: int| 0 <= a < t1.answers.len() && t1.answers[a].id == e.answer_id {
                let a = choose|a: int| 0 <= a < t1.answers.len() && t1.answers[a].id == e.answer_id;
                assert(t.answers[a].id == e.answer_id);
            }
            if exists|a: int| 0 <= a < t.answers.len() && t.answers[a].id == e.answer_id {
                let a = choose|a: int| 0 <= a < t.answers.len() && t.answers[a].id == e.answer_id;
                assert(t1.answers[a].id == e.answer_id);
            }
        }
        if voted_in_page(t.answers, pg, x) {
            let i = choose|i: int| 0 <= i < pg.len() && votes_for(t.answers, #[trigger] pg[i], x);
            if i < pg.len() - 1 {
                assert(pg.drop_last()[i] == pg[i]);
                assert(voted_in_page(t.answers, pg.drop_last(), x));
            }
        }
        if voted_in_page(t.answers, pg.drop_last(), x) {
            let i = choose|i: int| 0 <= i < pg.drop_last().len() && votes_for(t.answers, #[trigger] pg.drop_last()[i], x);
            assert(pg[i] == pg.drop_last()[i]);
            assert(voted_in_page(t.answers, pg, x));
        }
        if votes_for(t.answers, e, x) {
            assert(pg[pg.len() - 1] == e);
        }
    }
}

/// Recording pages keeps the answers: their number, ids, texts and the
/// votes the poll announced for them.
pub proof fn law_pages_keep_answers(t: TallyView, pages: Seq<Seq<AnswerVotersView>>)
    ensures
        same_answers(t, record_pages(t, pages)),
{
    lemma_record_pages_same_answers(t, pages);
}


// ---------------------------------------------------------------------------
// Laws of the answers' voters
// ---------------------------------------------------------------------------

/// The users that the entries of `p` for answer id `id` list, entry after
/// entry.
pub open spec fn listed_for(p: Seq<AnswerVotersView>, id: i64) -> Seq<UserView>
    decreases p.len(),
{
    if p.len() == 0 {
        Seq::empty()
    } else {
        listed_for(p.drop_last(), id) + if p.last().answer_id == id {
            p.last().users
        } else {
            Seq::empty()
        }
    }
}

proof fn lemma_record_users_voters(t: TallyView, a: int, us: Seq<UserView>)
    requires
        0 <= a < t.answers.len(),
    ensures
        record_users(t, a, us).answers.len() == t.answers.len(),
        record_users(t, a, us).answers[a].users == t.answers[a].users + us,
        forall|i: int| 0 <= i < t.answers.len() && i != a ==> #[trigger] record_users(t, a, us).answers[i]
            == t.answers[i],
        t.voted_but.is_prefix_of(record_users(t, a, us).voted_but),
    decreases us.len(),
{
    if us.len() == 0 {
        assert(t.answers[a].users + us =~= t.answers[a].users);
        assert(t.voted_but.is_prefix_of(t.voted_but));
    } else {
        lemma_record_users_voters(t, a, us.drop_last());
        let t1 = record_users(t, a, us.drop_last());
        assert(t1.answers[a].users.push(us.last()) =~= t.answers[a].users + us);
        assert(t.voted_but.is_prefix_of(t1.voted_but.push(us.last())));
    }
}

proof fn lemma_record_entry_upto_voters(t: TallyView, e: AnswerVotersView, n: nat)
    requires
        n <= t.answers.len(),
    ensures
        record_entry_upto(t, e, n).answers.len() == t.answers.len(),
        forall|i: int| 0 <= i < t.answers.len() ==> #[trigger] record_entry_upto(t, e, n).answers[i].users
            == t.answers[i].users + if i < n && t.answers[i].id == e.answer_id {
            e.users
        } else {
            Seq::<UserView>::empty()
        },
        t.voted_but.is_prefix_of(record_entry_upto(t, e, n).voted_but),
    decreases n,
{
    if n == 0 {
        assert forall|i: int| 0 <= i < t.answers.len() implies #[trigger] record_entry_upto(t, e, n).answers[i].users
            == t.answers[i].users + Seq::<UserView>::empty() by {
            assert(t.answers[i].users + Seq::<UserView>::empty() =~= t.answers[i].users);
        }
        assert(t.voted_but.is_prefix_of(t.voted_but));
    } else {
        lemma_record_entry_upto_voters(t, e, (n - 1) as nat);
        lemma_record_entry_upto_same_answers(t, e, (n - 1) as nat);
        let t1 = record_entry_upto(t, e, (n - 1) as nat);
        assert(t1.answers[n - 1].id == t.answers[n - 1].id);
        if t1.answers[n - 1].id == e.answer_id {
            lemma_record_users_voters(t1, n - 1, e.users);
            let t2 = record_users(t1, n - 1, e.users);
            assert forall|i: int| 0 <= i < t.answers.len() implies #[trigger] t2.answers[i].users
                == t.answers[i].users + if i < n && t.answers[i].id == e.answer_id {
                e.users
            } else {
                Seq::<UserView>::empty()
            } by {
                if i == n - 1 {
                    assert(t1.answers[i].users == t.answers[i].users + Seq::<UserView>::empty());
                    assert(t.answers[i].users + Seq::<UserView>::empty() =~= t.answers[i].users);
                } else {
                    assert(t2.answers[i] == t1.answers[i]);
                }
            }
        } else {
            assert forall|i: int| 0 <= i < t.answers.len() implies #[trigger] t1.answers[i].users
                == t.answers[i].users + if i < n && t.answers[i].id == e.answer_id {
                e.users
            } else {
                Seq::<UserView>::empty()
            } by {
                if i == n - 1 {
                    assert(t.answers[i].id != e.answer_id);
                }
            }
        }
    }
}

/// After a page, the voters of each answer are its voters before the page
/// followed by the users that the page's entries list for its id, in the
/// order of the entries: a page never removes a voter already recorded.
/// The members who voted without being counted only grow, too.
pub proof fn law_page_voters(t: TallyView, p: Seq<AnswerVotersView>)
    ensures
        record_page(t, p).answers.len() == t.answers.len(),
        forall|i: int| 0 <= i < t.answers.len() ==> #[trigger] record_page(t, p).answers[i].users
            == t.answers[i].users + listed_for(p, t.answers[i].id),
        forall|i: int| 0 <= i < t.answers.len() ==> t.answers[i].users.is_prefix_of(
            #[trigger] record_page(t, p).answers[i].users,
        ),
        t.voted_but.is_prefix_of(record_page(t, p).voted_but),
    decreases p.len(),
{
    if p.len() == 0 {
        assert forall|i: int| 0 <= i < t.answers.len() implies #[trigger] record_page(t, p).answers[i].users
            == t.answers[i].users + listed_for(p, t.answers[i].id) by {
            assert(t.answers[i].users + Seq::<UserView>::empty() =~= t.answers[i].users);
        }
        assert(t.voted_but.is_prefix_of(t.voted_but));
    } else {
        law_page_voters(t, p.drop_last());
        lemma_record_page_same_answers(t, p.drop_last());
        let t1 = record_page(t, p.drop_last());
        lemma_record_entry_upto_voters(t1, p.last(), t1.answers.len());
        let t2 = record_page(t, p);
        assert forall|i: int| 0 <= i < t.answers.len() implies #[trigger] t2.answers[i].users
            == t.answers[i].users + listed_for(p, t.answers[i].id) by {
            assert(t1.answers[i].id == t.answers[i].id);
            let extra = if t.answers[i].id == p.last().answer_id { p.last().users } else { Seq::<UserView>::empty() };
            assert(t2.answers[i].users == t1.answers[i].users + extra);
            assert(listed_for(p, t.answers[i].id) == listed_for(p.drop_last(), t.answers[i].id) + extra);
            assert(t.answers[i].users + listed_for(p.drop_last(), t.answers[i].id) + extra
                =~= t.answers[i].users + listed_for(p, t.answers[i].id));
        }
        assert forall|i: int| 0 <= i < t.answers.len() implies t.answers[i].users.is_prefix_of(
            #[trigger] t2.answers[i].users,
        ) by {
            assert(t2.answers[i].users.subrange(0, t.answers[i].users.len() as int) =~= t.answers[i].users);
        }
        assert(t.voted_but.is_prefix_of(t2.voted_but)) by {
            assert(t2.voted_but.subrange(0, t.voted_but.len() as int) =~= t1.voted_but.subrange(0, t.voted_but.len() as int));
        }
    }
    assert forall|i: int| 0 <= i < t.answers.len() implies t.answers[i].users.is_prefix_of(
        #[trigger] record_page(t, p).answers[i].users,
    ) by {
        assert(record_page(t, p).answers[i].users.subrange(0, t.answers[i].users.len() as int) =~= t.answers[i].users);
    }
}

/// After the poll's reply, the session's tally has exactly the poll's
/// answers, in order, each with its own id, text and number of votes and no
/// voter yet; nobody is counted as a member yet, and the session keeps the
/// poll's votes and question and the index of the last page, the least
/// `c` with `100 * c >= votes`.
pub proof fn law_poll_reply_sets_answers(s: SessionView, p: PollInfoView)
    ensures
        ({
            let s1 = step_spec(s, Ok(VoterReplyView::Poll(p))).0;
            &&& s1.stage == Stage::AwaitChat
            &&& s1.votes == p.votes
            &&& s1.question == p.question
            &&& s1.tally.answers.len() == p.answers.len()
            &&& forall|i: int| 0 <= i < p.answers.len() ==> {
                &&& #[trigger] s1.tally.answers[i].id == p.answers[i].id
                &&& s1.tally.answers[i].text == p.answers[i].text
                &&& s1.tally.answers[i].votes == p.answers[i].votes
                &&& s1.tally.answers[i].users.len() == 0
            }
            &&& s1.tally.not_voted.len() == 0
            &&& s1.tally.voted_but.len() == 0
            &&& 100 * s1.circles >= p.votes
            &&& 100 * (s1.circles - 1) < p.votes
        }),
{
    reveal(step_spec);
    let c = circles_spec(p.votes as int);
    assert(100 * c >= p.votes && 100 * (c - 1) < p.votes) by (nonlinear_arith)
        requires
            c == if p.votes >= 0 { (p.votes + 99) / 100 } else { -((-p.votes) / 100) },
    ;
}

/// Over a whole run, the answers of the final tally are the poll's answers
/// with their own ids, texts and votes.
pub proof fn law_run_keeps_poll_answers(p: PollInfoView, users: Seq<UserView>, pages: Seq<Seq<AnswerVotersView>>)
    ensures
        ({
            let t = record_pages(tally_with_members(p, users), pages);
            &&& t.answers.len() == p.answers.len()
            &&& forall|i: int| 0 <= i < p.answers.len() ==> {
                &&& #[trigger] t.answers[i].id == p.answers[i].id
                &&& t.answers[i].text == p.answers[i].text
                &&& t.answers[i].votes == p.answers[i].votes
            }
        }),
{
    lemma_record_pages_same_answers(tally_with_members(p, users), pages);
    let t0 = tally_with_members(p, users);
    assert(t0.answers.len() == p.answers.len());
    assert forall|i: int| 0 <= i < p.answers.len() implies t0.answers[i].votes == p.answers[i].votes
        && t0.answers[i].id == p.answers[i].id && t0.answers[i].text == p.answers[i].text by {}
}

// ---------------------------------------------------------------------------
// Laws of the report's layout
// ---------------------------------------------------------------------------

/// A list of users in the report: nothing for no user, the user's block for
/// one, and each further user's block after a line break.
pub proof fn law_users_text_layout(us: Seq<UserView>, u: UserView)
    ensures
        users_text(Seq::empty()) == Seq::<char>::empty(),
        users_text(seq![u]) == user_block(u),
        us.len() > 0 ==> users_text(us.push(u)) == users_text(us) + "\n"@ + user_block(u),
{
    assert(Seq::<UserView>::empty().map_values(|u: UserView| user_block(u)) =~= Seq::<Seq<char>>::empty());
    assert(seq![u].map_values(|u: UserView| user_block(u)) =~= seq![user_block(u)]);
    assert(us.push(u).map_values(|u: UserView| user_block(u)) =~= us.map_values(|u: UserView| user_block(u)).push(
        user_block(u),
    ));
    lemma_join_push(us.map_values(|u: UserView| user_block(u)), "\n"@, user_block(u));
}

/// The list of answers in the report: each further answer's block after a
/// line break.
pub proof fn law_answers_text_layout(answers: Seq<AnswerView>, a: AnswerView)
    ensures
        answers_text(Seq::empty()) == Seq::<char>::empty(),
        answers_text(seq![a]) == answer_block(a),
        answers.len() > 0 ==> answers_text(answers.push(a)) == answers_text(answers) + "\n"@ + answer_block(a),
{
    assert(Seq::<AnswerView>::empty().map_values(|a: AnswerView| answer_block(a)) =~= Seq::<Seq<char>>::empty());
    assert(seq![a].map_values(|a: AnswerView| answer_block(a)) =~= seq![answer_block(a)]);
    assert(answers.push(a).map_values(|a: AnswerView| answer_block(a)) =~= answers.map_values(
        |a: AnswerView| answer_block(a),
    ).push(answer_block(a)));
    lemma_join_push(answers.map_values(|a: AnswerView| answer_block(a)), "\n"@, answer_block(a));
}


// ---------------------------------------------------------------------------
// The members still to vote, in order
// ---------------------------------------------------------------------------

/// `s` without the users whose id satisfies `f`, the others in their order.
pub open spec fn drop_ids(s: Seq<UserView>, f: spec_fn(i64) -> bool) -> Seq<UserView>
    decreases s.len(),
{
    if s.len() == 0 {
        s
    } else {
        let rest = drop_ids(s.drop_last(), f);
        if f(s.last().id) {
            rest
        } else {
            rest.push(s.last())
        }
    }
}

proof fn lemma_drop_ids_ext(s: Seq<UserView>, f: spec_fn(i64) -> bool, g: spec_fn(i64) -> bool)
    requires
        forall|x: i64| #[trigger] f(x) == g(x),
    ensures
        drop_ids(s, f) == drop_ids(s, g),
    decreases s.len(),
{
    if s.len() > 0 {
        lemma_drop_ids_ext(s.drop_last(), f, g);
    }
}

proof fn lemma_drop_ids_twice(s: Seq<UserView>, f: spec_fn(i64) -> bool, g: spec_fn(i64) -> bool)
    ensures
        drop_ids(drop_ids(s, f), g) == drop_ids(s, |x: i64| f(x) || g(x)),
    decreases s.len(),
{
    if s.len() > 0 {
        lemma_drop_ids_twice(s.drop_last(), f, g);
        let r = drop_ids(s.drop_last(), f);
        if !f(s.last().id) {
            assert(r.push(s.last()).drop_last() =~= r);
        }
    }
}

proof fn lemma_without_id_is_drop(s: Seq<UserView>, y: i64)
    ensures
        without_id(s, y) == drop_ids(s, |x: i64| x == y),
    decreases s.len(),
{
    if s.len() > 0 {
        lemma_without_id_is_drop(s.drop_last(), y);
    }
}

proof fn lemma_drop_none(s: Seq<UserView>, f: spec_fn(i64) -> bool)
    requires
        forall|x: i64| !#[trigger] f(x),
    ensures
        drop_ids(s, f) == s,
    decreases s.len(),
{
    if s.len() > 0 {
        lemma_drop_none(s.drop_last(), f);
        assert(s.drop_last().push(s.last()) =~= s);
    }
}

proof fn lemma_record_users_not_voted(t: TallyView, a: int, us: Seq<UserView>, f: spec_fn(i64) -> bool)
    requires
        0 <= a < t.answers.len(),
        forall|x: i64| #[trigger] f(x) == has_id(us, x),
    ensures
        record_users(t, a, us).not_voted == drop_ids(t.not_voted, f),
    decreases us.len(),
{
    if us.len() == 0 {
        lemma_drop_none(t.not_voted, f);
    } else {
        let up = us.drop_last();
        let fu = |x: i64| has_id(up, x);
        lemma_record_users_not_voted(t, a, up, fu);
        lemma_record_users_same_answers(t, a, up);
        let t1 = record_users(t, a, us.drop_last());
        let h = |x: i64| x == us.last().id;
        lemma_without_id_is_drop(t1.not_voted, us.last().id);
        lemma_drop_ids_ext(t1.not_voted, |x: i64| x == us.last().id, h);
        lemma_drop_ids_twice(t.not_voted, fu, h);
        assert forall|x: i64| #[trigger] f(x) == (fu(x) || h(x)) by {
            if has_id(us, x) {
                let i = choose|i: int| 0 <= i < us.len() && us[i].id == x;
                if i < us.len() - 1 {
                    assert(up[i].id == x);
                }
            }
            if has_id(up, x) {
                let i = choose|i: int| 0 <= i < up.len() && up[i].id == x;
                assert(us[i].id == x);
            }
            if x == us.last().id {
                assert(us[us.len() - 1].id == x);
            }
        }
        lemma_drop_ids_ext(t.not_voted, |x: i64| fu(x) || h(x), f);
    }
}

proof fn lemma_record_entry_upto_not_voted(t: TallyView, e: AnswerVotersView, n: nat, f: spec_fn(i64) -> bool)
    requires
        n <= t.answers.len(),
        forall|x: i64| #[trigger] f(x) == ((exists|a: int| 0 <= a < n && t.answers[a].id == e.answer_id)
            && has_id(e.users, x)),
    ensures
        record_entry_upto(t, e, n).not_voted == drop_ids(t.not_voted, f),
    decreases n,
{
    if n == 0 {
        lemma_drop_none(t.not_voted, f);
    } else {
        let g = |x: i64| (exists|a: int| 0 <= a < n - 1 && t.answers[a].id == e.answer_id) && has_id(
            e.users,
            x,
        );
        lemma_record_entry_upto_not_voted(t, e, (n - 1) as nat, g);
        lemma_record_entry_upto_same_answers(t, e, (n - 1) as nat);
        let t1 = record_entry_upto(t, e, (n - 1) as nat);
        assert(t1.answers[n - 1].id == t.answers[n - 1].id);
        if t1.answers[n - 1].id == e.answer_id {
            let h = |x: i64| has_id(e.users, x);
            lemma_record_users_not_voted(t1, n - 1, e.users, h);
            lemma_drop_ids_twice(t.not_voted, g, h);
            assert forall|x: i64| #[trigger] f(x) == (g(x) || h(x)) by {
                assert(t.answers[n - 1].id == e.answer_id);
            }
            lemma_drop_ids_ext(t.not_voted, |x: i64| g(x) || h(x), f);
        } else {
            assert forall|x: i64| #[trigger] f(x) == g(x) by {
                if exists|a: int| 0 <= a < n && t.answers[a].id == e.answer_id {
                    let a = choose|a: int| 0 <= a < n && t.answers[a].id == e.answer_id;
                    assert(a < n - 1);
                }
            }
            lemma_drop_ids_ext(t.not_voted, g, f);
        }
    }
}

/// After a page, the members still to vote are those before it, in the same
/// order, less exactly the ones that an entry of the page lists for an
/// answer of the poll: `f` is any test that holds of exactly the ids that
/// the page lists so.
pub proof fn law_page_not_voted(t: TallyView, p: Seq<AnswerVotersView>, f: spec_fn(i64) -> bool)
    requires
        forall|x: i64| #[trigger] f(x) == voted_in_page(t.answers, p, x),
    ensures
        record_page(t, p).not_voted == drop_ids(t.not_voted, f),
    decreases p.len(),
{
    if p.len() == 0 {
        lemma_drop_none(t.not_voted, f);
    } else {
        let pp = p.drop_last();
        let e = p.last();
        let fp = |x: i64| voted_in_page(t.answers, pp, x);
        law_page_not_voted(t, pp, fp);
        lemma_record_page_same_answers(t, pp);
        let t1 = record_page(t, pp);
        let g = |x: i64| (exists|a: int| 0 <= a < t1.answers.len() && t1.answers[a].id == e.answer_id)
            && has_id(e.users, x);
        lemma_record_entry_upto_not_voted(t1, e, t1.answers.len(), g);
        lemma_drop_ids_twice(t.not_voted, fp, g);
        assert forall|x: i64| #[trigger] f(x) == (fp(x) || g(x)) by {
            assert((exists|a: int| 0 <= a < t1.answers.len() && t1.answers[a].id == e.answer_id) <==> (
            exists|a: int| 0 <= a < t.answers.len() && t.answers[a].id == e.answer_id)) by {
                if exists|a: int| 0 <= a < t1.answers.len() && t1.answers[a].id == e.answer_id {
                    let a = choose|a: int| 0 <= a < t1.answers.len() && t1.answers[a].id == e.answer_id;
                    assert(t.answers[a].id == e.answer_id);
                }
                if exists|a: int| 0 <= a < t.answers.len() && t.answers[a].id == e.answer_id {
                    let a = choose|a: int| 0 <= a < t.answers.len() && t.answers[a].id == e.answer_id;
                    assert(t1.answers[a].id == e.answer_id);
                }
            }
            if voted_in_page(t.answers, p, x) {
                let i = choose|i: int| 0 <= i < p.len() && votes_for(t.answers, #[trigger] p[i], x);
                if i < p.len() - 1 {
                    assert(pp[i] == p[i]);
                    assert(voted_in_page(t.answers, pp, x));
                }
            }
            if voted_in_page(t.answers, pp, x) {
                let i = choose|i: int| 0 <= i < pp.len() && votes_for(t.answers, #[trigger] pp[i], x);
                assert(p[i] == pp[i]);
                assert(voted_in_page(t.answers, p, x));
            }
            if g(x) {
                assert(votes_for(t.answers, p[p.len() - 1], x));
            }
        }
        lemma_drop_ids_ext(t.not_voted, |x: i64| fp(x) || g(x), f);
    }
}

} // verus!

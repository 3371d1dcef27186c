use vk_multitool::tools::voter::{
    circles, execute, start, Answer, AnswerInfo, AnswerVoters, PollInfo, Stage, Tally, User,
    VoterAction, VoterReply,
};

fn user(id: i64, first: &str, last: &str) -> User {
    User { id, first_name: first.to_string(), last_name: last.to_string() }
}

fn answer(id: i64, text: &str, votes: i64) -> Answer {
    Answer { id, text: text.to_string(), votes, users: vec![] }
}

fn ids(us: &[User]) -> Vec<i64> {
    us.iter().map(|u| u.id).collect()
}

fn arg<'a>(req: &'a vk_multitool::vk::ApiRequest, key: &str) -> &'a str {
    req.args.iter().find(|(k, _)| k == key).map(|(_, v)| v.as_str()).unwrap()
}

#[test]
fn pages_to_fetch() {
    assert_eq!(circles(0), 0);
    assert_eq!(circles(1), 1);
    assert_eq!(circles(99), 1);
    assert_eq!(circles(100), 1);
    assert_eq!(circles(101), 2);
    assert_eq!(circles(150), 2);
    assert_eq!(circles(-1), 0);
    assert_eq!(circles(-150), -1);
    assert_eq!(circles(-200), -2);
    for v in [-1000i64, -101, -7, 0, 3, 250, 12345] {
        assert_eq!(circles(v), (v as f64 / 100.0).ceil() as i64);
    }
    assert_eq!(circles(i64::MAX), i64::MAX / 100 + 1);
    assert_eq!(circles(i64::MIN), i64::MIN / 100);
}

#[test]
fn tally_records_voters() {
    let mut t = Tally {
        answers: vec![answer(1, "yes", 2), answer(2, "no", 1)],
        not_voted: vec![user(10, "A", "Aa"), user(11, "B", "Bb"), user(12, "C", "Cc")],
        voted_but: vec![],
    };
    let page = vec![
        AnswerVoters { answer_id: 1, users: vec![user(10, "A", "Aa"), user(99, "X", "Xx")] },
        AnswerVoters { answer_id: 2, users: vec![user(12, "C", "Cc")] },
        AnswerVoters { answer_id: 3, users: vec![user(11, "B", "Bb")] },
    ];
    t.record_page(&page);
    assert_eq!(ids(&t.answers[0].users), vec![10, 99]);
    assert_eq!(ids(&t.answers[1].users), vec![12]);
    // 11 voted only for an answer that the poll does not have.
    assert_eq!(ids(&t.not_voted), vec![11]);
    assert_eq!(ids(&t.voted_but), vec![99]);
}

#[test]
fn tally_repeated_voter_is_counted_again() {
    // A user seen on a later entry is no longer among the members still to
    // vote, so they are listed again among those who voted without it.
    let mut t = Tally {
        answers: vec![answer(1, "yes", 0)],
        not_voted: vec![user(10, "A", "Aa")],
        voted_but: vec![],
    };
    let page = vec![
        AnswerVoters { answer_id: 1, users: vec![user(10, "A", "Aa")] },
        AnswerVoters { answer_id: 1, users: vec![user(10, "A", "Aa")] },
    ];
    t.record_page(&page);
    assert_eq!(ids(&t.answers[0].users), vec![10, 10]);
    assert_eq!(ids(&t.not_voted), Vec::<i64>::new());
    assert_eq!(ids(&t.voted_but), vec![10]);
}

#[test]
fn render_report() {
    let mut t = Tally {
        answers: vec![answer(1, "yes", 1), answer(2, "no", 0)],
        not_voted: vec![user(10, "Ann", "Lee"), user(11, "Bob", "Ray")],
        voted_but: vec![],
    };
    t.record_page(&vec![AnswerVoters { answer_id: 1, users: vec![user(10, "Ann", "Lee")] }]);
    let r = t.render(1, &String::from("Lunch?"), 77);
    let expected = "voter:\n  votes: 1\n  text: \"Lunch?\"\n  id: 77\n  answers: \n    - answer:\n      - id: 1\n      - text: \"yes\"\n      - votes: 1\n      - users:\n        - user:\n          - id: 10\n          - name: \"Lee Ann\"\n    - answer:\n      - id: 2\n      - text: \"no\"\n      - votes: 0\n      - users:\n\n  not_voted:\n        - user:\n          - id: 11\n          - name: \"Ray Bob\"\n  voted_but:\n";
    assert_eq!(r, expected);
}

#[test]
fn session_runs_to_report() {
    let lang = String::from("ru");
    let (mut s, first) = start(-3, 44, 5, &lang);
    assert_eq!(first.method, "polls.getById");
    assert_eq!(arg(&first, "owner_id"), "-3");
    assert_eq!(s.stage(), Stage::AwaitPoll);

    let poll = PollInfo {
        votes: 150,
        question: String::from("Q"),
        answers: vec![AnswerInfo { id: 1, text: String::from("a"), votes: 100 }, AnswerInfo { id: 2, text: String::from("b"), votes: 50 }],
    };
    let a = execute(&mut s, Ok(VoterReply::Poll(poll)));
    match &a {
        VoterAction::Send(r) => {
            assert_eq!(r.method, "messages.getChat");
            assert_eq!(arg(r, "chat_id"), "5");
            assert_eq!(arg(r, "lang"), "ru");
            assert_eq!(arg(r, "fields"), "first_name,last_name");
        }
        _ => panic!("expected the chat request"),
    }
    assert_eq!(s.stage(), Stage::AwaitChat);

    let a = execute(&mut s, Ok(VoterReply::Chat(vec![user(7, "F", "L"), user(8, "G", "M")])));
    let mut offsets = vec![];
    let mut action = a;
    let pages = vec![
        vec![AnswerVoters { answer_id: 1, users: vec![user(7, "F", "L")] }],
        vec![AnswerVoters { answer_id: 2, users: vec![user(9, "H", "N")] }],
        vec![],
    ];
    for p in pages {
        match &action {
            VoterAction::Send(r) => {
                assert_eq!(r.method, "polls.getVoters");
                assert_eq!(arg(r, "answer_ids"), "1,2");
                offsets.push(arg(r, "offset").to_string());
            }
            _ => panic!("expected a voters request"),
        }
        assert_eq!(s.stage(), Stage::AwaitVoters);
        action = execute(&mut s, Ok(VoterReply::Voters(p)));
    }
    assert_eq!(offsets, vec!["0", "100", "200"]);
    assert_eq!(s.stage(), Stage::Done);
    match action {
        VoterAction::Finish(Ok(text)) => {
            assert!(text.starts_with("voter:\n  votes: 150\n  text: \"Q\"\n  id: 44\n  answers: \n"));
            assert!(text.ends_with("  not_voted:\n        - user:\n          - id: 8\n          - name: \"M G\"\n  voted_but:\n        - user:\n          - id: 9\n          - name: \"N H\""));
        }
        _ => panic!("expected the report"),
    }
}

#[test]
fn session_without_pages() {
    let (mut s, _) = start(1, 2, 3, &String::from("en"));
    let poll = PollInfo { votes: -150, question: String::from("Q"), answers: vec![] };
    let _ = execute(&mut s, Ok(VoterReply::Poll(poll)));
    let a = execute(&mut s, Ok(VoterReply::Chat(vec![user(1, "A", "B")])));
    match a {
        VoterAction::Finish(Ok(text)) => assert_eq!(
            text,
            "voter:\n  votes: -150\n  text: \"Q\"\n  id: 2\n  answers: \n\n  not_voted:\n        - user:\n          - id: 1\n          - name: \"B A\"\n  voted_but:\n"
        ),
        _ => panic!("expected the report"),
    }
}

#[test]
fn session_error_ends_run() {
    let (mut s, _) = start(1, 2, 3, &String::from("en"));
    let a = execute(&mut s, Err(String::from("\"denied\". Request params: []")));
    assert!(matches!(a, VoterAction::Finish(Err(ref e)) if e == "\"denied\". Request params: []"));
    assert_eq!(s.stage(), Stage::Done);
}

#[test]
fn pages_keep_answers() {
    let mut t = Tally {
        answers: vec![answer(1, "yes", 3), answer(2, "no", 4)],
        not_voted: vec![user(10, "A", "Aa")],
        voted_but: vec![],
    };
    t.record_page(&vec![AnswerVoters { answer_id: 2, users: vec![user(10, "A", "Aa")] }]);
    t.record_page(&vec![AnswerVoters { answer_id: 1, users: vec![user(11, "B", "Bb")] }]);
    let kept: Vec<(i64, String, i64)> = t.answers.iter().map(|a| (a.id, a.text.clone(), a.votes)).collect();
    assert_eq!(kept, vec![(1, String::from("yes"), 3), (2, String::from("no"), 4)]);
}

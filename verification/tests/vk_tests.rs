use vk_multitool::methods::{messages_getChat, polls_getById, polls_getVoters};
use vk_multitool::vk::{reply_result, ApiError, ApiReply, VK};

fn pairs(v: &[(&str, &str)]) -> Vec<(String, String)> {
    v.iter().map(|(a, b)| (a.to_string(), b.to_string())).collect()
}

#[test]
fn call_addresses() {
    let vk = VK::new("TOKEN");
    assert_eq!(vk.call_url("users.get"), "https://api.vk.com/method/users.get?access_token=TOKEN&v=5.101");
    let vk2 = VK::new_with_version("T", "5.131");
    assert_eq!(vk2.call_url("m"), "https://api.vk.com/method/m?access_token=T&v=5.131");
    assert_eq!(
        vk2.call_with_args_url("m", &pairs(&[("a", "1"), ("b", "x,y")])),
        "https://api.vk.com/method/m?access_token=T&v=5.131&a=1&b=x,y"
    );
    assert_eq!(vk2.call_with_args_url("m", &vec![]), "https://api.vk.com/method/m?access_token=T&v=5.131&");
}

#[test]
fn as_mut_is_the_same_settings() {
    let mut vk = VK::new("T");
    let r = vk.as_mut();
    assert_eq!(r.call_url("m"), "https://api.vk.com/method/m?access_token=T&v=5.101");
}

#[test]
fn error_messages() {
    let e = ApiError {
        error_msg: String::from("Access denied"),
        request_params: pairs(&[("method", "polls.getById"), ("oauth", "1")]),
    };
    assert_eq!(e.message(), "\"Access denied\". Request params: [method:polls.getById, oauth:1]");
    let empty = ApiError { error_msg: String::from("x"), request_params: vec![] };
    assert_eq!(empty.message(), "\"x\". Request params: []");
    assert_eq!(reply_result(ApiReply::Failure(empty)), Err::<u8, String>(String::from("\"x\". Request params: []")));
    assert_eq!(reply_result::<u8>(ApiReply::Success(3)), Ok(3));
}

#[test]
fn method_requests() {
    let vk = VK::new("T");
    let r = polls_getById::request(-5, 7);
    assert_eq!(r.method, "polls.getById");
    assert_eq!(r.args, pairs(&[("owner_id", "-5"), ("poll_id", "7")]));
    assert_eq!(
        vk.request_url(&r),
        "https://api.vk.com/method/polls.getById?access_token=T&v=5.101&owner_id=-5&poll_id=7"
    );
    let fields = vec![String::from("first_name"), String::from("last_name")];
    let r = messages_getChat::request(3, &String::from("ru"), &fields);
    assert_eq!(r.method, "messages.getChat");
    assert_eq!(r.args, pairs(&[("chat_id", "3"), ("lang", "ru"), ("fields", "first_name,last_name")]));
    let r = polls_getVoters::request(-5, 7, &vec![11, 12], 200, &fields, &String::from("en"));
    assert_eq!(r.method, "polls.getVoters");
    assert_eq!(
        r.args,
        pairs(&[
            ("owner_id", "-5"),
            ("poll_id", "7"),
            ("answer_ids", "11,12"),
            ("offset", "200"),
            ("fields", "first_name,last_name"),
            ("lang", "en"),
        ])
    );
}

//! Access to the VK.com API: where requests go, and how a reply becomes a
//! result.

use vstd::prelude::*;
use crate::text::join;

verus! {

/// The address of the API, the access token and the API version used.
pub struct VK {
    api_url: String,
    token: String,
    version: String,
}

/// The settings of a [`VK`] as sequences of characters.
pub struct VKView {
    pub api_url: Seq<char>,
    pub token: Seq<char>,
    pub version: Seq<char>,
}

impl View for VK {
    type V = VKView;

    closed spec fn view(&self) -> VKView {
        VKView { api_url: self.api_url@, token: self.token@, version: self.version@ }
    }
}

/// The address that requests are sent to.
pub open spec fn api_url_spec() -> Seq<char> {
    "https://api.vk.com/method"@
}

/// The API version used unless another is given.
pub open spec fn default_version_spec() -> Seq<char> {
    "5.101"@
}

/// A request to an API method: its name and its arguments, in order.
pub struct ApiRequest {
    pub method: String,
    pub args: Vec<(String, String)>,
}

/// The arguments of a request as pairs of character sequences.
pub open spec fn args_view(args: Seq<(String, String)>) -> Seq<(Seq<char>, Seq<char>)> {
    args.map_values(|a: (String, String)| (a.0@, a.1@))
}

/// A request as its method name and its arguments.
pub struct ApiRequestView {
    pub method: Seq<char>,
    pub args: Seq<(Seq<char>, Seq<char>)>,
}

impl View for ApiRequest {
    type V = ApiRequestView;

    open spec fn view(&self) -> ApiRequestView {
        ApiRequestView { method: self.method@, args: args_view(self.args@) }
    }
}

/// The address of a call of `method` without arguments.
pub open spec fn call_url_spec(vk: VKView, method: Seq<char>) -> Seq<char> {
    vk.api_url + "/"@ + method + "?access_token="@ + vk.token + "&v="@ + vk.version
}

/// One argument as it stands in an address: `key=value`.
pub open spec fn arg_text(a: (Seq<char>, Seq<char>)) -> Seq<char> {
    a.0 + "="@ + a.1
}

/// The address of a call of `method` with `args`, which follow the token and
/// the version, joined with `&`.
pub open spec fn call_with_args_url_spec(
    vk: VKView,
    method: Seq<char>,
    args: Seq<(Seq<char>, Seq<char>)>,
) -> Seq<char> {
    call_url_spec(vk, method) + "&"@ + join(args.map_values(|a: (Seq<char>, Seq<char>)| arg_text(a)), "&"@)
}

impl VK {
    /// Settings for `token` with the default API address and version.
    pub fn new(token: &str) -> (r: Self)
        ensures
            r@ == (VKView { api_url: api_url_spec(), token: token@, version: default_version_spec() }),
    {
        VK {
            api_url: String::from_str("https://api.vk.com/method"),
            token: String::from_str(token),
            version: String::from_str("5.101"),
        }
    }

    /// Settings for `token` with the default API address and the given version.
    pub fn new_with_version(token: &str, version: &str) -> (r: Self)
        ensures
            r@ == (VKView { api_url: api_url_spec(), token: token@, version: version@ }),
    {
        VK {
            api_url: String::from_str("https://api.vk.com/method"),
            token: String::from_str(token),
            version: String::from_str(version),
        }
    }

    /// The settings themselves, to be changed in place.
    pub fn as_mut(&mut self) -> (r: &mut Self)
        ensures
            *r == *old(self),
            *final(self) == *final(r),
    {
        self
    }

    fn append_call_url(&self, s: &mut String, method: &str)
        ensures
            final(s)@ == old(s)@ + call_url_spec(self@, method@),
    {
        s.append(self.api_url.as_str());
        s.append("/");
        s.append(method);
        s.append("?access_token=");
        s.append(self.token.as_str());
        s.append("&v=");
        s.append(self.version.as_str());
        assert(final(s)@ =~= old(s)@ + call_url_spec(self@, method@));
    }

    /// The address of a call of `method` without arguments.
    pub fn call_url(&self, method: &str) -> (r: String)
        ensures
            r@ == call_url_spec(self@, method@),
    {
        let mut s = String::new();
        self.append_call_url(&mut s, method);
        assert(s@ =~= call_url_spec(self@, method@));
        s
    }

    /// The address of a call of `method` with `args`.
    pub fn call_with_args_url(&self, method: &str, args: &Vec<(String, String)>) -> (r: String)
        ensures
            r@ == call_with_args_url_spec(self@, method@, args_view(args@)),
    {
        let mut s = String::new();
        self.append_call_url(&mut s, method);
        s.append("&");
        let ghost start = s@;
        let ghost items = args_view(args@).map_values(|a: (Seq<char>, Seq<char>)| arg_text(a));
        let mut i: usize = 0;
        assert(items.take(0) =~= Seq::<Seq<char>>::empty());
        assert(s@ =~= start + join(items.take(0), "&"@));
        while i < args.len()
            invariant
                i <= args.len(),
                items == args_view(args@).map_values(|a: (Seq<char>, Seq<char>)| arg_text(a)),
                items.len() == args.len(),
                s@ == start + join(items.take(i as int), "&"@),
            decreases args.len() - i,
        {
            proof {
                assert(items.take(i + 1) =~= items.take(i as int).push(items[i as int]));
                crate::text::lemma_join_push(items.take(i as int), "&"@, items[i as int]);
            }
            if i > 0 {
                s.append("&");
            }
            s.append(args[i].0.as_str());
            s.append("=");
            s.append(args[i].1.as_str());
            assert(items[i as int] =~= args[i as int].0@ + "="@ + args[i as int].1@);
            i = i + 1;
        }
        assert(items.take(args.len() as int) =~= items);
        assert(s@ =~= call_with_args_url_spec(self@, method@, args_view(args@)));
        s
    }

    /// The address that `req` is sent to.
    pub fn request_url(&self, req: &ApiRequest) -> (r: String)
        ensures
            r@ == call_with_args_url_spec(self@, req@.method, req@.args),
    {
        self.call_with_args_url(req.method.as_str(), &req.args)
    }
}

/// An error that the API reports: its message and the parameters of the
/// request, as the API echoes them.
pub struct ApiError {
    pub error_msg: String,
    pub request_params: Vec<(String, String)>,
}

/// One echoed parameter as the error message lists it: `key:value`.
pub open spec fn param_text(a: (Seq<char>, Seq<char>)) -> Seq<char> {
    a.0 + ":"@ + a.1
}

/// The message of an API error: the API's own message in quotes, then the
/// request's parameters.
pub open spec fn error_message_spec(msg: Seq<char>, params: Seq<(Seq<char>, Seq<char>)>) -> Seq<char> {
    "\""@ + msg + "\". Request params: ["@ + join(
        params.map_values(|a: (Seq<char>, Seq<char>)| param_text(a)),
        ", "@,
    ) + "]"@
}

impl ApiError {
    /// The message that reports this error.
    pub fn message(&self) -> (r: String)
        ensures
            r@ == error_message_spec(self.error_msg@, args_view(self.request_params@)),
    {
        let mut s = String::from_str("\"");
        s.append(self.error_msg.as_str());
        s.append("\". Request params: [");
        let ghost start = s@;
        let ghost items = args_view(self.request_params@).map_values(
            |a: (Seq<char>, Seq<char>)| param_text(a),
        );
        let params = &self.request_params;
        let mut i: usize = 0;
        assert(items.take(0) =~= Seq::<Seq<char>>::empty());
        assert(s@ =~= start + join(items.take(0), ", "@));
        while i < params.len()
            invariant
                i <= params.len(),
                params == &self.request_params,
                items == args_view(params@).map_values(|a: (Seq<char>, Seq<char>)| param_text(a)),
                items.len() == params.len(),
                s@ == start + join(items.take(i as int), ", "@),
            decreases params.len() - i,
        {
            proof {
                assert(items.take(i + 1) =~= items.take(i as int).push(items[i as int]));
                crate::text::lemma_join_push(items.take(i as int), ", "@, items[i as int]);
            }
            if i > 0 {
                s.append(", ");
            }
            s.append(params[i].0.as_str());
            s.append(":");
            s.append(params[i].1.as_str());
            assert(items[i as int] =~= params[i as int].0@ + ":"@ + params[i as int].1@);
            i = i + 1;
        }
        assert(items.take(params.len() as int) =~= items);
        s.append("]");
        assert(s@ =~= error_message_spec(self.error_msg@, args_view(self.request_params@)));
        s
    }
}

/// What the API answers: an error, or the response to the request.
pub enum ApiReply<T> {
    Failure(ApiError),
    Success(T),
}

/// The result of a reply: the response, or the error's message.
pub fn reply_result<T>(reply: ApiReply<T>) -> (r: Result<T, String>)
    ensures
        match reply {
            ApiReply::Failure(e) => r matches Err(m) && m@ == error_message_spec(
                e.error_msg@,
                args_view(e.request_params@),
            ),
            ApiReply::Success(t) => r == Ok::<T, String>(t),
        },
{
    match reply {
        ApiReply::Failure(e) => Err(e.message()),
        ApiReply::Success(t) => Ok(t),
    }
}

} // verus!

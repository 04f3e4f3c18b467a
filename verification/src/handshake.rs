//! The request with which a relay is asked for.

use tokio_tungstenite::tungstenite::client::IntoClientRequest;
use tokio_tungstenite::tungstenite::http::{HeaderValue, Request};
use vstd::prelude::*;
use vstd::utf8::*;

use crate::network::{Session, DIRECTORY_URL};
use crate::text::{ascii_lower, join, join3};

verus! {

/// Declares `http::Request`, a request that has not been sent.
#[verifier::external_type_specification]
#[verifier::external_body]
#[verifier::reject_recursive_types(T)]
pub struct ExRequest<T>(Request<T>);

/// Declares `http::HeaderValue`, the value of a header.
#[verifier::external_type_specification]
#[verifier::external_body]
pub struct ExHeaderValue(HeaderValue);

/// The URI, in writing, of a WebSocket request to `url`, or why none can be made.
pub uninterp spec fn client_target(url: Seq<char>) -> Result<Seq<char>, Seq<char>>;

/// The URI of a request, in writing.
pub uninterp spec fn request_target(request: Request<()>) -> Seq<char>;

/// The headers of a request: for each name, in small letters, its values in order.
pub uninterp spec fn request_headers(request: Request<()>) -> Map<Seq<char>, Seq<Seq<u8>>>;

/// The bytes of the value of a header.
pub uninterp spec fn header_bytes(value: HeaderValue) -> Seq<u8>;

/// The names of the headers with which every WebSocket request begins.
pub open spec fn client_header_names() -> Set<Seq<char>> {
    set![
        "host"@,
        "connection"@,
        "upgrade"@,
        "sec-websocket-version"@,
        "sec-websocket-key"@,
    ]
}

/// Whether `host` is made of letters, digits, dots and hyphens.
pub open spec fn is_plain_host(host: Seq<char>) -> bool {
    &&& host.len() > 0
    &&& forall|i: int|
        0 <= i < host.len() ==> {
            ||| 'a' <= ascii_lower(#[trigger] host[i]) <= 'z'
            ||| '0' <= host[i] <= '9'
            ||| host[i] == '.'
            ||| host[i] == '-'
        }
}

/// Whether `url` leads over a secure WebSocket to the plain host `host`.
pub open spec fn leads_to(url: Seq<char>, host: Seq<char>) -> bool {
    is_plain_host(host) && ("wss://"@ + host + "/"@).is_prefix_of(url)
}

/// Whether these are the headers with which a WebSocket request begins, but for the host.
pub open spec fn are_client_headers(headers: Map<Seq<char>, Seq<Seq<u8>>>) -> bool {
    &&& headers["connection"@] == seq![encode_utf8("Upgrade"@)]
    &&& headers["upgrade"@] == seq![encode_utf8("websocket"@)]
    &&& headers["sec-websocket-version"@] == seq![encode_utf8("13"@)]
    &&& headers["sec-websocket-key"@].len() == 1
}

/// Calls `tungstenite::client::IntoClientRequest::into_client_request` on a text. It
/// reads the text as a URI with a host and makes a request to it with five headers, each
/// with one value; of an error only the wording is kept. Three of the values are fixed.
/// The host is that of the URI: stated where it is a plain one, and left unsaid where the
/// URI also names a port or a user. The key is random.
#[verifier::external_body]
fn client_request(url: &str) -> (request: Result<Request<()>, String>)
    ensures
        match request {
            Ok(request) => {
                &&& client_target(url@) == Ok::<Seq<char>, Seq<char>>(request_target(request))
                &&& request_headers(request).dom() == client_header_names()
                &&& are_client_headers(request_headers(request))
                &&& request_headers(request)["host"@].len() == 1
                &&& forall|host: Seq<char>| #[trigger]
                    leads_to(url@, host) ==> request_headers(request)["host"@] == seq![
                        encode_utf8(host),
                    ]
            },
            Err(error) => client_target(url@) == Err::<Seq<char>, Seq<char>>(error@),
        },
{
    url.into_client_request().map_err(|error| error.to_string())
}

/// Whether a byte may stand in the value of a header.
pub open spec fn is_header_byte(byte: u8) -> bool {
    byte >= 32 && byte != 127 || byte == 9
}

/// Whether `text` can be sent as the value of a header.
pub open spec fn is_header_text(text: Seq<char>) -> bool {
    forall|i: int|
        0 <= i < encode_utf8(text).len() ==> is_header_byte(#[trigger] encode_utf8(text)[i])
}

/// Calls `http::HeaderValue::from_str`. It takes a text as it is unless the text holds
/// a control character other than a tab; of the error only the wording is kept.
#[verifier::external_body]
fn header_value(text: &str) -> (value: Result<HeaderValue, String>)
    ensures
        match value {
            Ok(value) => is_header_text(text@) && header_bytes(value) == encode_utf8(text@),
            Err(error) => !is_header_text(text@) && error@ == "failed to parse header value"@,
        },
{
    HeaderValue::from_str(text).map_err(|error| error.to_string())
}

/// Whether `name` can be the name of a header: a few letters and hyphens.
pub open spec fn is_header_name(name: Seq<char>) -> bool {
    &&& 0 < name.len() <= 64
    &&& forall|i: int|
        0 <= i < name.len() ==> 'a' <= ascii_lower(#[trigger] name[i]) <= 'z' || name[i] == '-'
}

/// Calls `http::HeaderMap::insert` on the headers of a request. It makes `value` the
/// only value of the header `name`, whose letters it makes small, and changes nothing
/// else. It panics on a name that is none, and where a great many headers are there.
#[verifier::external_body]
fn set_header(request: &mut Request<()>, name: &'static str, value: HeaderValue)
    requires
        is_header_name(name@),
        request_headers(*old(request)).dom().len() < 1000,
    ensures
        request_target(*final(request)) == request_target(*old(request)),
        request_headers(*final(request)) == request_headers(*old(request)).insert(
            name@.map_values(|c: char| ascii_lower(c)),
            seq![header_bytes(value)],
        ),
{
    request.headers_mut().insert(name, value);
}

/// The address of the relay for the server `id`.
pub open spec fn relay_url(id: Seq<char>) -> Seq<char> {
    "wss://mc-werewolf.com/api/network/v1/servers/"@ + id + "/relay"@
}

/// Whether `sent` is `request` with `token` as its credentials.
pub open spec fn is_authorized(request: Request<()>, token: Seq<char>, sent: Request<()>) -> bool {
    &&& request_target(sent) == request_target(request)
    &&& request_headers(sent) == request_headers(request).insert(
        "authorization"@,
        seq![encode_utf8("Bearer "@ + token)],
    )
}

/// `made` with `token` as its credentials, or what is said of a request that could not
/// be made or cannot carry the token.
pub fn authorized(made: Result<Request<()>, String>, token: &str) -> (sent: Result<
    Request<()>,
    String,
>)
    requires
        made is Ok ==> request_headers(made->Ok_0).dom().len() < 1000,
    ensures
        match (made, sent) {
            (Ok(request), Ok(sent)) => {
                &&& is_header_text("Bearer "@ + token@)
                &&& is_authorized(request, token@, sent)
            },
            (Ok(_), Err(message)) => {
                &&& !is_header_text("Bearer "@ + token@)
                &&& message@ == "中継認証を作成できませんでした: "@ + "failed to parse header value"@
            },
            (Err(error), Ok(_)) => false,
            (Err(error), Err(message)) => message@ == "中継URLを作成できませんでした: "@ + error@,
        },
{
    match made {
        Ok(request) => {
            let credentials: String = join("Bearer ", token);
            match header_value(credentials.as_str()) {
                Ok(value) => {
                    let mut sent: Request<()> = request;
                    proof {
                        reveal_strlit("Authorization");
                        reveal_strlit("authorization");
                        assert("Authorization"@.map_values(|c: char| ascii_lower(c))
                            =~= "authorization"@);
                    }
                    set_header(&mut sent, "Authorization", value);
                    Ok(sent)
                },
                Err(error) => Err(join("中継認証を作成できませんでした: ", error.as_str())),
            }
        },
        Err(error) => Err(join("中継URLを作成できませんでした: ", error.as_str())),
    }
}

/// Whether `sent` is the request for a relay for a server that the directory knows as
/// `id`, with `token` as its credentials.
pub open spec fn is_relay_request(id: Seq<char>, token: Seq<char>, sent: Request<()>) -> bool {
    &&& client_target(relay_url(id)) == Ok::<Seq<char>, Seq<char>>(request_target(sent))
    &&& request_headers(sent).dom() == client_header_names().insert("authorization"@)
    &&& are_client_headers(request_headers(sent))
    &&& request_headers(sent)["host"@] == seq![encode_utf8("mc-werewolf.com"@)]
    &&& request_headers(sent)["authorization"@] == seq![encode_utf8("Bearer "@ + token)]
}

/// No header with which a WebSocket request begins is that of the credentials.
proof fn lemma_header_names()
    ensures
        !client_header_names().contains("authorization"@),
{
    reveal_strlit("authorization");
    reveal_strlit("host");
    reveal_strlit("connection");
    reveal_strlit("upgrade");
    reveal_strlit("sec-websocket-version");
    reveal_strlit("sec-websocket-key");
    assert("authorization"@.len() == 13);
    assert("host"@.len() == 4);
    assert("connection"@.len() == 10);
    assert("upgrade"@.len() == 7);
    assert("sec-websocket-version"@.len() == 21);
    assert("sec-websocket-key"@.len() == 17);
}

proof fn lemma_relay_host(id: Seq<char>)
    ensures
        leads_to(relay_url(id), "mc-werewolf.com"@),
{
    reveal_strlit("wss://");
    reveal_strlit("/");
    reveal_strlit("mc-werewolf.com");
    reveal_strlit("wss://mc-werewolf.com/api/network/v1/servers/");
    let begin = "wss://"@ + "mc-werewolf.com"@ + "/"@;
    let fixed = "wss://mc-werewolf.com/api/network/v1/servers/"@;
    assert(begin =~= fixed.take(22));
    assert(relay_url(id).take(22) =~= fixed.take(22));
}

/// The request for a relay for `session`.
pub fn relay_request(session: &Session) -> (sent: Result<Request<()>, String>)
    ensures
        match client_target(relay_url(session.id@)) {
            Ok(_) => if is_header_text("Bearer "@ + session.token@) {
                sent is Ok && is_relay_request(session.id@, session.token@, sent->Ok_0)
            } else {
                sent is Err && sent->Err_0@ == "中継認証を作成できませんでした: "@
                    + "failed to parse header value"@
            },
            Err(error) => sent is Err && sent->Err_0@ == "中継URLを作成できませんでした: "@ + error,
        },
{
    let url: String = join3(
        "wss://mc-werewolf.com/api/network/v1/servers/",
        session.id.as_str(),
        "/relay",
    );
    let made: Result<Request<()>, String> = client_request(url.as_str());
    proof {
        assert(client_header_names().len() <= 5);
        lemma_relay_host(session.id@);
        lemma_header_names();
    }
    authorized(made, session.token.as_str())
}

/// A relay is asked for in the directory of servers, over a secure WebSocket, under the id
/// of the server.
pub proof fn relays_are_asked_for_in_the_directory(id: Seq<char>)
    ensures
        "https"@ + relay_url(id).skip(3) == DIRECTORY_URL@ + "/"@ + id + "/relay"@,
        "wss:"@.is_prefix_of(relay_url(id)),
{
    reveal_strlit("https");
    reveal_strlit("wss:");
    reveal_strlit("/");
    reveal_strlit("https://mc-werewolf.com/api/network/v1/servers");
    reveal_strlit("wss://mc-werewolf.com/api/network/v1/servers/");
    let fixed = "wss://mc-werewolf.com/api/network/v1/servers/"@;
    assert("https"@ + fixed.skip(3) =~= DIRECTORY_URL@ + "/"@);
    assert("https"@ + relay_url(id).skip(3) =~= ("https"@ + fixed.skip(3)) + id + "/relay"@);
    assert(relay_url(id).subrange(0, 4) =~= "wss:"@);
}

/// A text can be sent as the value of a header exactly if it holds no byte below 32 but
/// tabs, and not the byte 127.
pub proof fn headers_hold_no_control_characters(text: Seq<char>)
    ensures
        is_header_text(text) <==> forall|i: int|
            0 <= i < encode_utf8(text).len() ==> (#[trigger] encode_utf8(text)[i] == 9
                || encode_utf8(text)[i] >= 32) && encode_utf8(text)[i] != 127,
{
    if is_header_text(text) {
        assert forall|i: int| 0 <= i < encode_utf8(text).len() implies (#[trigger] encode_utf8(
            text,
        )[i] == 9 || encode_utf8(text)[i] >= 32) && encode_utf8(text)[i] != 127 by {
            assert(is_header_byte(encode_utf8(text)[i]));
        }
    }
}

/// A request that is authorized goes where it went before and carries its token, literally
/// as `Bearer` and the token behind a space. All its other headers stay.
pub proof fn requests_carry_their_token(
    request: Request<()>,
    token: Seq<char>,
    sent: Request<()>,
)
    requires
        is_authorized(request, token, sent),
    ensures
        request_target(sent) == request_target(request),
        request_headers(sent).contains_key("authorization"@),
        request_headers(sent)["authorization"@] == seq![encode_utf8("Bearer "@ + token)],
        forall|name: Seq<char>|
            name != "authorization"@ ==> #[trigger] request_headers(sent).contains_key(name)
                == request_headers(request).contains_key(name) && request_headers(sent)[name]
                == request_headers(request)[name],
{
}

/// A request for a relay goes to the relay of its server, with the token of its server, and
/// asks the host for a WebSocket of the thirteenth version.
pub proof fn relays_are_asked_for_with_the_token(id: Seq<char>, token: Seq<char>, sent: Request<()>)
    requires
        is_relay_request(id, token, sent),
    ensures
        client_target("wss://mc-werewolf.com/api/network/v1/servers/"@ + id + "/relay"@) == Ok::<
            Seq<char>,
            Seq<char>,
        >(request_target(sent)),
        request_headers(sent)["authorization"@] == seq![encode_utf8("Bearer "@ + token)],
        request_headers(sent)["host"@] == seq![encode_utf8("mc-werewolf.com"@)],
        request_headers(sent)["connection"@] == seq![encode_utf8("Upgrade"@)],
        request_headers(sent)["upgrade"@] == seq![encode_utf8("websocket"@)],
        request_headers(sent)["sec-websocket-version"@] == seq![encode_utf8("13"@)],
        request_headers(sent)["sec-websocket-key"@].len() == 1,
{
}

} // verus!

//! The session client: what is sent to the remote agent service for each
//! operation of its protocol. The client holds no connection; it is made
//! once and then only read.

use vstd::prelude::*;
use vstd::string::StringSliceAdditionalSpecFns;
use crate::outside::{
    base64_input_limit, base64_standard, empty_object, encode_base64, field_names, insert_string,
    no_fields,
    percent_encode, percent_encoded, string_fields,
};
use crate::protocol::{is_text_part, SendMessageRequest};
use crate::text::{concat2, concat3, decimal, decimal_string, trim_end_matches, without_trailing};

verus! {

/// The seconds after which a request is given up.
pub const SEND_TIMEOUT_SECS: u64 = 120;

/// The seconds after which an attempt to connect is given up.
pub const CONNECT_TIMEOUT_SECS: u64 = 10;

/// The method of a request.
#[derive(Clone, Copy, PartialEq, Eq, Structural, Debug)]
pub enum Method {
    Get,
    Post,
    Delete,
}

/// What a request carries.
#[derive(Debug)]
pub enum RequestBody {
    Empty,
    /// A JSON object.
    Object(serde_json::Map<String, serde_json::Value>),
    /// A prompt, sent as JSON.
    Prompt(SendMessageRequest),
}

/// A request to the remote service.
#[derive(Debug)]
pub struct HttpRequest {
    pub method: Method,
    pub url: String,
    /// The value of the `Authorization` header, where one is sent.
    pub authorization: Option<String>,
    pub body: RequestBody,
}

/// The mathematical value of a client.
pub struct ClientModel {
    pub base_url: Seq<char>,
    pub auth_header: Option<Seq<char>>,
}

/// The client of one remote service.
pub struct OpenCodeClient {
    base_url: String,
    auth_header: Option<String>,
}

impl View for OpenCodeClient {
    type V = ClientModel;

    closed spec fn view(&self) -> ClientModel {
        ClientModel { base_url: self.base_url@, auth_header: self.auth_header.deep_view() }
    }
}

/// What is encoded in the header of HTTP Basic authentication.
pub open spec fn credentials(username: Seq<char>, password: Seq<char>) -> Seq<char> {
    username + seq![':'] + password
}

/// The `Authorization` header for a user: none without a password, else the
/// word `Basic` and the base64 form of the credentials. Credentials too long
/// to be encoded give no header.
pub open spec fn basic_auth(username: Seq<char>, password: Option<Seq<char>>) -> Option<Seq<char>> {
    match password {
        Some(p) => if vstd::utf8::encode_utf8(credentials(username, p)).len() <= base64_input_limit() {
            Some("Basic "@ + base64_standard(credentials(username, p)))
        } else {
            None
        },
        None => None,
    }
}

/// The fields of the body that asks for a new session: the title, and the
/// provider and the model where they are given. The body holds no other.
pub open spec fn session_fields(
    title: Seq<char>,
    provider_id: Option<Seq<char>>,
    model_id: Option<Seq<char>>,
) -> Map<Seq<char>, Seq<char>> {
    let named = no_fields().insert("title"@, title);
    let provided = match provider_id {
        Some(p) => named.insert("providerId"@, p),
        None => named,
    };
    match model_id {
        Some(m) => provided.insert("modelId"@, m),
        None => provided,
    }
}

/// Whether `request` goes to `path` on the client's service by `method`,
/// with the client's authorization.
pub open spec fn addressed(
    request: HttpRequest,
    client: ClientModel,
    method: Method,
    path: Seq<char>,
) -> bool {
    &&& request.method == method
    &&& request.url@ == client.base_url + path
    &&& request.authorization.deep_view() == client.auth_header
}

/// Whether `request` carries the prompt `message` as its only part.
pub open spec fn carries_prompt(
    request: HttpRequest,
    message: Seq<char>,
    agent: Option<String>,
    model: Option<String>,
) -> bool {
    request.body matches RequestBody::Prompt(body) && {
        &&& body.message_id is None
        &&& body.agent == agent
        &&& body.model == model
        &&& body.parts@.len() == 1
        &&& is_text_part(body.parts@[0], message)
    }
}

/// The query that limits a list of messages.
pub open spec fn limit_query(limit: Option<u32>) -> Seq<char> {
    match limit {
        Some(n) => "?limit="@ + decimal(n as nat),
        None => Seq::empty(),
    }
}

impl OpenCodeClient {
    /// The client of the service at `server_url`, without the slashes at the
    /// end of the address. The authorization header is computed here, once.
    pub fn new(server_url: String, username: String, password: Option<String>) -> (client: OpenCodeClient)
        ensures
            client@.base_url == without_trailing(server_url@, '/'),
            client@.auth_header == basic_auth(username@, password.deep_view()),
    {
        let auth_header = match password {
            Some(pwd) => {
                let text = concat3(username.as_str(), ":", pwd.as_str());
                proof {
                    reveal_strlit(":");
                    assert(":"@ =~= seq![':']);
                }
                if text.as_str().as_bytes().len() <= usize::MAX / 2 {
                    let encoded = encode_base64(text.as_str());
                    Some(concat2("Basic ", encoded.as_str()))
                } else {
                    None
                }
            },
            None => None,
        };
        OpenCodeClient { base_url: trim_end_matches(server_url.as_str(), '/'), auth_header }
    }

    /// The address of the service.
    pub fn base_url(&self) -> (r: &String)
        ensures
            r@ == self@.base_url,
    {
        &self.base_url
    }

    /// The authorization header that every request carries, if any.
    pub fn auth_header(&self) -> (r: &Option<String>)
        ensures
            r.deep_view() == self@.auth_header,
    {
        &self.auth_header
    }

    fn request(&self, method: Method, path: &str, body: RequestBody) -> (request: HttpRequest)
        ensures
            addressed(request, self@, method, path@),
            request.body == body,
    {
        HttpRequest {
            method,
            url: concat2(self.base_url.as_str(), path),
            authorization: self.auth_header.clone(),
            body,
        }
    }

    /// The request that asks the service for its health and version.
    pub fn health_check(&self) -> (request: HttpRequest)
        ensures
            addressed(request, self@, Method::Get, "/global/health"@),
            request.body is Empty,
    {
        self.request(Method::Get, "/global/health", RequestBody::Empty)
    }

    /// The request that lists the providers.
    pub fn get_providers(&self) -> (request: HttpRequest)
        ensures
            addressed(request, self@, Method::Get, "/provider"@),
            request.body is Empty,
    {
        self.request(Method::Get, "/provider", RequestBody::Empty)
    }

    /// The request that lists the configured providers with their models.
    pub fn get_config_providers(&self) -> (request: HttpRequest)
        ensures
            addressed(request, self@, Method::Get, "/config/providers"@),
            request.body is Empty,
    {
        self.request(Method::Get, "/config/providers", RequestBody::Empty)
    }

    /// The request that creates a session called `title`, with the provider
    /// and the model where they are given.
    pub fn create_session(&self, title: &str, provider_id: Option<String>, model_id: Option<String>) -> (request: HttpRequest)
        ensures
            addressed(request, self@, Method::Post, "/session"@),
            request.body matches RequestBody::Object(fields) && {
                &&& string_fields(fields) == session_fields(
                    title@,
                    provider_id.deep_view(),
                    model_id.deep_view(),
                )
                &&& field_names(fields) == session_fields(
                    title@,
                    provider_id.deep_view(),
                    model_id.deep_view(),
                ).dom()
            },
    {
        let mut fields = empty_object();
        insert_string(&mut fields, "title", String::from_str(title));
        match provider_id {
            Some(provider) => insert_string(&mut fields, "providerId", provider),
            None => {},
        }
        match model_id {
            Some(model) => insert_string(&mut fields, "modelId", model),
            None => {},
        }
        assert(field_names(fields) =~= string_fields(fields).dom());
        self.request(Method::Post, "/session", RequestBody::Object(fields))
    }

    /// The request that sends `message` to a session and waits for the
    /// answer of the agent.
    pub fn send_message(&self, session_id: &str, message: &str, agent: Option<String>, model: Option<String>) -> (request: HttpRequest)
        ensures
            addressed(request, self@, Method::Post, "/session/"@ + session_id@ + "/message"@),
            carries_prompt(request, message@, agent, model),
    {
        let path = concat3("/session/", session_id, "/message");
        self.request(
            Method::Post,
            path.as_str(),
            RequestBody::Prompt(SendMessageRequest::new(message, agent, model)),
        )
    }

    /// The request that sends `message` to a session without waiting for the
    /// answer.
    pub fn send_message_async(&self, session_id: &str, message: &str, agent: Option<String>, model: Option<String>) -> (request: HttpRequest)
        ensures
            addressed(request, self@, Method::Post, "/session/"@ + session_id@ + "/prompt_async"@),
            carries_prompt(request, message@, agent, model),
    {
        let path = concat3("/session/", session_id, "/prompt_async");
        self.request(
            Method::Post,
            path.as_str(),
            RequestBody::Prompt(SendMessageRequest::new(message, agent, model)),
        )
    }

    /// The request that lists the messages of a session, at most `limit` of
    /// them where a limit is given.
    pub fn get_messages(&self, session_id: &str, limit: Option<u32>) -> (request: HttpRequest)
        ensures
            addressed(
                request,
                self@,
                Method::Get,
                "/session/"@ + session_id@ + "/message"@ + limit_query(limit),
            ),
            request.body is Empty,
    {
        let mut path = concat3("/session/", session_id, "/message");
        match limit {
            Some(n) => {
                path.append("?limit=");
                let number = decimal_string(n as u64);
                path.append(number.as_str());
                assert(path@ =~= "/session/"@ + session_id@ + "/message"@ + limit_query(limit));
            },
            None => {
                assert(path@ =~= "/session/"@ + session_id@ + "/message"@ + limit_query(limit));
            },
        }
        self.request(Method::Get, path.as_str(), RequestBody::Empty)
    }

    /// The request that deletes a session.
    pub fn delete_session(&self, session_id: &str) -> (request: HttpRequest)
        ensures
            addressed(request, self@, Method::Delete, "/session/"@ + session_id@),
            request.body is Empty,
    {
        let path = concat2("/session/", session_id);
        self.request(Method::Delete, path.as_str(), RequestBody::Empty)
    }

    /// The request that lists the files of the remote workspace under `path`.
    pub fn list_files(&self, path: &str) -> (request: HttpRequest)
        ensures
            addressed(
                request,
                self@,
                Method::Get,
                "/file?path="@ + percent_encoded(path.spec_bytes()),
            ),
            request.body is Empty,
    {
        let encoded = percent_encode(path);
        let query = concat2("/file?path=", encoded.as_str());
        self.request(Method::Get, query.as_str(), RequestBody::Empty)
    }

    /// The request that reads the file `path` of the remote workspace.
    pub fn read_file(&self, path: &str) -> (request: HttpRequest)
        ensures
            addressed(
                request,
                self@,
                Method::Get,
                "/file/content?path="@ + percent_encoded(path.spec_bytes()),
            ),
            request.body is Empty,
    {
        let encoded = percent_encode(path);
        let query = concat2("/file/content?path=", encoded.as_str());
        self.request(Method::Get, query.as_str(), RequestBody::Empty)
    }
}

} // verus!

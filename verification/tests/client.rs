use code_sensei::client::{
    HttpRequest, Method, OpenCodeClient, RequestBody, CONNECT_TIMEOUT_SECS, SEND_TIMEOUT_SECS,
};
use code_sensei::protocol::{HealthResponse, Message, MessageInfo, MessagePart, Session};
use code_sensei::reply::{
    decoded, delete_session_result, reply_body, send_message_async_result, HttpReply, Query,
};

fn client() -> OpenCodeClient {
    OpenCodeClient::new("http://localhost:4096".to_string(), "opencode".to_string(), None)
}

fn object(request: &HttpRequest) -> &serde_json::Map<String, serde_json::Value> {
    match &request.body {
        RequestBody::Object(fields) => fields,
        other => panic!("not an object: {:?}", other),
    }
}

#[test]
fn test_client_creation() {
    let client = OpenCodeClient::new(
        "http://localhost:4096".to_string(),
        "opencode".to_string(),
        None,
    );
    assert_eq!(client.base_url(), "http://localhost:4096");
}

#[test]
fn test_auth_header() {
    let client = OpenCodeClient::new(
        "http://localhost:4096".to_string(),
        "opencode".to_string(),
        Some("test123".to_string()),
    );
    assert!(client.auth_header().is_some());
    assert!(client.auth_header().clone().unwrap().starts_with("Basic "));
}

#[test]
fn auth_header_is_the_base64_of_user_and_password() {
    let client = OpenCodeClient::new(
        "http://h".to_string(),
        "opencode".to_string(),
        Some("test123".to_string()),
    );
    assert_eq!(client.auth_header(), &Some("Basic b3BlbmNvZGU6dGVzdDEyMw==".to_string()));
    let none = client_without_password();
    assert_eq!(none.auth_header(), &None);
}

fn client_without_password() -> OpenCodeClient {
    OpenCodeClient::new("http://h".to_string(), "opencode".to_string(), None)
}

#[test]
fn trailing_slashes_of_the_address_are_dropped() {
    let client = OpenCodeClient::new("http://h:1//".to_string(), "u".to_string(), None);
    assert_eq!(client.base_url(), "http://h:1");
    let bare = OpenCodeClient::new("///".to_string(), "u".to_string(), None);
    assert_eq!(bare.base_url(), "");
    let inner = OpenCodeClient::new("http://h/a/b".to_string(), "u".to_string(), None);
    assert_eq!(inner.base_url(), "http://h/a/b");
}

#[test]
fn timeouts() {
    assert_eq!(SEND_TIMEOUT_SECS, 120);
    assert_eq!(CONNECT_TIMEOUT_SECS, 10);
}

#[test]
fn requests_of_the_protocol() {
    let c = OpenCodeClient::new("http://h/".to_string(), "u".to_string(), Some("p".to_string()));
    let auth = Some("Basic dTpw".to_string());

    let health = c.health_check();
    assert_eq!(health.method, Method::Get);
    assert_eq!(health.url, "http://h/global/health");
    assert_eq!(health.authorization, auth);
    assert!(matches!(health.body, RequestBody::Empty));

    assert_eq!(c.get_providers().url, "http://h/provider");
    assert_eq!(c.get_providers().method, Method::Get);
    assert_eq!(c.get_config_providers().url, "http://h/config/providers");

    let messages = c.get_messages("s1", Some(1));
    assert_eq!(messages.method, Method::Get);
    assert_eq!(messages.url, "http://h/session/s1/message?limit=1");
    assert_eq!(c.get_messages("s1", Some(4294967295)).url, "http://h/session/s1/message?limit=4294967295");
    assert_eq!(c.get_messages("s1", Some(0)).url, "http://h/session/s1/message?limit=0");
    assert_eq!(c.get_messages("s1", None).url, "http://h/session/s1/message");

    let delete = c.delete_session("s1");
    assert_eq!(delete.method, Method::Delete);
    assert_eq!(delete.url, "http://h/session/s1");
    assert_eq!(delete.authorization, auth);
}

#[test]
fn create_session_body_holds_the_given_fields_only() {
    let c = client();
    let request = c.create_session("需求文档更新", None, None);
    assert_eq!(request.method, Method::Post);
    assert_eq!(request.url, "http://localhost:4096/session");
    assert_eq!(request.authorization, None);
    assert_eq!(serde_json::to_string(object(&request)).unwrap(), "{\"title\":\"需求文档更新\"}");

    let full = c.create_session("t", Some("openai".to_string()), Some("gpt-4".to_string()));
    let fields = object(&full);
    assert_eq!(fields.len(), 3);
    assert_eq!(fields.get("title").unwrap().as_str(), Some("t"));
    assert_eq!(fields.get("providerId").unwrap().as_str(), Some("openai"));
    assert_eq!(fields.get("modelId").unwrap().as_str(), Some("gpt-4"));
}

#[test]
fn prompts_are_sent_as_one_text_part() {
    let c = client();
    let sync = c.send_message("abc", "hello", Some("build".to_string()), None);
    assert_eq!(sync.method, Method::Post);
    assert_eq!(sync.url, "http://localhost:4096/session/abc/message");
    match sync.body {
        RequestBody::Prompt(body) => {
            assert_eq!(body.message_id, None);
            assert_eq!(body.agent, Some("build".to_string()));
            assert_eq!(body.model, None);
            assert_eq!(
                body.parts,
                vec![MessagePart {
                    part_type: "text".to_string(),
                    text: Some("hello".to_string()),
                    reasoning: None,
                }]
            );
        }
        other => panic!("not a prompt: {:?}", other),
    }
    let detached = c.send_message_async("abc", "hello", None, Some("m".to_string()));
    assert_eq!(detached.url, "http://localhost:4096/session/abc/prompt_async");
    assert!(matches!(detached.body, RequestBody::Prompt(_)));
}

#[test]
fn file_paths_are_percent_encoded() {
    let c = client();
    assert_eq!(
        c.list_files("src/my file.rs").url,
        "http://localhost:4096/file?path=src%2Fmy%20file.rs"
    );
    assert_eq!(
        c.read_file("a-b_c.d~/é").url,
        "http://localhost:4096/file/content?path=a-b_c.d~%2F%C3%A9"
    );
}

fn reply(status: u16, body: &str) -> Result<HttpReply, String> {
    Ok(HttpReply { status, body: Ok(body.to_string()) })
}

#[test]
fn create_session_refused_with_500_reports_status_and_body() {
    let error = reply_body(Query::CreateSession, reply(500, "boom")).unwrap_err();
    assert!(error.contains("500"));
    assert!(error.contains("boom"));
    assert_eq!(error, "Server 返回错误 (500 Internal Server Error): boom");
}

#[test]
fn refused_listing_of_messages_reports_status_and_body() {
    let error = reply_body(Query::GetMessages, reply(404, "no such session")).unwrap_err();
    assert!(error.contains("404"));
    assert!(error.contains("no such session"));
    assert_eq!(error, "Server 返回错误 (404 Not Found): no such session");
}

#[test]
fn refusals_hold_status_and_body_for_every_query() {
    let queries = [
        Query::HealthCheck,
        Query::GetProviders,
        Query::GetConfigProviders,
        Query::CreateSession,
        Query::SendMessage,
        Query::GetMessages,
        Query::ListFiles,
        Query::ReadFile,
    ];
    for query in queries {
        assert_eq!(
            reply_body(query, reply(503, "down for repair")).unwrap_err(),
            "Server 返回错误 (503 Service Unavailable): down for repair"
        );
        assert_eq!(
            reply_body(query, reply(199, "")).unwrap_err(),
            "Server 返回错误 (199 <unknown status code>): "
        );
        assert_eq!(reply_body(query, reply(300, "x")).unwrap_err(), "Server 返回错误 (300 Multiple Choices): x");
        assert_eq!(reply_body(query, reply(1000, "x")).unwrap_err(), "Server 返回错误 (1000): x");
        assert_eq!(reply_body(query, reply(42, "x")).unwrap_err(), "Server 返回错误 (42): x");
        let unread = Ok(HttpReply { status: 502, body: Err("reset".to_string()) });
        assert_eq!(
            reply_body(query, unread).unwrap_err(),
            "Server 返回错误 (502 Bad Gateway): 无法读取错误信息"
        );
    }
}

#[test]
fn requests_that_could_not_be_sent() {
    let cases = [
        (Query::HealthCheck, "无法连接到 OpenCode Server: refused\n请检查 Server 是否运行，地址是否正确"),
        (Query::GetProviders, "获取 Providers 失败: refused"),
        (Query::GetConfigProviders, "获取配置 Providers 失败: refused"),
        (Query::CreateSession, "创建会话失败: refused"),
        (Query::SendMessage, "发送消息失败: refused"),
        (Query::GetMessages, "获取消息列表失败: refused"),
        (Query::ListFiles, "获取文件列表失败: refused"),
        (Query::ReadFile, "读取文件失败: refused"),
    ];
    for (query, expected) in cases {
        assert_eq!(reply_body(query, Err("refused".to_string())).unwrap_err(), expected);
    }
}

#[test]
fn successful_replies_give_their_body() {
    assert_eq!(reply_body(Query::CreateSession, reply(200, "{}")).unwrap(), "{}");
    assert_eq!(reply_body(Query::HealthCheck, reply(299, "ok")).unwrap(), "ok");
    let unread = || Ok(HttpReply { status: 200, body: Err("cut".to_string()) });
    assert_eq!(reply_body(Query::GetProviders, unread()).unwrap_err(), "读取响应文本失败: cut");
    assert_eq!(reply_body(Query::CreateSession, unread()).unwrap_err(), "读取响应文本失败: cut");
}

#[test]
fn undecodable_session_reply_holds_the_cause_and_the_raw_body() {
    let body = reply_body(Query::CreateSession, reply(200, "not json")).unwrap();
    let cause = serde_json::from_str::<serde_json::Value>(&body).unwrap_err().to_string();
    let failed: Result<Session, String> = Err(cause.clone());
    let error = decoded(Query::CreateSession, &body, failed).unwrap_err();
    assert!(error.contains("not json"));
    assert!(error.contains(&cause));
    assert_eq!(error, format!("解析会话响应失败: {}\n响应内容: not json", cause));
}

#[test]
fn decode_failures_hold_the_cause_and_the_body_for_every_query() {
    let none = || -> Result<Session, String> { Err("EOF".to_string()) };
    let cases = [
        (Query::HealthCheck, "解析响应失败: EOF\n响应内容: {"),
        (Query::GetProviders, "解析 Providers 失败: EOF\n响应内容: {"),
        (Query::GetConfigProviders, "解析配置 Providers 失败: EOF\n响应内容: {"),
        (Query::CreateSession, "解析会话响应失败: EOF\n响应内容: {"),
        (Query::SendMessage, "解析消息响应失败: EOF\n响应内容: {"),
        (Query::GetMessages, "解析消息列表失败: EOF\n响应内容: {"),
        (Query::ListFiles, "解析文件列表失败: EOF\n响应内容: {"),
        (Query::ReadFile, "解析文件内容失败: EOF\n响应内容: {"),
    ];
    for (query, expected) in cases {
        assert_eq!(decoded(query, "{", none()).unwrap_err(), expected);
    }
    assert_eq!(
        decoded(Query::GetConfigProviders, "<html>", none()).unwrap_err(),
        "解析配置 Providers 失败: EOF\n响应内容: <html>"
    );
    let health = HealthResponse { healthy: true, version: "1.2".to_string() };
    assert_eq!(decoded(Query::HealthCheck, "{}", Ok(health.clone())), Ok(health));
}

#[test]
fn deleting_a_session_never_fails_on_a_reply() {
    assert_eq!(delete_session_result(reply(200, "true")), Ok(true));
    assert_eq!(delete_session_result(reply(204, "")), Ok(true));
    assert_eq!(delete_session_result(reply(404, "gone")), Ok(false));
    assert_eq!(delete_session_result(reply(500, "boom")), Ok(false));
    assert_eq!(
        delete_session_result(Err("refused".to_string())),
        Err("删除会话失败: refused".to_string())
    );
}

#[test]
fn async_send_is_accepted_before_any_message_exists() {
    let c = client();
    let send = c.send_message_async("s9", "do it", None, None);
    assert_eq!(send.url, "http://localhost:4096/session/s9/prompt_async");
    // the reply to the prompt carries no message of the assistant
    assert_eq!(send_message_async_result(reply(204, "")), Ok(()));

    // later the service has produced one message, and the poll asks for one
    let poll = c.get_messages("s9", Some(1));
    assert_eq!(poll.url, "http://localhost:4096/session/s9/message?limit=1");
    let body = reply_body(Query::GetMessages, reply(200, "[{}]")).unwrap();
    let one = vec![Message {
        info: MessageInfo {
            id: "m1".to_string(),
            role: "assistant".to_string(),
            created: String::new(),
            status: None,
        },
        parts: vec![],
    }];
    let messages = decoded(Query::GetMessages, &body, Ok(one)).unwrap();
    assert_eq!(messages.len(), 1);
}

#[test]
fn async_send_failures() {
    assert_eq!(
        send_message_async_result(reply(500, "boom")),
        Err("Server 返回错误 (500 Internal Server Error): boom".to_string())
    );
    assert_eq!(
        send_message_async_result(Err("timeout".to_string())),
        Err("发送异步消息失败: timeout".to_string())
    );
}

#[test]
fn connection_test_reports() {
    assert_eq!(
        code_sensei::reply::connection_test_result(Ok("1.2.3".to_string())),
        Ok("✅ 连接成功！OpenCode Server 版本: 1.2.3".to_string())
    );
    assert_eq!(
        code_sensei::reply::connection_test_result(Err("refused".to_string())),
        Err("❌ 连接失败: refused".to_string())
    );
}

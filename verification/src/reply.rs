//! How the replies of the remote service are read: which outcomes count as
//! failures of an operation, and the message that reports each.

use vstd::prelude::*;
use crate::outside::{reason_phrase, status_text};
use crate::text::{contains_text, decimal, decimal_string};

verus! {

/// An HTTP reply as it was received: the status code, and the body as text
/// or the reason why it could not be read.
#[derive(Debug, PartialEq, Eq)]
pub struct HttpReply {
    pub status: u16,
    pub body: Result<String, String>,
}

/// What came of sending a request: a reply, or the reason why none came.
pub type Outcome = Result<HttpReply, String>;

/// The operations whose reply carries a value to decode.
#[derive(Clone, Copy, PartialEq, Eq, Structural, Debug)]
pub enum Query {
    HealthCheck,
    GetProviders,
    GetConfigProviders,
    CreateSession,
    SendMessage,
    GetMessages,
    ListFiles,
    ReadFile,
}

/// A text or a failure, as a value.
pub open spec fn text_or_failure(r: Result<String, String>) -> Result<Seq<char>, Seq<char>> {
    match r {
        Ok(t) => Ok(t@),
        Err(e) => Err(e@),
    }
}

/// Whether a status code reports success: it lies within 200 to 299.
pub open spec fn is_success(status: u16) -> bool {
    200 <= status < 300
}

/// How a status is written in a message: its number, followed for a code
/// from 100 to 999 by a space and the reason phrase.
pub open spec fn status_line(status: u16) -> Seq<char> {
    if 100 <= status <= 999 {
        decimal(status as nat) + seq![' '] + reason_phrase(status)
    } else {
        decimal(status as nat)
    }
}

/// What a message starts with that reports a request which could not be sent.
pub open spec fn send_failure_prefix(query: Query) -> Seq<char> {
    match query {
        Query::HealthCheck => "无法连接到 OpenCode Server: "@,
        Query::GetProviders => "获取 Providers 失败: "@,
        Query::GetConfigProviders => "获取配置 Providers 失败: "@,
        Query::CreateSession => "创建会话失败: "@,
        Query::SendMessage => "发送消息失败: "@,
        Query::GetMessages => "获取消息列表失败: "@,
        Query::ListFiles => "获取文件列表失败: "@,
        Query::ReadFile => "读取文件失败: "@,
    }
}

/// What follows the cause in such a message.
pub open spec fn send_failure_suffix(query: Query) -> Seq<char> {
    match query {
        Query::HealthCheck => "\n请检查 Server 是否运行，地址是否正确"@,
        _ => Seq::empty(),
    }
}

/// The message for a request that could not be sent: it holds the cause.
pub open spec fn send_failure(query: Query, cause: Seq<char>) -> Seq<char> {
    send_failure_prefix(query) + cause + send_failure_suffix(query)
}

/// The body of a refused reply as it is quoted.
pub open spec fn quoted_body(body: Result<Seq<char>, Seq<char>>) -> Seq<char> {
    match body {
        Ok(text) => text,
        Err(_) => "无法读取错误信息"@,
    }
}

/// The message that quotes status and body of a refused reply.
pub open spec fn refusal_with_body(status: u16, body: Result<Seq<char>, Seq<char>>) -> Seq<char> {
    "Server 返回错误 ("@ + status_line(status) + "): "@ + quoted_body(body)
}

/// The message for a reply whose status does not report success. Whatever
/// the operation, it holds the status and the body of the reply.
pub open spec fn status_failure(query: Query, status: u16, body: Result<Seq<char>, Seq<char>>) -> Seq<char> {
    refusal_with_body(status, body)
}

/// What a message starts with that reports a reply which could not be
/// decoded.
pub open spec fn decode_failure_prefix(query: Query) -> Seq<char> {
    match query {
        Query::HealthCheck => "解析响应失败: "@,
        Query::GetProviders => "解析 Providers 失败: "@,
        Query::GetConfigProviders => "解析配置 Providers 失败: "@,
        Query::CreateSession => "解析会话响应失败: "@,
        Query::SendMessage => "解析消息响应失败: "@,
        Query::GetMessages => "解析消息列表失败: "@,
        Query::ListFiles => "解析文件列表失败: "@,
        Query::ReadFile => "解析文件内容失败: "@,
    }
}

/// The message for a reply that could not be decoded. Whatever the
/// operation, it holds the cause and the raw body.
pub open spec fn decode_failure(query: Query, cause: Seq<char>, body: Seq<char>) -> Seq<char> {
    decode_failure_prefix(query) + cause + "\n响应内容: "@ + body
}

/// The message for a body that could not be read from a successful reply.
pub open spec fn read_failure(cause: Seq<char>) -> Seq<char> {
    "读取响应文本失败: "@ + cause
}

/// The body to decode, or the message of the failure: the request was not
/// sent, the status does not report success, or the body could not be read.
pub open spec fn body_or_failure(query: Query, outcome: Outcome) -> Result<Seq<char>, Seq<char>> {
    match outcome {
        Err(cause) => Err(send_failure(query, cause@)),
        Ok(reply) => if !is_success(reply.status) {
            Err(status_failure(query, reply.status, text_or_failure(reply.body)))
        } else {
            match reply.body {
                Ok(text) => Ok(text@),
                Err(cause) => Err(read_failure(cause@)),
            }
        },
    }
}

/// Whether a status code reports success.
pub fn success(status: u16) -> (r: bool)
    ensures
        r == is_success(status),
{
    200 <= status && status < 300
}

/// How a status is written in a message.
pub fn status_line_text(status: u16) -> (r: String)
    ensures
        r@ == status_line(status),
{
    match status_text(status) {
        Some(text) => text,
        None => decimal_string(status as u64),
    }
}

fn send_prefix(query: Query) -> (r: &'static str)
    ensures
        r@ == send_failure_prefix(query),
{
    match query {
        Query::HealthCheck => "无法连接到 OpenCode Server: ",
        Query::GetProviders => "获取 Providers 失败: ",
        Query::GetConfigProviders => "获取配置 Providers 失败: ",
        Query::CreateSession => "创建会话失败: ",
        Query::SendMessage => "发送消息失败: ",
        Query::GetMessages => "获取消息列表失败: ",
        Query::ListFiles => "获取文件列表失败: ",
        Query::ReadFile => "读取文件失败: ",
    }
}

fn decode_prefix(query: Query) -> (r: &'static str)
    ensures
        r@ == decode_failure_prefix(query),
{
    match query {
        Query::HealthCheck => "解析响应失败: ",
        Query::GetProviders => "解析 Providers 失败: ",
        Query::GetConfigProviders => "解析配置 Providers 失败: ",
        Query::CreateSession => "解析会话响应失败: ",
        Query::SendMessage => "解析消息响应失败: ",
        Query::GetMessages => "解析消息列表失败: ",
        Query::ListFiles => "解析文件列表失败: ",
        Query::ReadFile => "解析文件内容失败: ",
    }
}

fn refusal_text(status: u16, body: &Result<String, String>) -> (r: String)
    ensures
        r@ == refusal_with_body(status, text_or_failure(*body)),
{
    let mut r = String::from_str("Server 返回错误 (");
    let line = status_line_text(status);
    r.append(line.as_str());
    r.append("): ");
    match body {
        Ok(text) => r.append(text.as_str()),
        Err(_) => r.append("无法读取错误信息"),
    }
    r
}

/// The message for a request that could not be sent.
pub fn send_failure_text(query: Query, cause: &str) -> (r: String)
    ensures
        r@ == send_failure(query, cause@),
{
    let mut r = String::from_str(send_prefix(query));
    r.append(cause);
    match query {
        Query::HealthCheck => r.append("\n请检查 Server 是否运行，地址是否正确"),
        _ => {
            assert(r@ + Seq::<char>::empty() =~= r@);
        },
    }
    r
}

/// Reads the outcome of a query up to the body that is to be decoded.
pub fn reply_body(query: Query, outcome: Outcome) -> (r: Result<String, String>)
    ensures
        text_or_failure(r) == body_or_failure(query, outcome),
{
    match outcome {
        Err(cause) => Err(send_failure_text(query, cause.as_str())),
        Ok(reply) => {
            if !success(reply.status) {
                Err(refusal_text(reply.status, &reply.body))
            } else {
                match reply.body {
                    Ok(text) => Ok(text),
                    Err(cause) => Err(crate::text::concat2("读取响应文本失败: ", cause.as_str())),
                }
            }
        },
    }
}

/// The decoded value of a query, or the message that reports why the body
/// `body` could not be decoded.
pub fn decoded<T>(query: Query, body: &str, result: Result<T, String>) -> (r: Result<T, String>)
    ensures
        match result {
            Ok(value) => r == Ok::<T, String>(value),
            Err(cause) => r is Err && r->Err_0@ == decode_failure(query, cause@, body@),
        },
{
    match result {
        Ok(value) => Ok(value),
        Err(cause) => {
            let mut r = String::from_str(decode_prefix(query));
            r.append(cause.as_str());
            r.append("\n响应内容: ");
            r.append(body);
            Err(r)
        },
    }
}

/// The message for a refused reply holds the number of the status and the
/// body of the reply, as they came.
pub proof fn lemma_refusal_mentions(status: u16, body: Seq<char>)
    ensures
        contains_text(refusal_with_body(status, Ok(body)), decimal(status as nat)),
        contains_text(refusal_with_body(status, Ok(body)), body),
{
    let head = "Server 返回错误 ("@;
    let line = status_line(status);
    let number = decimal(status as nat);
    let text = refusal_with_body(status, Ok(body));
    let at = head.len() as int;
    assert(line.subrange(0, number.len() as int) =~= number);
    assert(text.subrange(at, at + number.len()) =~= number);
    let tail = text.len() - body.len();
    assert(text.subrange(tail, tail + body.len()) =~= body);
}

/// The message for a refused reply holds the number of the status and the
/// body of the reply, whatever the operation.
pub proof fn lemma_status_failure_mentions(query: Query, status: u16, body: Seq<char>)
    ensures
        contains_text(status_failure(query, status, Ok(body)), decimal(status as nat)),
        contains_text(status_failure(query, status, Ok(body)), body),
{
    lemma_refusal_mentions(status, body);
}

/// The message for a reply that could not be decoded holds the cause and the
/// raw body, whatever the operation.
pub proof fn lemma_decode_failure_mentions(query: Query, cause: Seq<char>, body: Seq<char>)
    ensures
        contains_text(decode_failure(query, cause, body), cause),
        contains_text(decode_failure(query, cause, body), body),
{
    let text = decode_failure(query, cause, body);
    let at = decode_failure_prefix(query).len() as int;
    assert(text.subrange(at, at + cause.len()) =~= cause);
    let tail = text.len() - body.len();
    assert(text.subrange(tail, tail + body.len()) =~= body);
}

/// What came of asking the service to delete a session: whether it reported
/// success, or the message for a request that could not be sent.
pub open spec fn deletion(outcome: Outcome) -> Result<bool, Seq<char>> {
    match outcome {
        Ok(reply) => Ok(is_success(reply.status)),
        Err(cause) => Err("删除会话失败: "@ + cause@),
    }
}

/// Reads the outcome of deleting a session. A reply never is a failure: its
/// status only tells whether the session was deleted.
pub fn delete_session_result(outcome: Outcome) -> (r: Result<bool, String>)
    ensures
        match deletion(outcome) {
            Ok(done) => r == Ok::<bool, String>(done),
            Err(message) => r is Err && r->Err_0@ == message,
        },
{
    match outcome {
        Ok(reply) => Ok(success(reply.status)),
        Err(cause) => Err(crate::text::concat2("删除会话失败: ", cause.as_str())),
    }
}

/// What came of sending a prompt without waiting for the answer: nothing,
/// or the message of the failure.
pub open spec fn async_acceptance(outcome: Outcome) -> Result<(), Seq<char>> {
    match outcome {
        Ok(reply) => if is_success(reply.status) {
            Ok(())
        } else {
            Err(refusal_with_body(reply.status, text_or_failure(reply.body)))
        },
        Err(cause) => Err("发送异步消息失败: "@ + cause@),
    }
}

/// Reads the outcome of sending a prompt without waiting for the answer: the
/// prompt is accepted as soon as the reply reports success, and no message
/// of the assistant is read from it.
pub fn send_message_async_result(outcome: Outcome) -> (r: Result<(), String>)
    ensures
        match async_acceptance(outcome) {
            Ok(_) => r is Ok,
            Err(message) => r is Err && r->Err_0@ == message,
        },
{
    match outcome {
        Ok(reply) => {
            if success(reply.status) {
                Ok(())
            } else {
                Err(refusal_text(reply.status, &reply.body))
            }
        },
        Err(cause) => Err(crate::text::concat2("发送异步消息失败: ", cause.as_str())),
    }
}

/// What a test of the connection reports: the version of the service that
/// answered, or why none did.
pub open spec fn connection_report(health: Result<Seq<char>, Seq<char>>) -> Result<Seq<char>, Seq<char>> {
    match health {
        Ok(version) => Ok("✅ 连接成功！OpenCode Server 版本: "@ + version),
        Err(cause) => Err("❌ 连接失败: "@ + cause),
    }
}

/// The report of a test of the connection, from the version that the health
/// check gave or the message of its failure.
pub fn connection_test_result(health: Result<String, String>) -> (r: Result<String, String>)
    ensures
        text_or_failure(r) == connection_report(text_or_failure(health)),
{
    match health {
        Ok(version) => Ok(crate::text::concat2("✅ 连接成功！OpenCode Server 版本: ", version.as_str())),
        Err(cause) => Err(crate::text::concat2("❌ 连接失败: ", cause.as_str())),
    }
}

} // verus!

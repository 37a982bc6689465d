//! The values of the agent session protocol.

use vstd::prelude::*;

verus! {

/// A conversation held by the remote service. Its `id` is given by the
/// service and never made or changed here.
#[derive(Debug, Clone, PartialEq, Eq)]
pub struct Session {
    pub id: String,
    pub title: String,
    pub created_at: String,
    pub provider_id: Option<String>,
    pub model_id: Option<String>,
}

/// One part of a message: text to show, or reasoning that is not shown.
#[derive(Debug, Clone, PartialEq, Eq)]
pub struct MessagePart {
    pub part_type: String,
    pub text: Option<String>,
    pub reasoning: Option<String>,
}

/// Who wrote a message, and when.
#[derive(Debug, Clone, PartialEq, Eq)]
pub struct MessageInfo {
    pub id: String,
    pub role: String,
    pub created: String,
    pub status: Option<String>,
}

/// One turn of a session, made of ordered parts.
#[derive(Debug, Clone, PartialEq, Eq)]
pub struct Message {
    pub info: MessageInfo,
    pub parts: Vec<MessagePart>,
}

/// The body of a prompt sent to a session.
#[derive(Debug, Clone, PartialEq, Eq)]
pub struct SendMessageRequest {
    pub message_id: Option<String>,
    pub agent: Option<String>,
    pub model: Option<String>,
    pub parts: Vec<MessagePart>,
}

/// The answer to a health check: whether the service is well, and its version.
#[derive(Debug, Clone, PartialEq, Eq)]
pub struct HealthResponse {
    pub healthy: bool,
    pub version: String,
}

/// The models of a provider, as the service lists them: by name, or as a map
/// from name to description.
#[derive(Debug, Clone, PartialEq, Eq)]
pub enum ProviderModels {
    Unlisted,
    StringList(Vec<String>),
    /// Each model's name with its description as JSON text.
    KeyedModelMap(Vec<(String, String)>),
}

/// A provider of models that the service can use.
#[derive(Debug, Clone, PartialEq, Eq)]
pub struct Provider {
    pub id: String,
    pub name: String,
    pub display_name: String,
    pub homepage: String,
    pub models: ProviderModels,
}

/// The answer to the listing of providers.
#[derive(Debug, Clone, PartialEq, Eq)]
pub struct ProviderListResponse {
    pub all: Vec<Provider>,
    /// The default model of each provider, as JSON text.
    pub default: String,
}

/// The answer to the listing of configured providers.
#[derive(Debug, Clone, PartialEq, Eq)]
pub struct ConfigProvidersResponse {
    pub providers: Vec<Provider>,
}

/// Where the list of providers comes from.
#[derive(Debug, Clone, PartialEq, Eq)]
pub enum ProviderSource {
    /// The configured providers, which come with their models.
    Configured(Vec<Provider>),
    /// The plain list of providers, to be asked for.
    Plain,
}

/// The configured providers are preferred: where their listing failed, the
/// plain list is asked for instead.
pub fn provider_source(configured: Result<Vec<Provider>, String>) -> (r: ProviderSource)
    ensures
        match configured {
            Ok(providers) => r == ProviderSource::Configured(providers),
            Err(_) => r is Plain,
        },
{
    match configured {
        Ok(providers) => ProviderSource::Configured(providers),
        Err(_) => ProviderSource::Plain,
    }
}

/// An entry of a remote workspace listing.
#[derive(Debug, Clone, PartialEq, Eq)]
pub struct FileNode {
    pub path: String,
    /// `"file"` or `"directory"`.
    pub node_type: String,
}

/// The texts of the parts that have one which is not empty, in order.
pub open spec fn shown_texts(parts: Seq<MessagePart>) -> Seq<Seq<char>>
    decreases parts.len(),
{
    if parts.len() == 0 {
        Seq::empty()
    } else {
        let before = shown_texts(parts.drop_last());
        match parts.last().text {
            Some(t) => if t@.len() > 0 {
                before.push(t@)
            } else {
                before
            },
            None => before,
        }
    }
}

/// The lines joined by a newline between each two.
pub open spec fn join_lines(lines: Seq<Seq<char>>) -> Seq<char>
    decreases lines.len(),
{
    if lines.len() == 0 {
        Seq::empty()
    } else if lines.len() == 1 {
        lines[0]
    } else {
        join_lines(lines.drop_last()) + seq!['\n'] + lines.last()
    }
}

/// What a message shows: its non-empty texts, one per line. Reasoning is
/// left out.
pub open spec fn content_of(parts: Seq<MessagePart>) -> Seq<char> {
    join_lines(shown_texts(parts))
}

/// The part that carries `message` as text.
pub open spec fn is_text_part(part: MessagePart, message: Seq<char>) -> bool {
    &&& part.part_type@ == "text"@
    &&& part.text.deep_view() == Some(message)
    &&& part.reasoning is None
}

impl MessagePart {
    /// A part that carries `message` as text.
    pub fn text(message: &str) -> (part: MessagePart)
        ensures
            is_text_part(part, message@),
    {
        MessagePart {
            part_type: String::from_str("text"),
            text: Some(String::from_str(message)),
            reasoning: None,
        }
    }
}

impl SendMessageRequest {
    /// The body that sends `message` as one text part.
    pub fn new(message: &str, agent: Option<String>, model: Option<String>) -> (body: SendMessageRequest)
        ensures
            body.message_id is None,
            body.agent == agent,
            body.model == model,
            body.parts@.len() == 1,
            is_text_part(body.parts@[0], message@),
    {
        let mut parts: Vec<MessagePart> = Vec::new();
        parts.push(MessagePart::text(message));
        SendMessageRequest { message_id: None, agent, model, parts }
    }
}

impl Message {
    /// The text that the message shows.
    pub fn content(&self) -> (r: String)
        ensures
            r@ == content_of(self.parts@),
    {
        let mut r = String::new();
        let mut any = false;
        let mut i: usize = 0;
        while i < self.parts.len()
            invariant
                i <= self.parts.len(),
                any == (shown_texts(self.parts@.take(i as int)).len() > 0),
                r@ == content_of(self.parts@.take(i as int)),
            decreases self.parts.len() - i,
        {
            proof {
                assert(self.parts@.take(i + 1).drop_last() =~= self.parts@.take(i as int));
            }
            let ghost before = shown_texts(self.parts@.take(i as int));
            match &self.parts[i].text {
                Some(t) => {
                    if !t.as_str().is_empty() {
                        if any {
                            r.append("\n");
                            proof {
                                reveal_strlit("\n");
                                assert("\n"@ =~= seq!['\n']);
                            }
                        }
                        r.append(t.as_str());
                        proof {
                            assert(before.push(t@).drop_last() =~= before);
                            if !any {
                                assert(r@ =~= t@);
                            }
                        }
                        any = true;
                    }
                },
                None => {},
            }
            i += 1;
        }
        assert(self.parts@.take(i as int) =~= self.parts@);
        r
    }
}

} // verus!

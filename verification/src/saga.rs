//! The sagas that update a requirement document and generate code: fixed
//! sequences of steps on the remote service and on local files. A saga
//! decides; its caller acts. Each step takes what came of the last action
//! and names the next one, until the saga is over.

use vstd::prelude::*;
use crate::agent::{AgentResponse, ResponseModel};
use crate::config::{copy_of, OpenCodeConfig};
use crate::project::Project;
use crate::prompt::{build_code_prompt, build_document_prompt, code_prompt, document_prompt};
use crate::protocol::{content_of, HealthResponse, Message, Session};
use crate::text::{concat2, concat3};

verus! {

/// The sagas.
#[derive(Clone, Copy, PartialEq, Eq, Structural, Debug)]
pub enum SagaKind {
    /// Rewrites the requirement document and waits for the result.
    UpdateRequirement,
    /// Has the agent create or change files and waits for its summary.
    CreateFiles,
    /// Has the agent create or change files without waiting: the caller
    /// gets the session to poll.
    CreateFilesAsync,
}

/// Where a saga stands: what it waits for.
#[derive(Clone, Copy, PartialEq, Eq, Structural, Debug)]
pub enum Stage {
    Created,
    LoadingProject,
    ReadingDocument,
    LoadingConfig,
    CheckingHealth,
    AnnouncingAnalysis,
    CreatingSession,
    AnnouncingWork,
    Sending,
    Writing,
    Deleting,
    AnnouncingEnd,
    /// Deleting the session after a failure.
    CleaningUp,
    Finished,
}

/// What came of looking up a project's metadata.
#[derive(Debug, Clone, PartialEq, Eq)]
pub enum ProjectLookup {
    Missing,
    Unreadable(String),
    Malformed(String),
    Found(Project),
}

/// Why a document could not be written.
#[derive(Debug, Clone, PartialEq, Eq)]
pub enum WriteFailure {
    Directory(String),
    File(String),
}

/// What came of the action that a saga named last.
#[derive(Debug, PartialEq, Eq)]
pub enum Event {
    Begin,
    ProjectLoaded(ProjectLookup),
    /// The requirement document as it stands, empty where there is none,
    /// with its path and the root of the project as they are shown.
    DocumentRead { path: String, root: String, content: String },
    ConfigLoaded(OpenCodeConfig),
    HealthChecked(Result<HealthResponse, String>),
    SessionCreated(Result<Session, String>),
    MessageSent(Result<Message, String>),
    MessageAccepted(Result<(), String>),
    DocumentWritten(Result<(), WriteFailure>),
    /// A notification or a deletion was attempted. Whether it succeeded does
    /// not matter.
    Done,
}

/// A notification for the user interface.
#[derive(Debug, Clone, PartialEq, Eq)]
pub enum Notice {
    Progress { stage: String, message: String },
    RequirementUpdated { project_id: String, file_path: String },
    TaskStarted { project_id: String, session_id: String },
    FilesCompleted { project_id: String, message: String },
}

/// The mathematical value of a [`Notice`].
pub enum NoticeModel {
    Progress { stage: Seq<char>, message: Seq<char> },
    RequirementUpdated { project_id: Seq<char>, file_path: Seq<char> },
    TaskStarted { project_id: Seq<char>, session_id: Seq<char> },
    FilesCompleted { project_id: Seq<char>, message: Seq<char> },
}

impl View for Notice {
    type V = NoticeModel;

    open spec fn view(&self) -> NoticeModel {
        match self {
            Notice::Progress { stage, message } => NoticeModel::Progress {
                stage: stage@,
                message: message@,
            },
            Notice::RequirementUpdated { project_id, file_path } => NoticeModel::RequirementUpdated {
                project_id: project_id@,
                file_path: file_path@,
            },
            Notice::TaskStarted { project_id, session_id } => NoticeModel::TaskStarted {
                project_id: project_id@,
                session_id: session_id@,
            },
            Notice::FilesCompleted { project_id, message } => NoticeModel::FilesCompleted {
                project_id: project_id@,
                message: message@,
            },
        }
    }
}

impl Notice {
    /// The name under which the notification is emitted.
    pub fn channel(&self) -> (r: &'static str)
        ensures
            r@ == match self@ {
                NoticeModel::Progress { .. } => "agent-progress"@,
                NoticeModel::RequirementUpdated { .. } => "requirement-updated"@,
                NoticeModel::TaskStarted { .. } => "agent-task-started"@,
                NoticeModel::FilesCompleted { .. } => "files-operation-completed"@,
            },
    {
        match self {
            Notice::Progress { .. } => "agent-progress",
            Notice::RequirementUpdated { .. } => "requirement-updated",
            Notice::TaskStarted { .. } => "agent-task-started",
            Notice::FilesCompleted { .. } => "files-operation-completed",
        }
    }
}

/// What a saga gives its caller when it succeeds.
#[derive(Debug, Clone, PartialEq, Eq)]
pub enum SagaOutput {
    Response(AgentResponse),
    /// The session to poll for the agent's messages.
    SessionStarted(String),
}

/// The mathematical value of a [`SagaOutput`].
pub enum OutputModel {
    Response(ResponseModel),
    SessionStarted(Seq<char>),
}

/// What the caller of a saga is to do next.
#[derive(Debug, PartialEq, Eq)]
pub enum Action {
    LoadProject { project_id: String },
    /// Read the requirement document of the project: in `root_path` where
    /// the project names one, else in the project's own directory.
    ReadDocument { root_path: Option<String> },
    LoadConfig,
    CheckHealth,
    /// Emit a notification; go on whether or not it could be emitted.
    Notify(Notice),
    CreateSession { title: String, provider_id: Option<String>, model_id: Option<String> },
    SendMessage { session_id: String, prompt: String },
    SendMessageAsync { session_id: String, prompt: String },
    /// Write the requirement document.
    WriteDocument { content: String },
    /// Ask for the session to be deleted; go on whether or not it was.
    DeleteSession { session_id: String },
    /// The saga is over, with its result or the one message of its failure.
    Finish(Result<SagaOutput, String>),
}

/// The mathematical value of an [`Action`].
pub enum ActionModel {
    LoadProject { project_id: Seq<char> },
    ReadDocument { root_path: Option<Seq<char>> },
    LoadConfig,
    CheckHealth,
    Notify(NoticeModel),
    CreateSession { title: Seq<char>, provider_id: Option<Seq<char>>, model_id: Option<Seq<char>> },
    SendMessage { session_id: Seq<char>, prompt: Seq<char> },
    SendMessageAsync { session_id: Seq<char>, prompt: Seq<char> },
    WriteDocument { content: Seq<char> },
    DeleteSession { session_id: Seq<char> },
    Finish(Result<OutputModel, Seq<char>>),
}

impl View for Action {
    type V = ActionModel;

    open spec fn view(&self) -> ActionModel {
        match self {
            Action::LoadProject { project_id } => ActionModel::LoadProject { project_id: project_id@ },
            Action::ReadDocument { root_path } => ActionModel::ReadDocument {
                root_path: root_path.deep_view(),
            },
            Action::LoadConfig => ActionModel::LoadConfig,
            Action::CheckHealth => ActionModel::CheckHealth,
            Action::Notify(notice) => ActionModel::Notify(notice@),
            Action::CreateSession { title, provider_id, model_id } => ActionModel::CreateSession {
                title: title@,
                provider_id: provider_id.deep_view(),
                model_id: model_id.deep_view(),
            },
            Action::SendMessage { session_id, prompt } => ActionModel::SendMessage {
                session_id: session_id@,
                prompt: prompt@,
            },
            Action::SendMessageAsync { session_id, prompt } => ActionModel::SendMessageAsync {
                session_id: session_id@,
                prompt: prompt@,
            },
            Action::WriteDocument { content } => ActionModel::WriteDocument { content: content@ },
            Action::DeleteSession { session_id } => ActionModel::DeleteSession {
                session_id: session_id@,
            },
            Action::Finish(Ok(SagaOutput::Response(response))) => ActionModel::Finish(
                Ok(OutputModel::Response(response@)),
            ),
            Action::Finish(Ok(SagaOutput::SessionStarted(id))) => ActionModel::Finish(
                Ok(OutputModel::SessionStarted(id@)),
            ),
            Action::Finish(Err(message)) => ActionModel::Finish(Err(message@)),
        }
    }
}

/// The state of a saga.
pub struct SagaModel {
    pub kind: SagaKind,
    pub stage: Stage,
    pub project_id: Seq<char>,
    pub user_input: Seq<char>,
    pub document_path: Seq<char>,
    pub project_root: Seq<char>,
    pub document: Seq<char>,
    pub provider: Option<Seq<char>>,
    pub model: Option<Seq<char>>,
    pub session_id: Seq<char>,
    pub reply: Seq<char>,
    pub failure: Seq<char>,
}

impl SagaModel {
    /// The saga goes on to `stage`.
    pub open spec fn at(self, stage: Stage) -> SagaModel {
        SagaModel { stage, ..self }
    }

    /// The saga ends with the failure `message`.
    pub open spec fn fails(self, message: Seq<char>) -> (SagaModel, ActionModel) {
        (self.at(Stage::Finished), ActionModel::Finish(Err(message)))
    }

    /// The saga gives up with the failure `message` once its session is
    /// deleted.
    pub open spec fn gives_up(self, message: Seq<char>) -> (SagaModel, ActionModel) {
        (
            SagaModel { failure: message, ..self.at(Stage::CleaningUp) },
            ActionModel::DeleteSession { session_id: self.session_id },
        )
    }

    /// The title of the saga's session.
    pub open spec fn session_title(self) -> Seq<char> {
        if self.kind == SagaKind::UpdateRequirement {
            "需求文档更新"@
        } else {
            "代码生成"@
        }
    }

    /// The request for the saga's session.
    pub open spec fn creates_session(self) -> (SagaModel, ActionModel) {
        (
            self.at(Stage::CreatingSession),
            ActionModel::CreateSession {
                title: self.session_title(),
                provider_id: self.provider,
                model_id: self.model,
            },
        )
    }

    /// The instruction that the saga gives to the agent.
    pub open spec fn prompt(self) -> Seq<char> {
        if self.kind == SagaKind::UpdateRequirement {
            document_prompt(self.user_input, self.document)
        } else {
            code_prompt(self.project_root, self.user_input, self.document)
        }
    }

    /// The notification that work on the prompt begins.
    pub open spec fn work_notice(self) -> NoticeModel {
        if self.kind == SagaKind::UpdateRequirement {
            NoticeModel::Progress { stage: "processing"@, message: "正在生成需求文档..."@ }
        } else {
            NoticeModel::Progress { stage: "working"@, message: "正在创建/修改文件..."@ }
        }
    }

    /// The notification that the saga has done its work.
    pub open spec fn end_notice(self) -> NoticeModel {
        match self.kind {
            SagaKind::UpdateRequirement => NoticeModel::RequirementUpdated {
                project_id: self.project_id,
                file_path: self.document_path,
            },
            SagaKind::CreateFiles => NoticeModel::FilesCompleted {
                project_id: self.project_id,
                message: self.reply,
            },
            SagaKind::CreateFilesAsync => NoticeModel::TaskStarted {
                project_id: self.project_id,
                session_id: self.session_id,
            },
        }
    }

    /// What the saga gives its caller when it succeeds.
    pub open spec fn output(self) -> OutputModel {
        match self.kind {
            SagaKind::UpdateRequirement => OutputModel::Response(
                ResponseModel {
                    success: true,
                    message: "需求文档已更新"@,
                    file_modified: Some(self.document_path),
                    document_content: Some(self.reply),
                    error: None,
                },
            ),
            SagaKind::CreateFiles => OutputModel::Response(
                ResponseModel {
                    success: true,
                    message: self.reply,
                    file_modified: None,
                    document_content: None,
                    error: None,
                },
            ),
            SagaKind::CreateFilesAsync => OutputModel::SessionStarted(self.session_id),
        }
    }

    /// What the saga makes of the agent's answer `text`: the requirement
    /// document must not be empty and is written; a summary of changes may
    /// be empty and ends the work.
    pub open spec fn answered(self, text: Seq<char>) -> (SagaModel, ActionModel) {
        if self.kind == SagaKind::UpdateRequirement {
            if text.len() == 0 {
                self.gives_up("AI 返回了空响应"@)
            } else {
                (
                    SagaModel { reply: text, ..self.at(Stage::Writing) },
                    ActionModel::WriteDocument { content: text },
                )
            }
        } else {
            (
                SagaModel { reply: text, ..self.at(Stage::Deleting) },
                ActionModel::DeleteSession { session_id: self.session_id },
            )
        }
    }
}

/// The message for a health check that failed.
pub open spec fn unreachable_service(cause: Seq<char>) -> Seq<char> {
    "无法连接到 OpenCode Server: "@ + cause + "\n请检查 Server 是否运行，地址是否正确"@
}

/// The message for an event that the saga did not wait for.
pub open spec fn out_of_order() -> Seq<char> {
    "saga event out of order"@
}

/// One step of a saga: from its state and what came of the last action to
/// its next state and the next action. A step that fails before there is a
/// session ends the saga; one that fails later has the session deleted
/// first. Either way the remaining steps are not taken.
pub open spec fn step(m: SagaModel, event: Event) -> (SagaModel, ActionModel) {
    match (m.stage, event) {
        (Stage::Created, Event::Begin) => (
            m.at(Stage::LoadingProject),
            ActionModel::LoadProject { project_id: m.project_id },
        ),
        (Stage::LoadingProject, Event::ProjectLoaded(lookup)) => match lookup {
            ProjectLookup::Missing => m.fails("项目不存在"@),
            ProjectLookup::Unreadable(cause) => m.fails("无法读取 project.json: "@ + cause@),
            ProjectLookup::Malformed(cause) => m.fails("无法解析 project.json: "@ + cause@),
            ProjectLookup::Found(project) => (
                m.at(Stage::ReadingDocument),
                ActionModel::ReadDocument { root_path: project.root_path.deep_view() },
            ),
        },
        (Stage::ReadingDocument, Event::DocumentRead { path, root, content }) => (
            SagaModel {
                document_path: path@,
                project_root: root@,
                document: content@,
                ..m.at(Stage::LoadingConfig)
            },
            ActionModel::LoadConfig,
        ),
        (Stage::LoadingConfig, Event::ConfigLoaded(config)) => (
            SagaModel {
                provider: config@.default_provider,
                model: config@.default_model,
                ..m.at(Stage::CheckingHealth)
            },
            ActionModel::CheckHealth,
        ),
        (Stage::CheckingHealth, Event::HealthChecked(health)) => match health {
            Err(cause) => m.fails(unreachable_service(cause@)),
            Ok(_) => if m.kind == SagaKind::UpdateRequirement {
                m.creates_session()
            } else {
                (
                    m.at(Stage::AnnouncingAnalysis),
                    ActionModel::Notify(
                        NoticeModel::Progress {
                            stage: "analyzing"@,
                            message: "正在分析项目结构和需求..."@,
                        },
                    ),
                )
            },
        },
        (Stage::AnnouncingAnalysis, Event::Done) => m.creates_session(),
        (Stage::CreatingSession, Event::SessionCreated(created)) => match created {
            Err(cause) => m.fails("创建会话失败: "@ + cause@),
            Ok(session) => {
                let with_session = SagaModel { session_id: session.id@, ..m };
                if m.kind == SagaKind::CreateFilesAsync {
                    (
                        with_session.at(Stage::Sending),
                        ActionModel::SendMessageAsync {
                            session_id: session.id@,
                            prompt: m.prompt(),
                        },
                    )
                } else {
                    (with_session.at(Stage::AnnouncingWork), ActionModel::Notify(m.work_notice()))
                }
            },
        },
        (Stage::AnnouncingWork, Event::Done) => (
            m.at(Stage::Sending),
            ActionModel::SendMessage { session_id: m.session_id, prompt: m.prompt() },
        ),
        (Stage::Sending, Event::MessageSent(sent)) => if m.kind == SagaKind::CreateFilesAsync {
            m.fails(out_of_order())
        } else {
            match sent {
                Err(cause) => m.gives_up("发送消息失败: "@ + cause@),
                Ok(message) => m.answered(content_of(message.parts@)),
            }
        },
        (Stage::Sending, Event::MessageAccepted(accepted)) => if m.kind
            != SagaKind::CreateFilesAsync {
            m.fails(out_of_order())
        } else {
            match accepted {
                Err(cause) => m.gives_up("发送消息失败: "@ + cause@),
                Ok(_) => (m.at(Stage::AnnouncingEnd), ActionModel::Notify(m.end_notice())),
            }
        },
        (Stage::Writing, Event::DocumentWritten(written)) => match written {
            Err(WriteFailure::Directory(cause)) => m.gives_up("无法创建目录: "@ + cause@),
            Err(WriteFailure::File(cause)) => m.gives_up("无法保存需求文档: "@ + cause@),
            Ok(_) => (
                m.at(Stage::Deleting),
                ActionModel::DeleteSession { session_id: m.session_id },
            ),
        },
        (Stage::Deleting, Event::Done) => (
            m.at(Stage::AnnouncingEnd),
            ActionModel::Notify(m.end_notice()),
        ),
        (Stage::AnnouncingEnd, Event::Done) => (
            m.at(Stage::Finished),
            ActionModel::Finish(Ok(m.output())),
        ),
        (Stage::CleaningUp, Event::Done) => m.fails(m.failure),
        _ => m.fails(out_of_order()),
    }
}

/// A health check that fails ends the saga at once, with the message that
/// holds the cause; nothing is asked of the service after it.
pub proof fn lemma_failed_health_check_aborts(m: SagaModel, cause: String)
    requires
        m.stage == Stage::CheckingHealth,
    ensures
        step(m, Event::HealthChecked(Err(cause))) == (
            m.at(Stage::Finished),
            ActionModel::Finish(Err(unreachable_service(cause@))),
        ),
{
}

/// An answer without text fails the update of a requirement document, once
/// the session is deleted, and does not fail the generation of code.
pub proof fn lemma_empty_answer(m: SagaModel, message: Message)
    requires
        m.stage == Stage::Sending,
        m.kind != SagaKind::CreateFilesAsync,
        content_of(message.parts@).len() == 0,
    ensures
        m.kind == SagaKind::UpdateRequirement ==> {
            let (waiting, action) = step(m, Event::MessageSent(Ok(message)));
            &&& action == ActionModel::DeleteSession { session_id: m.session_id }
            &&& step(waiting, Event::Done) == (
                waiting.at(Stage::Finished),
                ActionModel::Finish(Err("AI 返回了空响应"@)),
            )
        },
        m.kind == SagaKind::CreateFiles ==> {
            let (next, action) = step(m, Event::MessageSent(Ok(message)));
            &&& next.stage == Stage::Deleting
            &&& next.failure == m.failure
            &&& action == ActionModel::DeleteSession { session_id: m.session_id }
        },
{
}

/// A saga that is over stays over, whatever comes.
pub proof fn lemma_finished_is_final(m: SagaModel, event: Event)
    requires
        m.stage == Stage::Finished,
    ensures
        step(m, event).0 == m,
        step(m, event).1 == ActionModel::Finish(Err(out_of_order())),
{
}

/// The asynchronous saga never has a document written: whatever the stage
/// and the event, its next action is not a write.
pub proof fn lemma_async_writes_nothing(m: SagaModel, event: Event)
    requires
        m.kind == SagaKind::CreateFilesAsync,
    ensures
        !(step(m, event).1 is WriteDocument),
        step(m, event).0.kind == SagaKind::CreateFilesAsync,
{
}

/// A saga in progress.
pub struct Saga {
    kind: SagaKind,
    stage: Stage,
    project_id: String,
    user_input: String,
    document_path: String,
    project_root: String,
    document: String,
    provider: Option<String>,
    model: Option<String>,
    session_id: String,
    reply: String,
    failure: String,
}

impl View for Saga {
    type V = SagaModel;

    closed spec fn view(&self) -> SagaModel {
        SagaModel {
            kind: self.kind,
            stage: self.stage,
            project_id: self.project_id@,
            user_input: self.user_input@,
            document_path: self.document_path@,
            project_root: self.project_root@,
            document: self.document@,
            provider: self.provider.deep_view(),
            model: self.model.deep_view(),
            session_id: self.session_id@,
            reply: self.reply@,
            failure: self.failure@,
        }
    }
}

/// A saga that has not begun.
pub open spec fn created(kind: SagaKind, project_id: Seq<char>, user_input: Seq<char>) -> SagaModel {
    SagaModel {
        kind,
        stage: Stage::Created,
        project_id,
        user_input,
        document_path: Seq::empty(),
        project_root: Seq::empty(),
        document: Seq::empty(),
        provider: None,
        model: None,
        session_id: Seq::empty(),
        reply: Seq::empty(),
        failure: Seq::empty(),
    }
}

impl Saga {
    /// A saga of the given kind for the request `user_input` on a project.
    /// It waits for [`Event::Begin`].
    pub fn new(kind: SagaKind, project_id: String, user_input: String) -> (saga: Saga)
        ensures
            saga@ == created(kind, project_id@, user_input@),
    {
        Saga {
            kind,
            stage: Stage::Created,
            project_id,
            user_input,
            document_path: String::new(),
            project_root: String::new(),
            document: String::new(),
            provider: None,
            model: None,
            session_id: String::new(),
            reply: String::new(),
            failure: String::new(),
        }
    }

    /// Whether the saga is over.
    pub fn is_finished(&self) -> (r: bool)
        ensures
            r == (self@.stage == Stage::Finished),
    {
        self.stage == Stage::Finished
    }

    fn fail(&mut self, message: String) -> (action: Action)
        ensures
            (final(self)@, action@) == old(self)@.fails(message@),
    {
        self.stage = Stage::Finished;
        Action::Finish(Err(message))
    }

    fn give_up(&mut self, message: String) -> (action: Action)
        ensures
            (final(self)@, action@) == old(self)@.gives_up(message@),
    {
        self.stage = Stage::CleaningUp;
        self.failure = message;
        Action::DeleteSession { session_id: self.session_id.clone() }
    }

    fn create_session(&mut self) -> (action: Action)
        ensures
            (final(self)@, action@) == old(self)@.creates_session(),
    {
        self.stage = Stage::CreatingSession;
        let title = if self.kind == SagaKind::UpdateRequirement {
            String::from_str("需求文档更新")
        } else {
            String::from_str("代码生成")
        };
        Action::CreateSession {
            title,
            provider_id: copy_of(&self.provider),
            model_id: copy_of(&self.model),
        }
    }

    fn build_prompt(&self) -> (r: String)
        ensures
            r@ == self@.prompt(),
    {
        if self.kind == SagaKind::UpdateRequirement {
            build_document_prompt(self.user_input.as_str(), self.document.as_str())
        } else {
            build_code_prompt(
                self.project_root.as_str(),
                self.user_input.as_str(),
                self.document.as_str(),
            )
        }
    }

    fn work_notice(&self) -> (r: Notice)
        ensures
            r@ == self@.work_notice(),
    {
        if self.kind == SagaKind::UpdateRequirement {
            Notice::Progress {
                stage: String::from_str("processing"),
                message: String::from_str("正在生成需求文档..."),
            }
        } else {
            Notice::Progress {
                stage: String::from_str("working"),
                message: String::from_str("正在创建/修改文件..."),
            }
        }
    }

    fn end_notice(&self) -> (r: Notice)
        ensures
            r@ == self@.end_notice(),
    {
        match self.kind {
            SagaKind::UpdateRequirement => Notice::RequirementUpdated {
                project_id: self.project_id.clone(),
                file_path: self.document_path.clone(),
            },
            SagaKind::CreateFiles => Notice::FilesCompleted {
                project_id: self.project_id.clone(),
                message: self.reply.clone(),
            },
            SagaKind::CreateFilesAsync => Notice::TaskStarted {
                project_id: self.project_id.clone(),
                session_id: self.session_id.clone(),
            },
        }
    }

    fn output(&self) -> (r: Action)
        ensures
            r@ == ActionModel::Finish(Ok(self@.output())),
    {
        match self.kind {
            SagaKind::UpdateRequirement => Action::Finish(
                Ok(
                    SagaOutput::Response(
                        AgentResponse {
                            success: true,
                            message: String::from_str("需求文档已更新"),
                            file_modified: Some(self.document_path.clone()),
                            document_content: Some(self.reply.clone()),
                            error: None,
                        },
                    ),
                ),
            ),
            SagaKind::CreateFiles => Action::Finish(
                Ok(
                    SagaOutput::Response(
                        AgentResponse {
                            success: true,
                            message: self.reply.clone(),
                            file_modified: None,
                            document_content: None,
                            error: None,
                        },
                    ),
                ),
            ),
            SagaKind::CreateFilesAsync => Action::Finish(
                Ok(SagaOutput::SessionStarted(self.session_id.clone())),
            ),
        }
    }

    fn answer(&mut self, text: String) -> (action: Action)
        ensures
            (final(self)@, action@) == old(self)@.answered(text@),
    {
        if self.kind == SagaKind::UpdateRequirement {
            if text.as_str().is_empty() {
                self.give_up(String::from_str("AI 返回了空响应"))
            } else {
                self.stage = Stage::Writing;
                self.reply = text.clone();
                Action::WriteDocument { content: text }
            }
        } else {
            self.stage = Stage::Deleting;
            self.reply = text;
            Action::DeleteSession { session_id: self.session_id.clone() }
        }
    }

    /// Takes what came of the last action and names the next one.
    pub fn step(&mut self, event: Event) -> (action: Action)
        ensures
            (final(self)@, action@) == step(old(self)@, event),
    {
        match (self.stage, event) {
            (Stage::Created, Event::Begin) => {
                self.stage = Stage::LoadingProject;
                Action::LoadProject { project_id: self.project_id.clone() }
            },
            (Stage::LoadingProject, Event::ProjectLoaded(lookup)) => match lookup {
                ProjectLookup::Missing => self.fail(String::from_str("项目不存在")),
                ProjectLookup::Unreadable(cause) => self.fail(
                    concat2("无法读取 project.json: ", cause.as_str()),
                ),
                ProjectLookup::Malformed(cause) => self.fail(
                    concat2("无法解析 project.json: ", cause.as_str()),
                ),
                ProjectLookup::Found(project) => {
                    self.stage = Stage::ReadingDocument;
                    Action::ReadDocument { root_path: project.root_path }
                },
            },
            (Stage::ReadingDocument, Event::DocumentRead { path, root, content }) => {
                self.stage = Stage::LoadingConfig;
                self.document_path = path;
                self.project_root = root;
                self.document = content;
                Action::LoadConfig
            },
            (Stage::LoadingConfig, Event::ConfigLoaded(config)) => {
                self.stage = Stage::CheckingHealth;
                self.provider = config.default_provider;
                self.model = config.default_model;
                Action::CheckHealth
            },
            (Stage::CheckingHealth, Event::HealthChecked(health)) => match health {
                Err(cause) => self.fail(
                    concat3(
                        "无法连接到 OpenCode Server: ",
                        cause.as_str(),
                        "\n请检查 Server 是否运行，地址是否正确",
                    ),
                ),
                Ok(_) => {
                    if self.kind == SagaKind::UpdateRequirement {
                        self.create_session()
                    } else {
                        self.stage = Stage::AnnouncingAnalysis;
                        Action::Notify(
                            Notice::Progress {
                                stage: String::from_str("analyzing"),
                                message: String::from_str("正在分析项目结构和需求..."),
                            },
                        )
                    }
                },
            },
            (Stage::AnnouncingAnalysis, Event::Done) => self.create_session(),
            (Stage::CreatingSession, Event::SessionCreated(created)) => match created {
                Err(cause) => self.fail(concat2("创建会话失败: ", cause.as_str())),
                Ok(session) => {
                    if self.kind == SagaKind::CreateFilesAsync {
                        let prompt = self.build_prompt();
                        self.stage = Stage::Sending;
                        self.session_id = session.id.clone();
                        Action::SendMessageAsync { session_id: session.id, prompt }
                    } else {
                        let notice = self.work_notice();
                        self.stage = Stage::AnnouncingWork;
                        self.session_id = session.id;
                        Action::Notify(notice)
                    }
                },
            },
            (Stage::AnnouncingWork, Event::Done) => {
                self.stage = Stage::Sending;
                Action::SendMessage {
                    session_id: self.session_id.clone(),
                    prompt: self.build_prompt(),
                }
            },
            (Stage::Sending, Event::MessageSent(sent)) => {
                if self.kind == SagaKind::CreateFilesAsync {
                    self.fail(String::from_str("saga event out of order"))
                } else {
                    match sent {
                        Err(cause) => self.give_up(concat2("发送消息失败: ", cause.as_str())),
                        Ok(message) => {
                            let text = message.content();
                            self.answer(text)
                        },
                    }
                }
            },
            (Stage::Sending, Event::MessageAccepted(accepted)) => {
                if self.kind != SagaKind::CreateFilesAsync {
                    self.fail(String::from_str("saga event out of order"))
                } else {
                    match accepted {
                        Err(cause) => self.give_up(concat2("发送消息失败: ", cause.as_str())),
                        Ok(_) => {
                            self.stage = Stage::AnnouncingEnd;
                            Action::Notify(self.end_notice())
                        },
                    }
                }
            },
            (Stage::Writing, Event::DocumentWritten(written)) => match written {
                Err(WriteFailure::Directory(cause)) => self.give_up(
                    concat2("无法创建目录: ", cause.as_str()),
                ),
                Err(WriteFailure::File(cause)) => self.give_up(
                    concat2("无法保存需求文档: ", cause.as_str()),
                ),
                Ok(_) => {
                    self.stage = Stage::Deleting;
                    Action::DeleteSession { session_id: self.session_id.clone() }
                },
            },
            (Stage::Deleting, Event::Done) => {
                self.stage = Stage::AnnouncingEnd;
                Action::Notify(self.end_notice())
            },
            (Stage::AnnouncingEnd, Event::Done) => {
                self.stage = Stage::Finished;
                self.output()
            },
            (Stage::CleaningUp, Event::Done) => {
                let message = self.failure.clone();
                self.fail(message)
            },
            _ => self.fail(String::from_str("saga event out of order")),
        }
    }
}

} // verus!

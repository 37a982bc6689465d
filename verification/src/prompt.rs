//! The instructions that the sagas give to the remote agent.

use vstd::prelude::*;

verus! {

/// How the instruction for a requirement document begins; the request follows.
pub const DOCUMENT_INTRO: &'static str = "你是 Code Sensei 的需求文档编辑助手。\n\n## 用户需求\n";

/// The task of writing a first requirement document.
pub const DOCUMENT_CREATE_TASK: &'static str =
    "\n\n## 任务\n请根据用户需求创建需求文档。\n\n## 输出格式\n严格按照 Markdown 格式输出完整的需求文档，包含：\n- 项目描述\n- 功能需求\n- 技术栈\n- 其他必要章节\n\n请直接输出需求文档内容，不要有其他说明。";

/// What introduces the current requirement document.
pub const DOCUMENT_CURRENT: &'static str = "\n\n## 当前需求文档内容\n```markdown";

/// The task of rewriting the requirement document.
pub const DOCUMENT_UPDATE_TASK: &'static str =
    "\n```\n\n## 任务\n请根据用户需求更新需求文档。保持文档结构清晰，使用 Markdown 格式。\n\n请直接输出更新后的完整需求文档内容，不要有其他说明。";

/// How the instruction for code begins; the root of the project follows.
pub const CODE_INTRO: &'static str = "你是 Code Sensei 的代码生成助手。\n\n## 项目路径\n";

/// What introduces the request.
pub const CODE_REQUEST: &'static str = "\n\n## 用户需求\n";

/// What introduces the requirement document.
pub const CODE_DOCUMENT: &'static str = "\n\n## 需求文档内容\n```markdown";

/// What closes the requirement document.
pub const CODE_DOCUMENT_END: &'static str = "\n```";

/// The task of changing files on the request alone.
pub const CODE_TASK: &'static str = "\n\n## 任务\n根据用户需求在项目中创建或修改文件。";

/// The task of changing files on the request and the requirement document.
pub const CODE_TASK_WITH_DOCUMENT: &'static str = "\n\n## 任务\n根据需求文档和用户需求，在项目中创建或修改文件。";

/// The principles that close every instruction for code.
pub const CODE_PRINCIPLES: &'static str =
    "\n\n## 工作原则\n- 先用 Read 工具读取现有文件，了解项目结构\n- 优先修改现有文件，避免创建不必要的文件\n- 保持代码风格一致\n- 确保代码可以运行\n\n请简要说明你修改了哪些文件。";

/// The instruction to write or rewrite a requirement document. Where there
/// is no document yet, the agent is asked to create one from the request;
/// otherwise it is given the current document and asked to update it.
pub open spec fn document_prompt(request: Seq<char>, current: Seq<char>) -> Seq<char> {
    if current.len() == 0 {
        DOCUMENT_INTRO@ + request + DOCUMENT_CREATE_TASK@
    } else {
        DOCUMENT_INTRO@ + request + DOCUMENT_CURRENT@ + current + DOCUMENT_UPDATE_TASK@
    }
}

/// The instruction to create or change files of the project at `root`. The
/// requirement document is given to the agent where there is one.
pub open spec fn code_prompt(root: Seq<char>, request: Seq<char>, document: Seq<char>) -> Seq<char> {
    if document.len() == 0 {
        CODE_INTRO@ + root + CODE_REQUEST@ + request + CODE_TASK@ + CODE_PRINCIPLES@
    } else {
        CODE_INTRO@ + root + CODE_DOCUMENT@ + document + CODE_DOCUMENT_END@ + CODE_REQUEST@ + request
            + CODE_TASK_WITH_DOCUMENT@ + CODE_PRINCIPLES@
    }
}

/// The instruction to write or rewrite a requirement document.
pub fn build_document_prompt(request: &str, current: &str) -> (r: String)
    ensures
        r@ == document_prompt(request@, current@),
{
    let mut r = String::from_str(DOCUMENT_INTRO);
    r.append(request);
    if current.is_empty() {
        r.append(DOCUMENT_CREATE_TASK);
    } else {
        r.append(DOCUMENT_CURRENT);
        r.append(current);
        r.append(DOCUMENT_UPDATE_TASK);
    }
    r
}

/// The instruction to create or change files of a project.
pub fn build_code_prompt(root: &str, request: &str, document: &str) -> (r: String)
    ensures
        r@ == code_prompt(root@, request@, document@),
{
    let mut r = String::from_str(CODE_INTRO);
    r.append(root);
    if document.is_empty() {
        r.append(CODE_REQUEST);
        r.append(request);
        r.append(CODE_TASK);
    } else {
        r.append(CODE_DOCUMENT);
        r.append(document);
        r.append(CODE_DOCUMENT_END);
        r.append(CODE_REQUEST);
        r.append(request);
        r.append(CODE_TASK_WITH_DOCUMENT);
    }
    r.append(CODE_PRINCIPLES);
    r
}

} // verus!

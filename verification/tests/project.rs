use code_sensei::agent::{
    plugin_output, plugin_output_error, ClaudeAgentNode, CreateFilesRequest,
    RequirementUpdateRequest,
};
use code_sensei::project::{
    initial_requirement, project_file_name, Project, DEFAULT_SOURCE_DIR, PROJECT_FILE_NAME,
    REQUIREMENT_FILE_NAME,
};
use code_sensei::prompt::{build_code_prompt, build_document_prompt};

#[test]
fn new_project() {
    let p = Project::new("1700000000123".to_string(), "n".to_string(), "d".to_string(), None, 1700000000);
    assert_eq!(p.id, "1700000000123");
    assert_eq!(p.name, "n");
    assert_eq!(p.description, "d");
    assert_eq!(p.language, "Python");
    assert_eq!(p.created_at, 1700000000);
    assert_eq!(p.updated_at, 1700000000);
    assert_eq!(p.root_path, None);
    assert!(p.is_managed());
    let external = Project::new("1".to_string(), "n".to_string(), "d".to_string(), Some("/w".to_string()), 5);
    assert!(!external.is_managed());
}

#[test]
fn project_files() {
    assert_eq!(project_file_name("requirement"), Ok("requirement.md"));
    assert_eq!(project_file_name("chat"), Ok("chat.json"));
    assert_eq!(project_file_name("tasks"), Ok("tasks.json"));
    assert_eq!(project_file_name("notes"), Err("Unknown file type: notes".to_string()));
    assert_eq!(project_file_name(""), Err("Unknown file type: ".to_string()));
    assert_eq!(DEFAULT_SOURCE_DIR, "src");
    assert_eq!(PROJECT_FILE_NAME, "project.json");
    assert_eq!(REQUIREMENT_FILE_NAME, "requirement.md");
}

#[test]
fn first_requirement_document() {
    assert_eq!(
        initial_requirement("Shop", "sells things"),
        "# Shop 需求文档\n\n## 项目描述\nsells things\n\n## 功能需求\n\n## 技术栈\n\n"
    );
}

#[test]
fn prompts_hold_the_request() {
    let create = build_document_prompt("REQUEST", "");
    assert!(create.starts_with("你是 Code Sensei 的需求文档编辑助手。\n\n## 用户需求\nREQUEST\n\n## 任务\n请根据用户需求创建需求文档。"));
    assert!(create.ends_with("请直接输出需求文档内容，不要有其他说明。"));
    let update = build_document_prompt("REQUEST", "CURRENT");
    assert!(update.contains("## 当前需求文档内容\n```markdownCURRENT\n```"));
    let code = build_code_prompt("/root", "REQUEST", "");
    assert!(code.starts_with("你是 Code Sensei 的代码生成助手。\n\n## 项目路径\n/root\n\n## 用户需求\nREQUEST\n\n## 任务\n根据用户需求在项目中创建或修改文件。\n\n## 工作原则\n"));
    assert!(!code.contains("markdown"));
    let with = build_code_prompt("/root", "REQUEST", "DOC");
    assert!(with.contains("## 需求文档内容\n```markdownDOC\n```\n\n## 用户需求\nREQUEST\n\n## 任务\n根据需求文档和用户需求，在项目中创建或修改文件。"));
    assert!(with.ends_with("请简要说明你修改了哪些文件。"));
}

#[test]
fn plugin_script_and_arguments() {
    let node = ClaudeAgentNode::new("C:\\app\\plugins\\agent\\index.cjs".to_string());
    assert_eq!(
        node.script("C:\\tmp\\args.json", "updateRequirement"),
        "const plugin = require('C:/app/plugins/agent/index.cjs'); const args = require('C:/tmp/args.json'); plugin[\"updateRequirement\"](args).then(r => console.log(JSON.stringify(r))).catch(e => console.error(JSON.stringify({error: e.message})));"
    );
    let update = node.update_requirement(RequirementUpdateRequest {
        user_input: "u".to_string(),
        project_path: "/p".to_string(),
        current_content: "c".to_string(),
    });
    assert_eq!(
        serde_json::to_string(&update).unwrap(),
        "{\"currentContent\":\"c\",\"projectPath\":\"/p\",\"prompt\":\"u\"}"
    );
    let create = node.create_files(CreateFilesRequest {
        user_input: "u".to_string(),
        project_path: "/p".to_string(),
        requirement_path: "/p/requirement.md".to_string(),
    });
    assert_eq!(create.len(), 3);
    assert_eq!(create.get("requirementPath").unwrap().as_str(), Some("/p/requirement.md"));
    assert_eq!(create.get("prompt").unwrap().as_str(), Some("u"));
    assert_eq!(create.get("projectPath").unwrap().as_str(), Some("/p"));
}

#[test]
fn plugin_results() {
    assert_eq!(plugin_output(true, "{}".to_string(), "warn"), Ok("{}".to_string()));
    assert_eq!(
        plugin_output(false, "{}".to_string(), "crash"),
        Err("Node.js execution failed: crash".to_string())
    );
    assert_eq!(
        plugin_output_error("EOF", "<html>"),
        "Failed to parse Node.js output: EOF - Output: <html>"
    );
}

#[test]
fn projects_are_listed_newest_first() {
    let made = |id: &str, at: i64| {
        Project::new(id.to_string(), String::new(), String::new(), None, at)
    };
    let sorted = code_sensei::project::sort_projects(vec![
        made("a", 5),
        made("b", 9),
        made("c", 5),
        made("d", -1),
        made("e", 9),
    ]);
    let ids: Vec<&str> = sorted.iter().map(|p| p.id.as_str()).collect();
    assert_eq!(ids, vec!["b", "e", "a", "c", "d"]);
    assert!(code_sensei::project::sort_projects(vec![]).is_empty());
}

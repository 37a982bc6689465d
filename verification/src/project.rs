//! Projects and the files that belong to one.

use vstd::prelude::*;
use crate::text::str_eq;

verus! {

/// The directory, inside a project's own directory, that holds its sources
/// where the project names no other root.
pub const DEFAULT_SOURCE_DIR: &'static str = "src";

/// The file that holds a project's metadata.
pub const PROJECT_FILE_NAME: &'static str = "project.json";

/// The file that holds a project's requirement document.
pub const REQUIREMENT_FILE_NAME: &'static str = "requirement.md";

/// A project and where it lives.
#[derive(Debug, Clone, PartialEq, Eq)]
pub struct Project {
    pub id: String,
    pub name: String,
    pub description: String,
    pub language: String,
    pub created_at: i64,
    pub updated_at: i64,
    /// A directory outside the application's own that holds the project.
    pub root_path: Option<String>,
}

/// One line of a project's chat.
#[derive(Debug, Clone, PartialEq, Eq)]
pub struct ChatMessage {
    pub role: String,
    pub content: String,
    pub timestamp: i64,
}

/// One task of a project's plan.
#[derive(Debug, Clone, PartialEq, Eq)]
pub struct Task {
    pub id: String,
    pub title: String,
    pub description: String,
    pub status: String,
    pub order: i32,
}

/// The file of a project that is known under the name `file_type`.
pub open spec fn file_of_type(file_type: Seq<char>) -> Option<Seq<char>> {
    if file_type == "requirement"@ {
        Some("requirement.md"@)
    } else if file_type == "chat"@ {
        Some("chat.json"@)
    } else if file_type == "tasks"@ {
        Some("tasks.json"@)
    } else {
        None
    }
}

/// The message for a name that is no file type.
pub open spec fn unknown_file_type(file_type: Seq<char>) -> Seq<char> {
    "Unknown file type: "@ + file_type
}

/// The name of the project file known as `file_type`, or the message that
/// rejects the name.
pub fn project_file_name(file_type: &str) -> (r: Result<&'static str, String>)
    ensures
        match r {
            Ok(name) => file_of_type(file_type@) == Some(name@),
            Err(message) => file_of_type(file_type@) is None && message@ == unknown_file_type(
                file_type@,
            ),
        },
{
    if str_eq(file_type, "requirement") {
        Ok("requirement.md")
    } else if str_eq(file_type, "chat") {
        Ok("chat.json")
    } else if str_eq(file_type, "tasks") {
        Ok("tasks.json")
    } else {
        Err(crate::text::concat2("Unknown file type: ", file_type))
    }
}

/// The requirement document that a new project starts with.
pub open spec fn first_requirement(name: Seq<char>, description: Seq<char>) -> Seq<char> {
    "# "@ + name + " 需求文档\n\n## 项目描述\n"@ + description + "\n\n## 功能需求\n\n## 技术栈\n\n"@
}

/// The requirement document that a new project starts with.
pub fn initial_requirement(name: &str, description: &str) -> (r: String)
    ensures
        r@ == first_requirement(name@, description@),
{
    let mut r = String::from_str("# ");
    r.append(name);
    r.append(" 需求文档\n\n## 项目描述\n");
    r.append(description);
    r.append("\n\n## 功能需求\n\n## 技术栈\n\n");
    r
}

/// Whether the projects stand newest first.
pub open spec fn newest_first(projects: Seq<Project>) -> bool {
    forall|i: int, j: int|
        0 <= i < j < projects.len() ==> (#[trigger] projects[i]).created_at >= (
        #[trigger] projects[j]).created_at
}

/// The projects, newest first.
pub fn sort_projects(projects: Vec<Project>) -> (sorted: Vec<Project>)
    ensures
        newest_first(sorted@),
        sorted@.to_multiset() == projects@.to_multiset(),
{
    let mut sorted: Vec<Project> = Vec::new();
    let ghost all = projects@;
    proof {
        assert(all.take(0) =~= Seq::<Project>::empty());
    }
    for project in it: projects
        invariant
            it.seq() == all,
            newest_first(sorted@),
            sorted@.to_multiset() == all.take(it.index() as int).to_multiset(),
    {
        let mut p: usize = sorted.len();
        while p > 0 && sorted[p - 1].created_at < project.created_at
            invariant
                p <= sorted.len(),
                forall|k: int| p <= k < sorted.len() ==> (#[trigger] sorted@[k]).created_at
                    < project.created_at,
            decreases p,
        {
            p -= 1;
        }
        proof {
            let done = all.take(it.index() as int);
            let next = all.take(it.index() + 1);
            assert(next =~= done.push(project));
            vstd::seq_lib::to_multiset_build(done, project);
            vstd::seq_lib::to_multiset_insert(sorted@, p as int, project);
            let r = sorted@.insert(p as int, project);
            assert forall|i: int, j: int| 0 <= i < j < r.len() implies (#[trigger] r[i]).created_at
                >= (#[trigger] r[j]).created_at by {
                if j < p {
                    assert(r[i] == sorted@[i] && r[j] == sorted@[j]);
                } else if j == p {
                    assert(r[i] == sorted@[i]);
                    if i < p - 1 {
                        assert(sorted@[i].created_at >= sorted@[p - 1].created_at);
                    }
                } else if i < p {
                    assert(r[i] == sorted@[i] && r[j] == sorted@[j - 1]);
                } else if i == p {
                    assert(r[j] == sorted@[j - 1]);
                } else {
                    assert(r[i] == sorted@[i - 1] && r[j] == sorted@[j - 1]);
                }
            }
        }
        sorted.insert(p, project);
    }
    proof {
        assert(all.take(all.len() as int) =~= all);
    }
    sorted
}

impl Project {
    /// A project made at the time `now`, in seconds, under the identifier
    /// `id`. New projects are Python projects.
    pub fn new(id: String, name: String, description: String, root_path: Option<String>, now: i64) -> (project: Project)
        ensures
            project.id == id,
            project.name == name,
            project.description == description,
            project.language@ == "Python"@,
            project.created_at == now,
            project.updated_at == now,
            project.root_path == root_path,
    {
        Project {
            id,
            name,
            description,
            language: String::from_str("Python"),
            created_at: now,
            updated_at: now,
            root_path,
        }
    }

    /// Whether the project lives in the application's own directory, where
    /// it gets its source and document directories and a first requirement
    /// document.
    pub fn is_managed(&self) -> (r: bool)
        ensures
            r == (self.root_path is None),
    {
        self.root_path.is_none()
    }
}

} // verus!

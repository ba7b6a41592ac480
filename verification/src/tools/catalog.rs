//! The tools for files, commands, skills and further agents.

use crate::json::Json;
use crate::mcp::ToolModel;
use crate::text::{copy_str, texts};
use crate::tools::{kind_json, object_schema, of_kind, schema_json, ToolSpec};
use crate::gateway::empty_table;
use vstd::prelude::*;

verus! {

/// What is known of `read_file`.
#[verifier::opaque]
pub open spec fn read_file_tool() -> ToolModel {
    ToolModel {
        name: "read_file"@,
        description: "读取工作区内的文本文件内容"@,
        input_schema: object_schema(
            empty_table().insert("path"@, of_kind("string"@)),
            seq!["path"@],
        ),
    }
}

/// Reads a text file of the workspace.
pub struct ReadFileTool;

impl ReadFileTool {
    /// What the model is told of the tool.
    pub fn spec(&self) -> (r: ToolSpec)
        ensures
            r.model() == read_file_tool(),
    {
        proof {
            reveal(read_file_tool);
        }
        let properties = Json::table().with("path", kind_json("string"));
        let mut required: Vec<String> = Vec::new();
        required.push(copy_str("path"));
        assert(texts(required@) =~= seq!["path"@]);
        ToolSpec {
            name: copy_str("read_file"),
            description: copy_str("读取工作区内的文本文件内容"),
            input_schema: schema_json(properties, &required),
        }
    }
}

/// What is known of `write_file`.
#[verifier::opaque]
pub open spec fn write_file_tool() -> ToolModel {
    ToolModel {
        name: "write_file"@,
        description: "写入工作区内的文件（自动快照，可 diff/revert）"@,
        input_schema: object_schema(
            empty_table().insert("path"@, of_kind("string"@)).insert("content"@, of_kind("string"@)),
            seq!["path"@, "content"@],
        ),
    }
}

/// Writes a file of the workspace.
pub struct WriteFileTool;

impl WriteFileTool {
    /// What the model is told of the tool.
    pub fn spec(&self) -> (r: ToolSpec)
        ensures
            r.model() == write_file_tool(),
    {
        proof {
            reveal(write_file_tool);
        }
        let properties = Json::table().with("path", kind_json("string")).with("content", kind_json("string"));
        let mut required: Vec<String> = Vec::new();
        required.push(copy_str("path"));
        required.push(copy_str("content"));
        assert(texts(required@) =~= seq!["path"@, "content"@]);
        ToolSpec {
            name: copy_str("write_file"),
            description: copy_str("写入工作区内的文件（自动快照，可 diff/revert）"),
            input_schema: schema_json(properties, &required),
        }
    }
}

/// What is known of `list_dir`.
#[verifier::opaque]
pub open spec fn list_dir_tool() -> ToolModel {
    ToolModel {
        name: "list_dir"@,
        description: "列出工作区内目录条目"@,
        input_schema: object_schema(
            empty_table().insert("path"@, of_kind("string"@)),
            seq![],
        ),
    }
}

/// Lists a directory of the workspace.
pub struct ListDirTool;

impl ListDirTool {
    /// What the model is told of the tool.
    pub fn spec(&self) -> (r: ToolSpec)
        ensures
            r.model() == list_dir_tool(),
    {
        proof {
            reveal(list_dir_tool);
        }
        let properties = Json::table().with("path", kind_json("string"));
        let required: Vec<String> = Vec::new();
        assert(texts(required@) =~= seq![]);
        ToolSpec {
            name: copy_str("list_dir"),
            description: copy_str("列出工作区内目录条目"),
            input_schema: schema_json(properties, &required),
        }
    }
}

/// What is known of `search_files`.
#[verifier::opaque]
pub open spec fn search_files_tool() -> ToolModel {
    ToolModel {
        name: "search_files"@,
        description: "按文件名关键字递归搜索工作区文件"@,
        input_schema: object_schema(
            empty_table().insert("pattern"@, of_kind("string"@)),
            seq!["pattern"@],
        ),
    }
}

/// Searches files by a part of their name.
pub struct SearchFilesTool;

impl SearchFilesTool {
    /// What the model is told of the tool.
    pub fn spec(&self) -> (r: ToolSpec)
        ensures
            r.model() == search_files_tool(),
    {
        proof {
            reveal(search_files_tool);
        }
        let properties = Json::table().with("pattern", kind_json("string"));
        let mut required: Vec<String> = Vec::new();
        required.push(copy_str("pattern"));
        assert(texts(required@) =~= seq!["pattern"@]);
        ToolSpec {
            name: copy_str("search_files"),
            description: copy_str("按文件名关键字递归搜索工作区文件"),
            input_schema: schema_json(properties, &required),
        }
    }
}

/// What is known of `run_command`.
#[verifier::opaque]
pub open spec fn run_command_tool() -> ToolModel {
    ToolModel {
        name: "run_command"@,
        description: "在工作区内执行 shell 命令（需审批，60 秒超时）"@,
        input_schema: object_schema(
            empty_table().insert("command"@, of_kind("string"@)).insert("cwd"@, of_kind("string"@)),
            seq!["command"@],
        ),
    }
}

/// Runs a command in the workspace.
pub struct RunCommandTool;

impl RunCommandTool {
    /// What the model is told of the tool.
    pub fn spec(&self) -> (r: ToolSpec)
        ensures
            r.model() == run_command_tool(),
    {
        proof {
            reveal(run_command_tool);
        }
        let properties = Json::table().with("command", kind_json("string")).with("cwd", kind_json("string"));
        let mut required: Vec<String> = Vec::new();
        required.push(copy_str("command"));
        assert(texts(required@) =~= seq!["command"@]);
        ToolSpec {
            name: copy_str("run_command"),
            description: copy_str("在工作区内执行 shell 命令（需审批，60 秒超时）"),
            input_schema: schema_json(properties, &required),
        }
    }
}

/// What is known of `explore`.
#[verifier::opaque]
pub open spec fn explore_tool() -> ToolModel {
    ToolModel {
        name: "explore"@,
        description: "把调查任务交给只读探索子代理（只能读/搜文件），返回其调查汇报"@,
        input_schema: object_schema(
            empty_table().insert("query"@, of_kind("string"@)),
            seq!["query"@],
        ),
    }
}

/// Hands an inquiry to an agent that may only read.
pub struct ExploreTool;

impl ExploreTool {
    /// What the model is told of the tool.
    pub fn spec(&self) -> (r: ToolSpec)
        ensures
            r.model() == explore_tool(),
    {
        proof {
            reveal(explore_tool);
        }
        let properties = Json::table().with("query", kind_json("string"));
        let mut required: Vec<String> = Vec::new();
        required.push(copy_str("query"));
        assert(texts(required@) =~= seq!["query"@]);
        ToolSpec {
            name: copy_str("explore"),
            description: copy_str("把调查任务交给只读探索子代理（只能读/搜文件），返回其调查汇报"),
            input_schema: schema_json(properties, &required),
        }
    }
}

/// What is known of `subagent`.
#[verifier::opaque]
pub open spec fn subagent_tool() -> ToolModel {
    ToolModel {
        name: "subagent"@,
        description: "把独立任务委派给通用子代理（完整工具、仍需审批），返回其汇报"@,
        input_schema: object_schema(
            empty_table().insert("task"@, of_kind("string"@)),
            seq!["task"@],
        ),
    }
}

/// Hands a task to another agent.
pub struct SubagentTool;

impl SubagentTool {
    /// What the model is told of the tool.
    pub fn spec(&self) -> (r: ToolSpec)
        ensures
            r.model() == subagent_tool(),
    {
        proof {
            reveal(subagent_tool);
        }
        let properties = Json::table().with("task", kind_json("string"));
        let mut required: Vec<String> = Vec::new();
        required.push(copy_str("task"));
        assert(texts(required@) =~= seq!["task"@]);
        ToolSpec {
            name: copy_str("subagent"),
            description: copy_str("把独立任务委派给通用子代理（完整工具、仍需审批），返回其汇报"),
            input_schema: schema_json(properties, &required),
        }
    }
}

/// What is known of `use_skill`.
#[verifier::opaque]
pub open spec fn use_skill_tool() -> ToolModel {
    ToolModel {
        name: "use_skill"@,
        description: "读取已加载技能（SKILL.md）的完整指令并按其流程执行；名称可通过 /skills 或技能清单查看"@,
        input_schema: object_schema(
            empty_table().insert("name"@, of_kind("string"@)).insert("task"@, of_kind("string"@)),
            seq!["name"@],
        ),
    }
}

/// Reads the instructions of a skill.
pub struct UseSkillTool;

impl UseSkillTool {
    /// What the model is told of the tool.
    pub fn spec(&self) -> (r: ToolSpec)
        ensures
            r.model() == use_skill_tool(),
    {
        proof {
            reveal(use_skill_tool);
        }
        let properties = Json::table().with("name", kind_json("string")).with("task", kind_json("string"));
        let mut required: Vec<String> = Vec::new();
        required.push(copy_str("name"));
        assert(texts(required@) =~= seq!["name"@]);
        ToolSpec {
            name: copy_str("use_skill"),
            description: copy_str("读取已加载技能（SKILL.md）的完整指令并按其流程执行；名称可通过 /skills 或技能清单查看"),
            input_schema: schema_json(properties, &required),
        }
    }
}

} // verus!

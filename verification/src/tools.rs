//! The tools that are offered to the model, and what the tools for files,
//! commands, skills and further agents make of their arguments.

use crate::computer_use::catalog::{
    browser_click_tool, browser_close_tool, browser_download_image_tool, browser_navigate_tool, browser_press_tool,
    browser_screenshot_tool, browser_search_tool, browser_snapshot_tool, browser_type_tool, desktop_activate_tool,
    desktop_click_tool, desktop_foreground_tool, desktop_key_tool, desktop_launch_tool, desktop_shortcut_tool,
    desktop_type_tool, desktop_wait_tool, desktop_window_list_tool, ocr_region_tool, screen_ocr_tool,
};
use crate::computer_use::catalog::{
    BrowserClickTool, BrowserCloseTool, BrowserDownloadImageWriteTool, BrowserNavigateTool, BrowserPressTool,
    BrowserScreenshotWriteTool, BrowserSearchTool, BrowserSnapshotTool, BrowserTypeTool, DesktopActivateTool,
    DesktopClickTool, DesktopForegroundTool, DesktopKeyTool, DesktopLaunchTool, DesktopShortcutTool, DesktopTypeTool,
    DesktopWaitTool, DesktopWindowListTool, OcrRegionTool, ScreenOcrTool,
};
use crate::gateway::empty_table;
use crate::json::{member, text_list, text_member, Json, JsonModel};
use crate::mcp::{McpTool, ToolModel};
use crate::permissions::{canonicalize_existing_parent, led_to};
use crate::skill::{Skill, SkillRegistry};
use crate::text::{
    chars_of, contains_text, copy_str, has_text, is_ascii_alnum, join, joined, lowercase, same_text, slashed, texts,
    to_slashes, unicode_lower,
};
use crate::tools::catalog::{
    explore_tool, list_dir_tool, read_file_tool, run_command_tool, search_files_tool, subagent_tool, use_skill_tool,
    write_file_tool,
};
use crate::tools::catalog::{
    ExploreTool, ListDirTool, ReadFileTool, RunCommandTool, SearchFilesTool, SubagentTool, UseSkillTool, WriteFileTool,
};
use vstd::prelude::*;
use vstd::utf8::encode_utf8;

pub mod catalog;

verus! {

/// A tool as it is offered to the model.
pub struct ToolSpec {
    pub name: String,
    pub description: String,
    pub input_schema: Json,
}

impl ToolSpec {
    /// What is known of the tool.
    pub open spec fn model(self) -> ToolModel {
        ToolModel { name: self.name@, description: self.description@, input_schema: self.input_schema.model() }
    }
}

impl Clone for ToolSpec {
    fn clone(&self) -> (r: ToolSpec)
        ensures
            r.model() == self.model(),
    {
        ToolSpec {
            name: self.name.clone(),
            description: self.description.clone(),
            input_schema: self.input_schema.clone(),
        }
    }
}

pub open spec fn spec_models(v: Seq<ToolSpec>) -> Seq<ToolModel> {
    v.map_values(|t: ToolSpec| t.model())
}

// ---------------------------------------------------------------------------
// Schemas
// ---------------------------------------------------------------------------

/// An argument of a kind.
pub open spec fn of_kind(kind: Seq<char>) -> JsonModel {
    JsonModel::Table(empty_table().insert("type"@, JsonModel::Text(kind)))
}

/// An argument of a kind, with a description.
pub open spec fn described(kind: Seq<char>, description: Seq<char>) -> JsonModel {
    JsonModel::Table(
        empty_table().insert("type"@, JsonModel::Text(kind)).insert("description"@, JsonModel::Text(description)),
    )
}

/// An argument that is one of the choices.
pub open spec fn one_of(kind: Seq<char>, choices: Seq<Seq<char>>) -> JsonModel {
    JsonModel::Table(empty_table().insert("type"@, JsonModel::Text(kind)).insert("enum"@, text_list(choices)))
}

/// The arguments of a tool, with the ones that must be there.
pub open spec fn object_schema(properties: Map<Seq<char>, JsonModel>, required: Seq<Seq<char>>) -> JsonModel {
    let head = empty_table().insert("type"@, JsonModel::Text("object"@)).insert(
        "properties"@,
        JsonModel::Table(properties),
    );
    if required.len() == 0 {
        JsonModel::Table(head)
    } else {
        JsonModel::Table(head.insert("required"@, text_list(required)))
    }
}

/// An argument of a kind.
pub fn kind_json(kind: &str) -> (r: Json)
    ensures
        r.model() == of_kind(kind@),
{
    Json::table().with("type", Json::text(kind))
}

/// An argument of a kind, with a description.
pub fn described_json(kind: &str, description: &str) -> (r: Json)
    ensures
        r.model() == described(kind@, description@),
{
    Json::table().with("type", Json::text(kind)).with("description", Json::text(description))
}

/// An argument that is one of the choices.
pub fn choice_json(kind: &str, choices: &Vec<String>) -> (r: Json)
    ensures
        r.model() == one_of(kind@, texts(choices@)),
{
    Json::table().with("type", Json::text(kind)).with("enum", Json::texts(choices))
}

/// The arguments of a tool, with the ones that must be there.
pub fn schema_json(properties: Json, required: &Vec<String>) -> (r: Json)
    requires
        properties is Table,
    ensures
        r.model() == object_schema(properties.model()->Table_0, texts(required@)),
{
    let head = Json::table().with("type", Json::text("object")).with("properties", properties);
    if required.len() == 0 {
        head
    } else {
        head.with("required", Json::texts(required))
    }
}

// ---------------------------------------------------------------------------
// The registry
// ---------------------------------------------------------------------------

/// The tools of an agent.
#[verifier::opaque]
pub open spec fn standard_tools() -> Seq<ToolModel> {
    seq![
        read_file_tool(),
        write_file_tool(),
        list_dir_tool(),
        search_files_tool(),
        run_command_tool(),
        explore_tool(),
        subagent_tool(),
        use_skill_tool(),
        screen_ocr_tool(),
        ocr_region_tool(),
        desktop_foreground_tool(),
        desktop_window_list_tool(),
        desktop_activate_tool(),
        desktop_click_tool(),
        desktop_type_tool(),
        desktop_key_tool(),
        desktop_shortcut_tool(),
        desktop_launch_tool(),
        desktop_wait_tool(),
        browser_navigate_tool(),
        browser_search_tool(),
        browser_snapshot_tool(),
        browser_click_tool(),
        browser_type_tool(),
        browser_press_tool(),
        browser_screenshot_tool(),
        browser_download_image_tool(),
        browser_close_tool(),
    ]
}

/// The tools of an agent that may only read.
pub open spec fn reading_tools() -> Seq<ToolModel> {
    seq![read_file_tool(), list_dir_tool(), search_files_tool()]
}

/// The tools that an agent has, in the order in which they are offered.
pub struct ToolRegistry {
    pub tools: Vec<ToolSpec>,
}

/// The first tool with the name, from `i` on.
pub open spec fn first_tool(v: Seq<ToolModel>, name: Seq<char>, i: int) -> int
    decreases v.len() - i,
{
    if i >= v.len() {
        -1
    } else if v[i].name == name {
        i
    } else {
        first_tool(v, name, i + 1)
    }
}

impl View for ToolRegistry {
    type V = Seq<ToolModel>;

    open spec fn view(&self) -> Seq<ToolModel> {
        spec_models(self.tools@)
    }
}

impl ToolRegistry {
    /// Adds a tool at the end.
    pub fn register(&mut self, tool: ToolSpec)
        ensures
            final(self)@ == old(self)@.push(tool.model()),
    {
        let ghost m = tool.model();
        self.tools.push(tool);
        assert(self@ =~= old(self)@.push(m));
    }

    fn empty() -> (r: ToolRegistry)
        ensures
            r@ == Seq::<ToolModel>::empty(),
    {
        let r = ToolRegistry { tools: Vec::new() };
        assert(r@ =~= Seq::<ToolModel>::empty());
        r
    }

    /// The tools of an agent.
    pub fn new() -> (r: ToolRegistry)
        ensures
            r@ == standard_tools(),
    {
        let mut registry = ToolRegistry::empty();
        registry.register(ReadFileTool.spec());
        registry.register(WriteFileTool.spec());
        registry.register(ListDirTool.spec());
        registry.register(SearchFilesTool.spec());
        registry.register(RunCommandTool.spec());
        registry.register(ExploreTool.spec());
        registry.register(SubagentTool.spec());
        registry.register(UseSkillTool.spec());
        registry.register(ScreenOcrTool.spec());
        registry.register(OcrRegionTool.spec());
        registry.register(DesktopForegroundTool.spec());
        registry.register(DesktopWindowListTool.spec());
        registry.register(DesktopActivateTool.spec());
        registry.register(DesktopClickTool.spec());
        registry.register(DesktopTypeTool.spec());
        registry.register(DesktopKeyTool.spec());
        registry.register(DesktopShortcutTool.spec());
        registry.register(DesktopLaunchTool.spec());
        registry.register(DesktopWaitTool.spec());
        registry.register(BrowserNavigateTool.spec());
        registry.register(BrowserSearchTool.spec());
        registry.register(BrowserSnapshotTool.spec());
        registry.register(BrowserClickTool.spec());
        registry.register(BrowserTypeTool.spec());
        registry.register(BrowserPressTool.spec());
        registry.register(BrowserScreenshotWriteTool.spec());
        registry.register(BrowserDownloadImageWriteTool.spec());
        registry.register(BrowserCloseTool.spec());
        proof {
            reveal(standard_tools);
            assert(registry@ =~= standard_tools());
        }
        registry
    }

    /// The tools of an agent that may only read: none that writes, runs or hands
    /// on.
    pub fn read_only() -> (r: ToolRegistry)
        ensures
            r@ == reading_tools(),
    {
        let mut registry = ToolRegistry::empty();
        registry.register(ReadFileTool.spec());
        registry.register(ListDirTool.spec());
        registry.register(SearchFilesTool.spec());
        assert(registry@ =~= reading_tools());
        registry
    }

    /// What the model is told of the tools.
    pub fn specs(&self) -> (r: Vec<ToolSpec>)
        ensures
            spec_models(r@) == self@,
    {
        let mut r: Vec<ToolSpec> = Vec::new();
        for i in 0..self.tools.len()
            invariant
                r@.len() == i,
                forall|j: int| 0 <= j < i ==> (#[trigger] r@[j]).model() == self.tools@[j].model(),
        {
            r.push(self.tools[i].clone());
        }
        assert(spec_models(r@) =~= self@);
        r
    }

    /// The tool that a call names: the first of that name.
    pub fn execute(&self, name: &str) -> (r: Result<usize, String>)
        ensures
            match r {
                Ok(i) => first_tool(self@, name@, 0) == i && i < self@.len() && self@[i as int].name == name@,
                Err(e) => first_tool(self@, name@, 0) == -1 && e@ == "未知工具："@ + name@,
            },
    {
        let mut i: usize = 0;
        while i < self.tools.len()
            invariant
                i <= self.tools@.len(),
                first_tool(self@, name@, 0) == first_tool(self@, name@, i as int),
            decreases self.tools@.len() - i,
        {
            if same_text(self.tools[i].name.as_str(), name) {
                return Ok(i);
            }
            i += 1;
        }
        let mut e = copy_str("未知工具：");
        e.append(name);
        Err(e)
    }

    /// Adds the tools of a server, each under a name made of the server's name and
    /// its own.
    pub fn register_mcp_tools(&mut self, server_name: &str, tools: &Vec<McpTool>) -> (r: Vec<McpToolAdapter>)
        ensures
            final(self)@ == old(self)@ + adapted(server_name@, crate::mcp::tool_models(tools@)),
            r@.len() == tools@.len(),
            forall|i: int|
                0 <= i < r@.len() ==> (#[trigger] r@[i]).full_name@ == full_tool_name(
                    server_name@,
                    tools@[i].name@,
                ) && r@[i].server_name@ == server_name@ && r@[i].tool_name == tools@[i].name,
    {
        let mut adapters: Vec<McpToolAdapter> = Vec::new();
        let ghost all = adapted(server_name@, crate::mcp::tool_models(tools@));
        assert(self@ =~= old(self)@ + all.take(0));
        for i in 0..tools.len()
            invariant
                all == adapted(server_name@, crate::mcp::tool_models(tools@)),
                self@ == old(self)@ + all.take(i as int),
                adapters@.len() == i,
                forall|j: int|
                    0 <= j < i ==> (#[trigger] adapters@[j]).full_name@ == full_tool_name(
                        server_name@,
                        tools@[j].name@,
                    ) && adapters@[j].server_name@ == server_name@ && adapters@[j].tool_name == tools@[j].name,
        {
            let tool = &tools[i];
            let mut full = sanitize_tool_name(server_name);
            full.append("_");
            full.append(sanitize_tool_name(tool.name.as_str()).as_str());
            let spec = ToolSpec {
                name: full.clone(),
                description: tool.description.clone(),
                input_schema: tool.input_schema.clone(),
            };
            assert(spec.model() == all[i as int]);
            self.register(spec);
            assert(self@ =~= old(self)@ + all.take(i + 1));
            adapters.push(
                McpToolAdapter {
                    full_name: full,
                    server_name: copy_str(server_name),
                    tool_name: tool.name.clone(),
                },
            );
        }
        assert(all.take(all.len() as int) =~= all);
        adapters
    }
}

/// A tool of a server among the tools of an agent.
pub struct McpToolAdapter {
    pub full_name: String,
    pub server_name: String,
    pub tool_name: String,
}

impl McpToolAdapter {
    /// What a call that failed is answered.
    pub fn failure(&self, error: &str) -> (r: String)
        ensures
            r@ == "MCP 工具 "@ + self.server_name@ + ":"@ + self.tool_name@ + " 失败："@ + error@,
    {
        let mut e = copy_str("MCP 工具 ");
        e.append(self.server_name.as_str());
        e.append(":");
        e.append(self.tool_name.as_str());
        e.append(" 失败：");
        e.append(error);
        e
    }
}

/// A character that may stand in the name of a tool.
pub open spec fn is_tool_char(c: char) -> bool {
    is_ascii_alnum(c) || c == '_' || c == '-'
}

/// A name with every other character replaced.
pub open spec fn tool_name(s: Seq<char>) -> Seq<char> {
    s.map_values(
        |c: char|
            if is_tool_char(c) {
                c
            } else {
                '_'
            },
    )
}

/// The name of a server's tool.
pub open spec fn full_tool_name(server: Seq<char>, tool: Seq<char>) -> Seq<char> {
    tool_name(server) + "_"@ + tool_name(tool)
}

/// The tools of a server as they are offered.
pub open spec fn adapted(server: Seq<char>, v: Seq<ToolModel>) -> Seq<ToolModel> {
    v.map_values(|t: ToolModel| ToolModel { name: full_tool_name(server, t.name), ..t })
}

/// A name that the model can be told: letters, digits, underscores and hyphens.
pub fn sanitize_tool_name(name: &str) -> (r: String)
    ensures
        r@ == tool_name(name@),
{
    let v = chars_of(name);
    let mut r = String::new();
    for i in 0..v.len()
        invariant
            v@ == name@,
            r@ == tool_name(name@.take(i as int)),
    {
        let c: char = v[i];
        let keep = ('0' <= c && c <= '9') || ('a' <= c && c <= 'z') || ('A' <= c && c <= 'Z') || c == '_' || c == '-';
        let d: char = if keep {
            c
        } else {
            '_'
        };
        r.push(d);
        assert(tool_name(name@.take(i + 1)) =~= tool_name(name@.take(i as int)).push(d));
    }
    assert(name@.take(name@.len() as int) =~= name@);
    r
}

/// The name of a server's tool holds nothing that the model cannot be told.
pub proof fn full_tool_name_is_plain(server: Seq<char>, tool: Seq<char>, i: int)
    requires
        0 <= i < full_tool_name(server, tool).len(),
    ensures
        is_tool_char(full_tool_name(server, tool)[i]),
{
    reveal_strlit("_");
}

/// An agent that may only read has no tool that needs more.
pub proof fn reading_tools_only_read(i: int)
    requires
        0 <= i < reading_tools().len(),
    ensures
        crate::permissions::level_of(reading_tools()[i].name) is Read,
{
    reveal(read_file_tool);
    reveal(list_dir_tool);
    reveal(search_files_tool);
}

// ---------------------------------------------------------------------------
// Arguments and results
// ---------------------------------------------------------------------------

/// The text under `key` in the arguments.
pub fn required_string(args: &Json, key: &str) -> (r: Result<String, String>)
    ensures
        match r {
            Ok(t) => text_member(args.model(), key@) == Some(t@),
            Err(e) => text_member(args.model(), key@) is None && e@ == "参数缺少字符串字段："@ + key@,
        },
{
    match args.text_at(key) {
        Some(t) => Ok(t.clone()),
        None => {
            let mut e = copy_str("参数缺少字符串字段：");
            e.append(key);
            Err(e)
        },
    }
}

/// The text under `key` in the arguments, or another where it is missing.
pub open spec fn text_arg_or(args: JsonModel, key: Seq<char>, otherwise: Seq<char>) -> Seq<char> {
    match text_member(args, key) {
        Some(t) => t,
        None => otherwise,
    }
}

/// The text under `key` in the arguments, or another where it is missing.
pub fn optional_string(args: &Json, key: &str, otherwise: &str) -> (r: String)
    ensures
        r@ == text_arg_or(args.model(), key@, otherwise@),
{
    match args.text_at(key) {
        Some(t) => t.clone(),
        None => copy_str(otherwise),
    }
}

/// The key under which what a file held is kept.
pub fn snapshot_key(path: &str) -> (r: String)
    ensures
        r@ == slashed(path@),
{
    to_slashes(path)
}

/// What the file system says of a path of a session. A path is given by the
/// names on it.
pub struct SessionPath {
    /// The path below the workspace of the session, as a text and by its names; or
    /// why the workspace cannot be reached.
    pub candidate: Result<(String, Vec<String>), String>,
    /// The workspace of the policy, by the names on it.
    pub policy_workspace: Vec<String>,
}

/// The names begin with those of the workspace.
pub open spec fn lies_in(workspace: Seq<Seq<char>>, path: Seq<Seq<char>>) -> bool {
    workspace.len() <= path.len() && path.take(workspace.len() as int) == workspace
}

/// The path that a tool works on: below the workspace of the session, and, where
/// the `..` on it have led, in that of the policy.
pub fn resolve_session_path(path: &str, facts: &SessionPath) -> (r: Result<String, String>)
    ensures
        match facts.candidate {
            Err(e) => r matches Err(m) && m@ == "工作区不可访问："@ + e@,
            Ok(c) => if lies_in(texts(facts.policy_workspace@), led_to(seq![], texts(c.1@))) {
                r == Ok::<String, String>(c.0)
            } else {
                r matches Err(m) && m@ == "路径越界："@ + path@
            },
        },
{
    match &facts.candidate {
        Err(e) => {
            let mut m = copy_str("工作区不可访问：");
            m.append(e.as_str());
            Err(m)
        },
        Ok(c) => {
            let w = &facts.policy_workspace;
            let root: Vec<String> = Vec::new();
            let full = canonicalize_existing_parent(&root, &c.1);
            assert(texts(root@) =~= seq![]);
            let mut inside = w.len() <= full.len();
            if inside {
                for i in 0..w.len()
                    invariant
                        w@.len() <= full@.len(),
                        inside <==> forall|j: int| 0 <= j < i ==> (#[trigger] w@[j])@ == full@[j]@,
                {
                    if !same_text(w[i].as_str(), full[i].as_str()) {
                        inside = false;
                    }
                }
                proof {
                    let a = texts(w@);
                    let b = texts(full@);
                    if inside {
                        assert(b.take(a.len() as int) =~= a);
                    }
                    if b.take(a.len() as int) == a {
                        assert forall|j: int| 0 <= j < w@.len() implies (#[trigger] w@[j])@ == full@[j]@ by {
                            assert(b.take(a.len() as int)[j] == a[j]);
                        }
                    }
                }
            }
            if inside {
                Ok(c.0.clone())
            } else {
                let mut m = copy_str("路径越界：");
                m.append(path);
                Err(m)
            }
        },
    }
}

/// The bytes of a text.
pub fn byte_count(s: &str) -> (r: u64)
    ensures
        r == encode_utf8(s@).len(),
{
    s.as_bytes().len() as u64
}

/// What the reading of a file answers.
pub fn read_file_result(path: &str, content: &str) -> (r: Json)
    ensures
        r.model() == JsonModel::Table(
            empty_table().insert("path"@, JsonModel::Text(path@)).insert("content"@, JsonModel::Text(content@)).insert(
                "bytes"@,
                JsonModel::Int(encode_utf8(content@).len() as int),
            ),
        ),
{
    Json::table().with("path", Json::text(path)).with("content", Json::text(content)).with(
        "bytes",
        Json::UInt(byte_count(content)),
    )
}

/// What the writing of a file answers.
pub fn write_file_result(path: &str, content: &str) -> (r: Json)
    ensures
        r.model() == JsonModel::Table(
            empty_table().insert("path"@, JsonModel::Text(path@)).insert("written"@, JsonModel::Bool(true)).insert(
                "bytes"@,
                JsonModel::Int(encode_utf8(content@).len() as int),
            ),
        ),
{
    Json::table().with("path", Json::text(path)).with("written", Json::Bool(true)).with(
        "bytes",
        Json::UInt(byte_count(content)),
    )
}

/// An entry of a directory.
pub struct DirEntry {
    pub name: String,
    pub is_dir: bool,
}

/// An entry of a directory as it is answered.
pub open spec fn entry_model(e: DirEntry) -> JsonModel {
    JsonModel::Table(
        empty_table().insert("name"@, JsonModel::Text(e.name@)).insert("is_dir"@, JsonModel::Bool(e.is_dir)),
    )
}

/// What the listing of a directory answers.
pub fn list_dir_result(path: &str, entries: &Vec<DirEntry>) -> (r: Json)
    ensures
        r.model() == JsonModel::Table(
            empty_table().insert("path"@, JsonModel::Text(path@)).insert(
                "entries"@,
                JsonModel::List(entries@.map_values(|e: DirEntry| entry_model(e))),
            ),
        ),
{
    let mut list: Vec<Json> = Vec::new();
    for i in 0..entries.len()
        invariant
            list@.len() == i,
            forall|j: int| 0 <= j < i ==> (#[trigger] list@[j]).model() == entry_model(entries@[j]),
    {
        list.push(
            Json::table().with("name", Json::text(entries[i].name.as_str())).with(
                "is_dir",
                Json::Bool(entries[i].is_dir),
            ),
        );
    }
    proof {
        crate::json::list_model_elements(list@);
        assert(crate::json::list_model(list@) =~= entries@.map_values(|e: DirEntry| entry_model(e)));
    }
    Json::table().with("path", Json::text(path)).with("entries", Json::List(list))
}

/// The deepest directory that is searched.
pub const SEARCH_DEPTH: usize = 8;

/// The most files that a search finds.
pub const SEARCH_LIMIT: usize = 200;

/// A search for files by a part of their name.
pub struct FileSearch {
    /// In lower case.
    pub pattern: String,
    pub matches: Vec<String>,
}

impl FileSearch {
    /// A search that has found nothing yet.
    pub fn new(pattern: &str) -> (r: FileSearch)
        ensures
            r.pattern@ == unicode_lower(pattern@),
            r.matches@.len() == 0,
    {
        FileSearch { pattern: lowercase(pattern), matches: Vec::new() }
    }

    /// Whether a directory this far down is looked into.
    pub fn enters(&self, depth: usize) -> (r: bool)
        ensures
            r == (depth <= SEARCH_DEPTH && self.matches@.len() < SEARCH_LIMIT),
    {
        !(depth > SEARCH_DEPTH || self.matches.len() >= SEARCH_LIMIT)
    }

    /// Whether the search has found enough.
    pub fn is_full(&self) -> (r: bool)
        ensures
            r == (self.matches@.len() >= SEARCH_LIMIT),
    {
        self.matches.len() >= SEARCH_LIMIT
    }

    /// Looks at a file: where the pattern stands in its name in lower case, its path
    /// is found.
    pub fn visit_file(&mut self, name: &str, path: &str)
        ensures
            final(self).pattern == old(self).pattern,
            texts(final(self).matches@) == (if has_text(unicode_lower(name@), old(self).pattern@) {
                texts(old(self).matches@).push(slashed(path@))
            } else {
                texts(old(self).matches@)
            }),
            old(self).matches@.len() < SEARCH_LIMIT ==> final(self).matches@.len() <= SEARCH_LIMIT,
    {
        let lower = lowercase(name);
        if contains_text(lower.as_str(), self.pattern.as_str()) {
            self.matches.push(to_slashes(path));
            assert(texts(self.matches@) =~= texts(old(self).matches@).push(slashed(path@)));
        }
    }

    /// What the search answers.
    pub fn result(&self) -> (r: Json)
        ensures
            r.model() == JsonModel::Table(
                empty_table().insert("pattern"@, JsonModel::Text(self.pattern@)).insert(
                    "matches"@,
                    text_list(texts(self.matches@)),
                ),
            ),
    {
        Json::table().with("pattern", Json::text(self.pattern.as_str())).with("matches", Json::texts(&self.matches))
    }
}

/// What a command answers that has ended; one that was killed has no code.
pub fn run_command_result(command: &str, code: Option<i32>, stdout: &str, stderr: &str) -> (r: Json)
    ensures
        r.model() == JsonModel::Table(
            empty_table().insert("command"@, JsonModel::Text(command@)).insert(
                "exit_code"@,
                match code {
                    Some(c) => JsonModel::Int(c as int),
                    None => JsonModel::Null,
                },
            ).insert("stdout"@, JsonModel::Text(stdout@)).insert("stderr"@, JsonModel::Text(stderr@)),
        ),
{
    let exit = match code {
        Some(c) => Json::Int(c as i64),
        None => Json::Null,
    };
    Json::table().with("command", Json::text(command)).with("exit_code", exit).with("stdout", Json::text(stdout)).with(
        "stderr",
        Json::text(stderr),
    )
}

/// What an agent that was handed something answers.
pub fn handed_on_result(read_only: bool, text: &str) -> (r: Json)
    ensures
        r.model() == JsonModel::Table(
            empty_table().insert(
                "mode"@,
                JsonModel::Text(
                    if read_only {
                        "explore"@
                    } else {
                        "general"@
                    },
                ),
            ).insert("text"@, JsonModel::Text(text@)),
        ),
{
    let mode = if read_only {
        "explore"
    } else {
        "general"
    };
    Json::table().with("mode", Json::text(mode)).with("text", Json::text(text))
}

/// The names of skills.
pub open spec fn skill_names(v: Seq<Skill>) -> Seq<Seq<char>> {
    v.map_values(|s: Skill| s.name@)
}

/// What the use of a skill answers: its instructions; or, where there is none of
/// that name, the names of those that are there.
pub fn use_skill(skills: &SkillRegistry, args: &Json) -> (r: Result<Json, String>)
    ensures
        match text_member(args.model(), "name"@) {
            None => r matches Err(e) && e@ == "参数缺少字符串字段：name"@,
            Some(name) => {
                let at = crate::skill::first_named(skills.skills@, name, 0);
                if at == -1 {
                    r matches Err(e) && e@ == "未找到技能或技能已禁用："@ + name + "；可用技能："@ + joined(
                        skill_names(skills.skills@),
                        ", "@,
                    )
                } else {
                    let s = skills.skills@[at];
                    r matches Ok(j) && j.model() == JsonModel::Table(
                        empty_table().insert("skill"@, JsonModel::Text(s.name@)).insert(
                            "description"@,
                            JsonModel::Text(s.description@),
                        ).insert("task"@, JsonModel::Text(text_arg_or(args.model(), "task"@, Seq::<char>::empty()))).insert(
                            "instructions"@,
                            JsonModel::Text(s.instructions@),
                        ),
                    )
                }
            },
        },
{
    let name = match args.text_at("name") {
        Some(n) => n,
        None => {
            return Err(copy_str("参数缺少字符串字段：name"));
        },
    };
    match skills.get(name.as_str()) {
        Some(s) => {
            let task = match args.text_at("task") {
                Some(t) => t.clone(),
                None => String::new(),
            };
            assert(task@ =~= text_arg_or(args.model(), "task"@, Seq::<char>::empty()));
            Ok(
                Json::table().with("skill", Json::text(s.name.as_str())).with(
                    "description",
                    Json::text(s.description.as_str()),
                ).with("task", Json::Text(task)).with("instructions", Json::text(s.instructions.as_str())),
            )
        },
        None => {
            let listed = skills.list();
            let mut names: Vec<String> = Vec::new();
            for i in 0..listed.len()
                invariant
                    *listed == skills.skills,
                    names@.len() == i,
                    forall|j: int| 0 <= j < i ==> (#[trigger] names@[j])@ == listed@[j].name@,
            {
                names.push(listed[i].name.clone());
            }
            assert(texts(names@) =~= skill_names(skills.skills@));
            let mut e = copy_str("未找到技能或技能已禁用：");
            e.append(name.as_str());
            e.append("；可用技能：");
            e.append(join(&names, ", ").as_str());
            Err(e)
        },
    }
}

proof fn schema_words_differ()
    ensures
        "type"@ != "description"@ && "type"@ != "enum"@ && "type"@ != "properties"@ && "type"@ != "required"@,
        "properties"@ != "required"@,
        "name"@ != "is_dir"@,
{
    reveal_strlit("type");
    reveal_strlit("description");
    reveal_strlit("enum");
    reveal_strlit("properties");
    reveal_strlit("required");
    reveal_strlit("name");
    reveal_strlit("is_dir");
    assert("type"@[0] == 't' && "description"@[0] == 'd' && "enum"@[0] == 'e' && "properties"@[0] == 'p' && "required"@[0]
        == 'r' && "name"@[0] == 'n' && "is_dir"@[0] == 'i');
}

/// What a tool takes is an object: its properties are those that were given, and those
/// that must be there are named where there are any.
pub proof fn schemas_say_what_is_taken(
    properties: Map<Seq<char>, JsonModel>,
    required: Seq<Seq<char>>,
    kind: Seq<char>,
    words: Seq<char>,
    choices: Seq<Seq<char>>,
)
    ensures
        member(object_schema(properties, required), "type"@) == Some(JsonModel::Text("object"@)),
        member(object_schema(properties, required), "properties"@) == Some(JsonModel::Table(properties)),
        required.len() > 0 ==> (member(object_schema(properties, required), "required"@) matches Some(JsonModel::List(l))
            && l.len() == required.len() && forall|i: int|
            0 <= i < l.len() ==> #[trigger] l[i] == JsonModel::Text(required[i])),
        required.len() == 0 ==> member(object_schema(properties, required), "required"@) is None,
        member(of_kind(kind), "type"@) == Some(JsonModel::Text(kind)),
        member(described(kind, words), "type"@) == Some(JsonModel::Text(kind)),
        member(described(kind, words), "description"@) == Some(JsonModel::Text(words)),
        member(one_of(kind, choices), "enum"@) == Some(text_list(choices)),
{
    schema_words_differ();
}

/// A tool is found by its name, the first that has it; a name that no tool has finds
/// none.
pub proof fn tools_are_found_by_name(v: Seq<ToolModel>, name: Seq<char>)
    ensures
        first_tool(v, name, 0) >= 0 ==> first_tool(v, name, 0) < v.len() && v[first_tool(v, name, 0)].name == name
            && forall|j: int| 0 <= j < first_tool(v, name, 0) ==> (#[trigger] v[j]).name != name,
        first_tool(v, name, 0) < 0 <==> forall|j: int| 0 <= j < v.len() ==> (#[trigger] v[j]).name != name,
{
    found_from(v, name, 0);
}

proof fn found_from(v: Seq<ToolModel>, name: Seq<char>, i: int)
    requires
        0 <= i,
    ensures
        first_tool(v, name, i) >= 0 ==> i <= first_tool(v, name, i) < v.len() && v[first_tool(v, name, i)].name == name
            && forall|j: int| i <= j < first_tool(v, name, i) ==> (#[trigger] v[j]).name != name,
        first_tool(v, name, i) < 0 <==> forall|j: int| i <= j < v.len() ==> (#[trigger] v[j]).name != name,
    decreases v.len() - i,
{
    if i < v.len() && v[i].name != name {
        found_from(v, name, i + 1);
    }
}

/// The tool of a server is offered under the name of the server and its own, with an
/// underscore between them and for every character that may not stand there; else it
/// is what the server says it is.
pub proof fn server_tools_keep_what_they_are(server: Seq<char>, v: Seq<ToolModel>, i: int, k: int)
    requires
        0 <= i < v.len(),
    ensures
        adapted(server, v).len() == v.len(),
        adapted(server, v)[i].description == v[i].description && adapted(server, v)[i].input_schema == v[i].input_schema,
        ({
            let name = adapted(server, v)[i].name;
            &&& name.len() == server.len() + 1 + v[i].name.len()
            &&& name[server.len() as int] == '_'
            &&& 0 <= k < server.len() && is_tool_char(server[k]) ==> name[k] == server[k]
            &&& 0 <= k < server.len() && !is_tool_char(server[k]) ==> name[k] == '_'
            &&& 0 <= k < v[i].name.len() && is_tool_char(v[i].name[k]) ==> name[server.len() + 1 + k] == v[i].name[k]
            &&& 0 <= k < v[i].name.len() && !is_tool_char(v[i].name[k]) ==> name[server.len() + 1 + k] == '_'
        }),
{
    reveal_strlit("_");
}

/// Letters and digits of ASCII, underscores and hyphens may stand in the name of a
/// tool, and nothing else.
pub proof fn tool_names_are_plain(c: char)
    ensures
        is_tool_char(c) <==> ('0' <= c <= '9' || 'a' <= c <= 'z' || 'A' <= c <= 'Z' || c == '_' || c == '-'),
{
}

/// A path lies in a workspace if it goes through every name on it, from the top.
pub proof fn paths_lie_below(workspace: Seq<Seq<char>>, rest: Seq<Seq<char>>, path: Seq<Seq<char>>, i: int)
    ensures
        lies_in(workspace, workspace + rest),
        lies_in(workspace, path) && 0 <= i < workspace.len() ==> i < path.len() && path[i] == workspace[i],
        path.len() < workspace.len() ==> !lies_in(workspace, path),
{
    assert((workspace + rest).take(workspace.len() as int) =~= workspace);
    if lies_in(workspace, path) && 0 <= i < workspace.len() {
        assert(path.take(workspace.len() as int)[i] == path[i]);
    }
}

/// An argument is the text that was given, and the other text only where none was.
pub proof fn given_arguments_count(args: JsonModel, key: Seq<char>, t: Seq<char>, otherwise: Seq<char>)
    ensures
        member(args, key) == Some(JsonModel::Text(t)) ==> text_arg_or(args, key, otherwise) == t,
        member(args, key) is None ==> text_arg_or(args, key, otherwise) == otherwise,
{
}

/// An entry of a folder is told with its name and whether it is a folder.
pub proof fn entries_are_told_whole(e: DirEntry)
    ensures
        member(entry_model(e), "name"@) == Some(JsonModel::Text(e.name@)),
        member(entry_model(e), "is_dir"@) == Some(JsonModel::Bool(e.is_dir)),
{
    schema_words_differ();
}

} // verus!

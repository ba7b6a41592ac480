//! What a tool may do: the level that it needs, the reasons to refuse it and
//! the decision of the policy.

use crate::clock::{is_id, random_id};
use crate::json::{member, Json, JsonModel};
use crate::text::{
    begins_with, contains_any, copy_str, finishes_with, has_any, has_text, lowercase, parts_stand_in_the_whole, same_text,
    starts_with, texts, unicode_lower,
};
use vstd::prelude::*;

verus! {

/// What a tool does to the machine.
#[derive(Debug, Clone, Copy, PartialEq, Eq, Structural)]
pub enum Level {
    Read,
    Write,
    Execute,
    Inject,
}

impl Level {
    /// The name of the level.
    pub open spec fn label_of(self) -> Seq<char> {
        match self {
            Level::Read => "read"@,
            Level::Write => "write"@,
            Level::Execute => "execute"@,
            Level::Inject => "inject"@,
        }
    }

    /// The name of the level.
    pub fn label(&self) -> (r: &'static str)
        ensures
            r@ == self.label_of(),
    {
        match self {
            Level::Read => "read",
            Level::Write => "write",
            Level::Execute => "execute",
            Level::Inject => "inject",
        }
    }
}

/// The decision on a request.
#[derive(Debug, Clone, Copy, PartialEq, Eq, Structural)]
pub enum Decision {
    Allow,
    Deny,
    Ask,
}

/// A tool that wants to run.
pub struct PermissionRequest {
    pub request_id: String,
    pub tool: String,
    pub args: Json,
    pub level: Level,
    pub reason: String,
}

impl Clone for PermissionRequest {
    fn clone(&self) -> (r: PermissionRequest)
        ensures
            r.request_id == self.request_id,
            r.tool == self.tool,
            r.args.model() == self.args.model(),
            r.level == self.level,
            r.reason == self.reason,
    {
        PermissionRequest {
            request_id: self.request_id.clone(),
            tool: self.tool.clone(),
            args: self.args.clone(),
            level: self.level,
            reason: self.reason.clone(),
        }
    }
}

/// Decides every request alike.
pub struct AutoApprover {
    pub allow: bool,
}

impl AutoApprover {
    /// The decision on any request.
    pub fn decide(&self, request: &PermissionRequest) -> (r: Decision)
        ensures
            r == (if self.allow { Decision::Allow } else { Decision::Deny }),
    {
        if self.allow {
            Decision::Allow
        } else {
            Decision::Deny
        }
    }
}

/// The rules of a workspace.
pub struct Policy {
    pub workspace: String,
    pub deny_command_fragments: Vec<String>,
    pub read_only: bool,
}

/// The pieces of commands that are refused, in lower case.
pub open spec fn default_fragments() -> Seq<Seq<char>> {
    seq![
        "rm -rf"@,
        "sudo"@,
        "shutdown"@,
        "format c:"@,
        "rd /s"@,
        "remove-item -recurse"@,
        "del /s"@,
        "git push"@,
        "git reset --hard"@,
    ]
}

/// The level that a tool needs.
pub open spec fn level_of(tool: Seq<char>) -> Level {
    if tool == "read_file"@ || tool == "list_dir"@ || tool == "search_files"@ {
        Level::Read
    } else if tool == "write_file"@ {
        Level::Write
    } else if tool == "text.inject"@ || tool == "clipboard"@ {
        Level::Inject
    } else {
        Level::Execute
    }
}

/// The text of the member `key` of the arguments; nothing where there is none.
pub open spec fn text_arg(args: JsonModel, key: Seq<char>) -> Seq<char> {
    match args {
        JsonModel::Table(m) => if m.contains_key(key) {
            match m[key] {
                JsonModel::Text(s) => s,
                _ => Seq::empty(),
            }
        } else {
            Seq::empty()
        },
        _ => Seq::empty(),
    }
}

/// The text of the member `key` of the arguments; nothing where there is none.
pub fn text_argument(args: &Json, key: &str) -> (r: String)
    ensures
        r@ == text_arg(args.model(), key@),
{
    match args.get(key) {
        Some(v) => match v.as_text() {
            Some(s) => s.clone(),
            None => String::new(),
        },
        None => String::new(),
    }
}

impl Policy {
    /// Why a tool asks, or why it is refused. `path` says whether the path that a
    /// file tool names lies in the workspace.
    pub open spec fn reason_for(self, tool: Seq<char>, args: JsonModel, path: Result<String, String>) -> Seq<char> {
        if tool == "read_file"@ || tool == "write_file"@ {
            match path {
                Ok(_) => level_of(tool).label_of() + " 文件操作（工作区内）"@,
                Err(e) => "拒绝："@ + e@,
            }
        } else if tool == "list_dir"@ || tool == "search_files"@ {
            "目录/搜索操作"@
        } else if tool == "run_command"@ {
            let command = text_arg(args, "command"@);
            if has_any(unicode_lower(command), texts(self.deny_command_fragments@)) {
                "拒绝：命令命中危险模式"@
            } else {
                "执行命令："@ + command
            }
        } else {
            "工具 "@ + tool + " 需要审批"@
        }
    }

    /// The decision on a request with this level and reason.
    pub open spec fn decides(self, level: Level, reason: Seq<char>) -> Decision {
        if begins_with(reason, "拒绝"@) {
            Decision::Deny
        } else if self.read_only && !(level is Read) {
            Decision::Deny
        } else if level is Read {
            Decision::Allow
        } else {
            Decision::Ask
        }
    }

    /// The rules for a workspace in which everything may be asked for.
    pub fn new(workspace: &str) -> (r: Policy)
        ensures
            r.workspace@ == workspace@,
            texts(r.deny_command_fragments@) == default_fragments(),
            !r.read_only,
    {
        let mut f: Vec<String> = Vec::new();
        f.push(copy_str("rm -rf"));
        f.push(copy_str("sudo"));
        f.push(copy_str("shutdown"));
        f.push(copy_str("format c:"));
        f.push(copy_str("rd /s"));
        f.push(copy_str("remove-item -recurse"));
        f.push(copy_str("del /s"));
        f.push(copy_str("git push"));
        f.push(copy_str("git reset --hard"));
        assert(texts(f@) =~= default_fragments());
        Policy { workspace: copy_str(workspace), deny_command_fragments: f, read_only: false }
    }

    /// The rules for a workspace that may only be read.
    pub fn read_only(workspace: &str) -> (r: Policy)
        ensures
            r.workspace@ == workspace@,
            texts(r.deny_command_fragments@) == default_fragments(),
            r.read_only,
    {
        let mut policy = Policy::new(workspace);
        policy.read_only = true;
        policy
    }

    pub fn set_read_only(&mut self, read_only: bool)
        ensures
            *final(self) == (Policy { read_only, ..*old(self) }),
    {
        self.read_only = read_only;
    }

    pub fn is_read_only(&self) -> (r: bool)
        ensures
            r == self.read_only,
    {
        self.read_only
    }

    pub fn workspace(&self) -> (r: &str)
        ensures
            r@ == self.workspace@,
    {
        self.workspace.as_str()
    }

    /// The level that a tool needs.
    pub fn level_for(tool: &str) -> (r: Level)
        ensures
            r == level_of(tool@),
    {
        if same_text(tool, "read_file") || same_text(tool, "list_dir") || same_text(tool, "search_files") {
            Level::Read
        } else if same_text(tool, "write_file") {
            Level::Write
        } else if same_text(tool, "text.inject") || same_text(tool, "clipboard") {
            Level::Inject
        } else {
            Level::Execute
        }
    }

    /// The path that has to lie in the workspace for this tool to run.
    pub fn path_to_check(tool: &str, args: &Json) -> (r: Option<String>)
        ensures
            r is Some <==> tool@ == "read_file"@ || tool@ == "write_file"@,
            r matches Some(p) ==> p@ == text_arg(args.model(), "path"@),
    {
        if same_text(tool, "read_file") || same_text(tool, "write_file") {
            Some(text_argument(args, "path"))
        } else {
            None
        }
    }

    /// The request for a tool. `path` is the outcome of `resolve_within` for the
    /// path of `path_to_check`; for other tools it is not looked at.
    pub fn evaluate(&self, tool: &str, args: &Json, path: &Result<String, String>) -> (r: PermissionRequest)
        ensures
            r.tool@ == tool@,
            r.args.model() == args.model(),
            r.level == level_of(tool@),
            r.reason@ == self.reason_for(tool@, args.model(), *path),
            is_id(r.request_id@),
    {
        let level = Policy::level_for(tool);
        let reason = if same_text(tool, "read_file") || same_text(tool, "write_file") {
            match path {
                Ok(_) => {
                    let mut s = copy_str(level.label());
                    s.append(" 文件操作（工作区内）");
                    s
                },
                Err(e) => {
                    let mut s = copy_str("拒绝：");
                    s.append(e.as_str());
                    s
                },
            }
        } else if same_text(tool, "list_dir") || same_text(tool, "search_files") {
            copy_str("目录/搜索操作")
        } else if same_text(tool, "run_command") {
            let command = text_argument(args, "command");
            let lower = lowercase(command.as_str());
            if contains_any(lower.as_str(), &self.deny_command_fragments) {
                copy_str("拒绝：命令命中危险模式")
            } else {
                let mut s = copy_str("执行命令：");
                s.append(command.as_str());
                s
            }
        } else {
            let mut s = copy_str("工具 ");
            s.append(tool);
            s.append(" 需要审批");
            s
        };
        PermissionRequest { request_id: random_id(), tool: copy_str(tool), args: args.clone(), level, reason }
    }

    /// The decision on a request: a refusal comes first, then what may be read is
    /// allowed, and all else is asked for unless the workspace may only be read.
    pub fn decision(&self, request: &PermissionRequest) -> (r: Decision)
        ensures
            r == self.decides(request.level, request.reason@),
    {
        if starts_with(request.reason.as_str(), "拒绝") {
            return Decision::Deny;
        }
        if self.read_only && request.level != Level::Read {
            return Decision::Deny;
        }
        match request.level {
            Level::Read => Decision::Allow,
            Level::Write | Level::Execute | Level::Inject => Decision::Ask,
        }
    }

    /// Whether the path lies in the workspace of the policy.
    pub fn resolve_within_workspace(&self, path: &str, facts: &PathFacts) -> (r: Result<String, String>)
        ensures
            resolved(path@, *facts, r),
    {
        resolve_within(path, facts)
    }
}

// ---------------------------------------------------------------------------
// Paths
// ---------------------------------------------------------------------------

/// What the file system says of a path. A path is given by the names on it.
pub struct PathFacts {
    /// The path, taken from the workspace where it is relative.
    pub candidate: String,
    /// The workspace without links.
    pub workspace: Result<Vec<String>, String>,
    /// The part of the candidate that exists, without links, and the names on the
    /// part that does not.
    pub existing: Result<(Vec<String>, Vec<String>), String>,
}

/// The path that the names `steps` lead to from `base`: a name leads down, and
/// `..` takes back the last name there is.
pub open spec fn led_to(base: Seq<Seq<char>>, steps: Seq<Seq<char>>) -> Seq<Seq<char>>
    decreases steps.len(),
{
    if steps.len() == 0 {
        base
    } else {
        let before = led_to(base, steps.drop_last());
        if steps.last() != ".."@ {
            before.push(steps.last())
        } else if before.len() == 0 {
            before
        } else {
            before.drop_last()
        }
    }
}

/// The path without links of a file that may not exist yet: where the names on
/// the part that does not exist lead to from the part that does.
pub fn canonicalize_existing_parent(base: &Vec<String>, missing: &Vec<String>) -> (r: Vec<String>)
    ensures
        texts(r@) == led_to(texts(base@), texts(missing@)),
{
    let mut r = crate::text::copy_strings(base);
    let ghost from = texts(base@);
    let ghost all = texts(missing@);
    assert(texts(r@) =~= led_to(from, all.take(0)));
    for i in 0..missing.len()
        invariant
            all == texts(missing@),
            texts(r@) == led_to(from, all.take(i as int)),
    {
        let ghost r0 = texts(r@);
        assert(all[i as int] == missing@[i as int]@);
        assert(all.take(i + 1).drop_last() =~= all.take(i as int));
        assert(all.take(i + 1).last() == all[i as int]);
        if !same_text(missing[i].as_str(), "..") {
            r.push(missing[i].clone());
            assert(texts(r@) =~= r0.push(all[i as int]));
        } else if r.len() > 0 {
            assert(r0.len() > 0);
            r.pop();
            assert(texts(r@) =~= r0.drop_last());
        } else {
            assert(r0.len() == 0);
        }
    }
    assert(all.take(all.len() as int) =~= all);
    r
}

/// The outcome of the check of a path.
pub open spec fn resolved(path: Seq<char>, facts: PathFacts, r: Result<String, String>) -> bool {
    match facts.workspace {
        Err(e) => r matches Err(s) && s@ == "工作区不可访问："@ + e@,
        Ok(w) => match facts.existing {
            Err(e) => r matches Err(s) && s@ == "路径校验失败："@ + e@,
            Ok((base, missing)) => if texts(w@).is_prefix_of(led_to(texts(base@), texts(missing@))) {
                r matches Ok(p) && p@ == facts.candidate@
            } else {
                r matches Err(s) && s@ == "路径位于工作区之外："@ + path
            },
        },
    }
}

fn is_prefix(a: &Vec<String>, b: &Vec<String>) -> (r: bool)
    ensures
        r == texts(a@).is_prefix_of(texts(b@)),
{
    if a.len() > b.len() {
        return false;
    }
    for i in 0..a.len()
        invariant
            a@.len() <= b@.len(),
            forall|j: int| 0 <= j < i ==> #[trigger] a@[j]@ == b@[j]@,
    {
        if !same_text(a[i].as_str(), b[i].as_str()) {
            assert(texts(a@)[i as int] != texts(b@)[i as int]);
            assert(texts(a@)[i as int] != texts(b@).subrange(0, a@.len() as int)[i as int]);
            return false;
        }
    }
    assert(texts(a@) =~= texts(b@).subrange(0, a@.len() as int));
    true
}

/// The path, where it lies in the workspace. A file that does not exist yet is
/// judged by the place that it would have.
pub fn resolve_within(path: &str, facts: &PathFacts) -> (r: Result<String, String>)
    ensures
        resolved(path@, *facts, r),
{
    match &facts.workspace {
        Err(e) => {
            let mut s = copy_str("工作区不可访问：");
            s.append(e.as_str());
            Err(s)
        },
        Ok(w) => match &facts.existing {
            Err(e) => {
                let mut s = copy_str("路径校验失败：");
                s.append(e.as_str());
                Err(s)
            },
            Ok((base, missing)) => {
                let full = canonicalize_existing_parent(base, missing);
                if is_prefix(w, &full) {
                    Ok(facts.candidate.clone())
                } else {
                    let mut s = copy_str("路径位于工作区之外：");
                    s.append(path);
                    Err(s)
                }
            },
        },
    }
}

// ---------------------------------------------------------------------------
// Laws
// ---------------------------------------------------------------------------

/// Whatever it is asked, a policy that only lets read allows nothing but tools
/// that read, and asks for nothing.
pub proof fn read_only_denies_all_but_reads(p: Policy, level: Level, reason: Seq<char>)
    requires
        p.read_only,
        !(level is Read),
    ensures
        p.decides(level, reason) is Deny,
{
}

/// Without an approval nothing runs but tools that read.
pub proof fn only_reads_are_allowed_unasked(p: Policy, level: Level, reason: Seq<char>)
    ensures
        p.decides(level, reason) is Allow ==> level is Read,
{
}

/// A command with a refused piece in it, in whatever case, is denied.
pub proof fn dangerous_commands_are_denied(p: Policy, args: JsonModel, path: Result<String, String>, k: int)
    requires
        0 <= k < p.deny_command_fragments@.len(),
        has_text(unicode_lower(text_arg(args, "command"@)), p.deny_command_fragments@[k]@),
    ensures
        p.decides(level_of("run_command"@), p.reason_for("run_command"@, args, path)) is Deny,
{
    reveal_strlit("run_command");
    reveal_strlit("read_file");
    reveal_strlit("write_file");
    reveal_strlit("list_dir");
    reveal_strlit("search_files");
    assert("run_command"@[1] != "read_file"@[1]);
    assert("run_command"@[0] != "write_file"@[0]);
    assert("run_command"@[0] != "list_dir"@[0]);
    assert("run_command"@[0] != "search_files"@[0]);
    let command = text_arg(args, "command"@);
    let fs = texts(p.deny_command_fragments@);
    assert(fs[k] == p.deny_command_fragments@[k]@);
    assert(has_any(unicode_lower(command), fs));
    reveal_strlit("拒绝");
    reveal_strlit("拒绝：命令命中危险模式");
    assert("拒绝：命令命中危险模式"@.take(2) =~= "拒绝"@);
}

/// A file tool on a path outside the workspace is denied.
pub proof fn paths_outside_are_denied(p: Policy, args: JsonModel, e: String, write: bool)
    ensures
        ({
            let tool = if write {
                "write_file"@
            } else {
                "read_file"@
            };
            p.decides(level_of(tool), p.reason_for(tool, args, Err(e))) is Deny
        }),
{
    reveal_strlit("拒绝");
    reveal_strlit("拒绝：");
    let reason = "拒绝："@ + e@;
    assert(reason.take(2) =~= "拒绝"@);
}

/// A path that passes lies in the workspace, wherever the `..` on it lead.
pub proof fn resolved_paths_lie_within(path: Seq<char>, facts: PathFacts, r: Result<String, String>)
    requires
        resolved(path, facts, r),
        r is Ok,
    ensures
        facts.workspace is Ok,
        facts.existing is Ok,
        texts(facts.workspace->Ok_0@).is_prefix_of(
            led_to(texts(facts.existing->Ok_0.0@), texts(facts.existing->Ok_0.1@)),
        ),
{
}

/// `..` takes back the name before it: going down and back leads nowhere else.
pub proof fn up_takes_back_down(base: Seq<Seq<char>>, steps: Seq<Seq<char>>, name: Seq<char>)
    requires
        name != ".."@,
    ensures
        led_to(base, steps.push(name).push(".."@)) == led_to(base, steps),
{
    let down = steps.push(name);
    assert(down.push(".."@).drop_last() =~= down);
    assert(down.drop_last() =~= steps);
    assert(led_to(base, down).drop_last() =~= led_to(base, steps));
}

/// Names that only lead down stand behind the base.
pub proof fn down_stays_below(base: Seq<Seq<char>>, steps: Seq<Seq<char>>)
    requires
        !steps.contains(".."@),
    ensures
        led_to(base, steps) == base + steps,
    decreases steps.len(),
{
    if steps.len() == 0 {
        assert(base + steps =~= base);
    } else {
        let rest = steps.drop_last();
        assert(steps[steps.len() - 1] == steps.last());
        assert(!rest.contains(".."@)) by {
            if rest.contains(".."@) {
                let i = choose|i: int| 0 <= i < rest.len() && rest[i] == ".."@;
                assert(steps[i] == ".."@);
            }
        }
        down_stays_below(base, rest);
        assert((base + rest).push(steps.last()) =~= base + steps);
    }
}

proof fn tool_names_differ()
    ensures
        "read_file"@ != "list_dir"@ && "read_file"@ != "search_files"@ && "read_file"@ != "write_file"@ && "read_file"@
            != "run_command"@ && "read_file"@ != "text.inject"@ && "read_file"@ != "clipboard"@,
        "list_dir"@ != "search_files"@ && "list_dir"@ != "write_file"@ && "list_dir"@ != "run_command"@ && "list_dir"@
            != "text.inject"@ && "list_dir"@ != "clipboard"@,
        "search_files"@ != "write_file"@ && "search_files"@ != "run_command"@ && "search_files"@ != "text.inject"@
            && "search_files"@ != "clipboard"@,
        "write_file"@ != "run_command"@ && "write_file"@ != "text.inject"@ && "write_file"@ != "clipboard"@,
        "run_command"@ != "text.inject"@ && "run_command"@ != "clipboard"@,
{
    reveal_strlit("read_file");
    reveal_strlit("list_dir");
    reveal_strlit("search_files");
    reveal_strlit("write_file");
    reveal_strlit("run_command");
    reveal_strlit("text.inject");
    reveal_strlit("clipboard");
    assert("read_file"@[0] == 'r' && "read_file"@.len() == 9);
    assert("list_dir"@[0] == 'l');
    assert("search_files"@[0] == 's');
    assert("write_file"@[0] == 'w');
    assert("run_command"@[0] == 'r' && "run_command"@.len() == 11);
    assert("text.inject"@[0] == 't');
    assert("clipboard"@[0] == 'c');
}

/// Reading is all that `read_file`, `list_dir` and `search_files` need, and no other
/// tool; writing is what `write_file` needs; what puts text into other programs needs
/// a level of its own, and every other tool counts as one that executes.
pub proof fn every_tool_has_its_level(tool: Seq<char>)
    ensures
        level_of(tool) is Read <==> seq!["read_file"@, "list_dir"@, "search_files"@].contains(tool),
        level_of(tool) is Write <==> tool == "write_file"@,
        level_of(tool) is Inject <==> tool == "text.inject"@ || tool == "clipboard"@,
        level_of("run_command"@) is Execute,
{
    tool_names_differ();
    let reading = seq!["read_file"@, "list_dir"@, "search_files"@];
    assert(reading[0] == "read_file"@ && reading[1] == "list_dir"@ && reading[2] == "search_files"@);
}

/// A tool that is none of the three that read never runs unasked. Unless it is
/// refused it is asked for, and where the workspace may only be read it is denied.
pub proof fn other_tools_are_asked_for(p: Policy, tool: Seq<char>, args: JsonModel, path: Result<String, String>)
    requires
        tool != "read_file"@,
        tool != "list_dir"@,
        tool != "search_files"@,
    ensures
        ({
            let d = p.decides(level_of(tool), p.reason_for(tool, args, path));
            &&& !(d is Allow)
            &&& p.read_only ==> d is Deny
            &&& !p.read_only && tool != "write_file"@ && tool != "run_command"@ ==> d is Ask
            &&& !p.read_only && tool == "write_file"@ ==> (d is Ask <==> path is Ok)
            &&& !p.read_only && tool == "run_command"@ ==> (d is Ask <==> forall|k: int|
                0 <= k < p.deny_command_fragments@.len() ==> !has_text(
                    unicode_lower(text_arg(args, "command"@)),
                    (#[trigger] p.deny_command_fragments@[k])@,
                ))
        }),
{
    tool_names_differ();
    reveal_strlit("拒绝");
    reveal_strlit("拒绝：");
    reveal_strlit("拒绝：命令命中危险模式");
    reveal_strlit("工具 ");
    reveal_strlit("执行命令：");
    reveal_strlit("write");
    let fs = texts(p.deny_command_fragments@);
    let command = text_arg(args, "command"@);
    let reason = p.reason_for(tool, args, path);
    if begins_with(reason, "拒绝"@) {
        assert(reason.take(2)[0] == reason[0]);
        assert(reason[0] == '拒');
    }
    if tool == "run_command"@ {
        assert("拒绝：命令命中危险模式"@.take(2) =~= "拒绝"@);
        if has_any(unicode_lower(command), fs) {
            let k = choose|k: int| 0 <= k < fs.len() && #[trigger] has_text(unicode_lower(command), fs[k]);
            assert(fs[k] == p.deny_command_fragments@[k]@);
        } else {
            assert(reason[0] == '执');
            assert forall|k: int| 0 <= k < p.deny_command_fragments@.len() implies !has_text(
                unicode_lower(command),
                (#[trigger] p.deny_command_fragments@[k])@,
            ) by {
                assert(fs[k] == p.deny_command_fragments@[k]@);
            }
        }
    } else if tool == "write_file"@ {
        match path {
            Ok(_) => {
                assert(reason[0] == 'w');
            },
            Err(e) => {
                assert(("拒绝："@ + e@).take(2) =~= "拒绝"@);
            },
        }
    } else {
        assert(reason[0] == '工');
    }
}

/// What may be read is read without a question: a file in the workspace, and every
/// listing and search, whether or not the workspace may be written to.
pub proof fn reading_needs_no_question(p: Policy, args: JsonModel, path: Result<String, String>)
    ensures
        p.decides(level_of("read_file"@), p.reason_for("read_file"@, args, path)) is Allow <==> path is Ok,
        p.decides(level_of("list_dir"@), p.reason_for("list_dir"@, args, path)) is Allow,
        p.decides(level_of("search_files"@), p.reason_for("search_files"@, args, path)) is Allow,
{
    tool_names_differ();
    reveal_strlit("拒绝");
    reveal_strlit("拒绝：");
    reveal_strlit("read");
    reveal_strlit("目录/搜索操作");
    let reason = p.reason_for("read_file"@, args, path);
    match path {
        Ok(_) => {
            assert(reason[0] == 'r');
            if begins_with(reason, "拒绝"@) {
                assert(reason.take(2)[0] == reason[0]);
            }
        },
        Err(e) => {
            assert(("拒绝："@ + e@).take(2) =~= "拒绝"@);
        },
    }
    let listing = "目录/搜索操作"@;
    if begins_with(listing, "拒绝"@) {
        assert(listing.take(2)[0] == listing[0]);
    }
}

/// The request for a command says which: the reason that the user sees ends with the
/// command, and that for another tool holds its name.
pub proof fn requests_say_what_is_asked(p: Policy, tool: Seq<char>, args: JsonModel, path: Result<String, String>, command: Seq<char>)
    requires
        !(p.decides(level_of(tool), p.reason_for(tool, args, path)) is Deny),
        level_of(tool) is Execute || level_of(tool) is Inject,
        member(args, "command"@) == Some(JsonModel::Text(command)),
    ensures
        tool == "run_command"@ ==> finishes_with(p.reason_for(tool, args, path), command),
        tool != "run_command"@ ==> has_text(p.reason_for(tool, args, path), tool),
{
    tool_names_differ();
    reveal_strlit("拒绝");
    reveal_strlit("拒绝：命令命中危险模式");
    assert("拒绝：命令命中危险模式"@.take(2) =~= "拒绝"@);
    let reason = p.reason_for(tool, args, path);
    if tool == "run_command"@ {
        assert(text_arg(args, "command"@) == command);
        let c = "执行命令："@ + command;
        assert(c.skip(c.len() - command.len()) =~= command);
    } else {
        parts_stand_in_the_whole("工具 "@, tool, " 需要审批"@, tool);
    }
}

/// The rules of every workspace refuse the commands that wipe files, take over the
/// machine, shut it down or push and reset a repository.
pub proof fn default_rules_refuse(p: Policy, args: JsonModel, path: Result<String, String>, piece: Seq<char>)
    requires
        texts(p.deny_command_fragments@) == default_fragments(),
        piece == "rm -rf"@ || piece == "sudo"@ || piece == "shutdown"@ || piece == "format c:"@ || piece == "rd /s"@
            || piece == "remove-item -recurse"@ || piece == "del /s"@ || piece == "git push"@ || piece
            == "git reset --hard"@,
        has_text(unicode_lower(text_arg(args, "command"@)), piece),
    ensures
        p.decides(level_of("run_command"@), p.reason_for("run_command"@, args, path)) is Deny,
{
    let fs = texts(p.deny_command_fragments@);
    assert(fs.contains(piece)) by {
        assert(fs[0] == "rm -rf"@ && fs[1] == "sudo"@ && fs[2] == "shutdown"@ && fs[3] == "format c:"@ && fs[4]
            == "rd /s"@ && fs[5] == "remove-item -recurse"@ && fs[6] == "del /s"@ && fs[7] == "git push"@ && fs[8]
            == "git reset --hard"@);
    }
    let k = choose|k: int| 0 <= k < fs.len() && fs[k] == piece;
    assert(fs[k] == p.deny_command_fragments@[k]@);
    dangerous_commands_are_denied(p, args, path, k);
}

/// Steps taken in two goes lead where they lead in one.
pub proof fn steps_in_two_goes(base: Seq<Seq<char>>, a: Seq<Seq<char>>, b: Seq<Seq<char>>)
    ensures
        led_to(base, a + b) == led_to(led_to(base, a), b),
    decreases b.len(),
{
    if b.len() == 0 {
        assert(a + b =~= a);
    } else {
        assert((a + b).drop_last() =~= a + b.drop_last());
        steps_in_two_goes(base, a, b.drop_last());
    }
}

/// `..` leads to the folder above, and from the top nowhere.
pub proof fn up_leads_to_the_folder_above(base: Seq<Seq<char>>, name: Seq<char>)
    ensures
        led_to(base.push(name), seq![".."@]) == base,
        led_to(seq![], seq![".."@]) == Seq::<Seq<char>>::empty(),
        name != ".."@ ==> led_to(base, seq![name]) == base.push(name),
{
    reveal_with_fuel(led_to, 2);
    let up = seq![".."@];
    let down = seq![name];
    assert(up.drop_last() =~= Seq::<Seq<char>>::empty());
    assert(down.drop_last() =~= Seq::<Seq<char>>::empty());
    assert(base.push(name).drop_last() =~= base);
}

/// A path passes exactly where the workspace can be reached, the path can be looked
/// up, and each name of the workspace stands at its place on the path; what passes is
/// handed on as it was asked for.
pub proof fn paths_pass_within(path: Seq<char>, facts: PathFacts, r: Result<String, String>)
    requires
        resolved(path, facts, r),
    ensures
        r is Ok <==> (facts.workspace matches Ok(w) && facts.existing matches Ok((base, missing)) && ({
            let full = led_to(texts(base@), texts(missing@));
            &&& w@.len() <= full.len()
            &&& forall|i: int| 0 <= i < w@.len() ==> full[i] == (#[trigger] w@[i])@
        })),
        r matches Ok(p) ==> p@ == facts.candidate@,
{
    if facts.workspace is Ok && facts.existing is Ok {
        let w = facts.workspace->Ok_0;
        let full = led_to(texts(facts.existing->Ok_0.0@), texts(facts.existing->Ok_0.1@));
        if texts(w@).is_prefix_of(full) {
            assert forall|i: int| 0 <= i < w@.len() implies full[i] == (#[trigger] w@[i])@ by {
                assert(texts(w@)[i] == w@[i]@);
                assert(full.subrange(0, w@.len() as int)[i] == full[i]);
            }
        } else if w@.len() <= full.len() && forall|i: int| 0 <= i < w@.len() ==> full[i] == (#[trigger] w@[i])@ {
            assert(texts(w@) =~= full.subrange(0, w@.len() as int));
        }
    }
}

/// A path that does not pass is told why: what stood in the way of the workspace, what
/// stood in the way of looking it up, or which path lies outside.
pub proof fn refused_paths_tell_why(path: Seq<char>, facts: PathFacts, r: Result<String, String>)
    requires
        resolved(path, facts, r),
    ensures
        facts.workspace matches Err(e) ==> (r matches Err(s) && finishes_with(s@, e@)),
        facts.workspace is Ok ==> (facts.existing matches Err(e) ==> (r matches Err(s) && finishes_with(s@, e@))),
        facts.workspace is Ok && facts.existing is Ok && r is Err ==> finishes_with(r->Err_0@, path),
{
    if facts.workspace is Err {
        ends_with_its_last("工作区不可访问："@, facts.workspace->Err_0@);
    } else if facts.existing is Err {
        ends_with_its_last("路径校验失败："@, facts.existing->Err_0@);
    } else {
        ends_with_its_last("路径位于工作区之外："@, path);
    }
}

proof fn ends_with_its_last(a: Seq<char>, b: Seq<char>)
    ensures
        finishes_with(a + b, b),
{
    assert((a + b).skip((a + b).len() - b.len()) =~= b);
}

} // verus!

//! The commands that are typed after a slash.

use crate::mcp::McpServerConfig;
use crate::text::{copy_str, remove_words, same_text, split_words, texts, without_words, words};
use vstd::prelude::*;

verus! {

/// A command on the servers of tools.
pub enum McpCommand {
    Add(McpServerConfig),
    List,
    Remove(String),
    /// The command is none of these.
    Usage,
}

/// A command.
pub enum Command {
    Help,
    Exit,
    New,
    Sessions,
    Resume(String),
    /// Switches the model, or says which it is.
    Model(Option<String>),
    Diff,
    Undo,
    Mcp(McpCommand),
    Skills,
    Fork(Option<String>),
    Rewind(String),
    Redo,
    Tree,
    Share(Option<String>),
    Plan,
    Build,
    Status,
    Init,
    Clear,
    Unknown(String),
}

/// What a command on the servers says.
pub enum McpCommandModel {
    Add { name: Seq<char>, command: Seq<char>, args: Seq<Seq<char>> },
    List,
    Remove(Seq<char>),
    Usage,
}

/// What a command says.
pub enum CommandModel {
    Help,
    Exit,
    New,
    Sessions,
    Resume(Seq<char>),
    Model(Option<Seq<char>>),
    Diff,
    Undo,
    Mcp(McpCommandModel),
    Skills,
    Fork(Option<Seq<char>>),
    Rewind(Seq<char>),
    Redo,
    Tree,
    Share(Option<Seq<char>>),
    Plan,
    Build,
    Status,
    Init,
    Clear,
    Unknown(Seq<char>),
}

/// The text that there is.
pub open spec fn word_opt(s: Option<String>) -> Option<Seq<char>> {
    match s {
        Some(t) => Some(t@),
        None => None,
    }
}

impl McpCommand {
    pub open spec fn model(self) -> McpCommandModel {
        match self {
            McpCommand::Add(c) => McpCommandModel::Add { name: c.name@, command: c.command@, args: texts(c.args@) },
            McpCommand::List => McpCommandModel::List,
            McpCommand::Remove(n) => McpCommandModel::Remove(n@),
            McpCommand::Usage => McpCommandModel::Usage,
        }
    }

    /// A server that is to be added is started as a process.
    pub open spec fn wf(self) -> bool {
        self matches McpCommand::Add(c) ==> c.transport@ == "stdio"@ && c.url is None && c.timeout_ms is None
    }
}

impl Command {
    /// What the command says.
    pub open spec fn model(self) -> CommandModel {
        match self {
            Command::Help => CommandModel::Help,
            Command::Exit => CommandModel::Exit,
            Command::New => CommandModel::New,
            Command::Sessions => CommandModel::Sessions,
            Command::Resume(id) => CommandModel::Resume(id@),
            Command::Model(m) => CommandModel::Model(word_opt(m)),
            Command::Diff => CommandModel::Diff,
            Command::Undo => CommandModel::Undo,
            Command::Mcp(c) => CommandModel::Mcp(c.model()),
            Command::Skills => CommandModel::Skills,
            Command::Fork(i) => CommandModel::Fork(word_opt(i)),
            Command::Rewind(k) => CommandModel::Rewind(k@),
            Command::Redo => CommandModel::Redo,
            Command::Tree => CommandModel::Tree,
            Command::Share(f) => CommandModel::Share(word_opt(f)),
            Command::Plan => CommandModel::Plan,
            Command::Build => CommandModel::Build,
            Command::Status => CommandModel::Status,
            Command::Init => CommandModel::Init,
            Command::Clear => CommandModel::Clear,
            Command::Unknown(w) => CommandModel::Unknown(w@),
        }
    }

    pub open spec fn wf(self) -> bool {
        self matches Command::Mcp(c) ==> c.wf()
    }
}

/// The word at position `i`.
pub open spec fn word_at(w: Seq<Seq<char>>, i: int) -> Option<Seq<char>> {
    if 0 <= i < w.len() {
        Some(w[i])
    } else {
        None
    }
}

/// The command on the servers of tools that a text stands for.
pub open spec fn mcp_command_of(text: Seq<char>) -> Result<McpCommandModel, Seq<char>> {
    let w = words(without_words(text, "mcp"@));
    match word_at(w, 0) {
        Some(first) => if first == "add"@ {
            if w.len() < 2 {
                Err("用法：/mcp add <名称> <命令> [参数...]"@)
            } else if w.len() < 3 {
                Err("缺少 MCP 服务器命令"@)
            } else {
                Ok(McpCommandModel::Add { name: w[1], command: w[2], args: w.skip(3) })
            }
        } else if first == "list"@ {
            Ok(McpCommandModel::List)
        } else if first == "remove"@ {
            if w.len() < 2 {
                Err("用法：/mcp remove <名称>"@)
            } else {
                Ok(McpCommandModel::Remove(w[1]))
            }
        } else {
            Ok(McpCommandModel::Usage)
        },
        None => Ok(McpCommandModel::Usage),
    }
}

/// The command that a text stands for.
pub open spec fn command_of(text: Seq<char>) -> Result<CommandModel, Seq<char>> {
    let w = words(text);
    let name = match word_at(w, 0) {
        Some(n) => n,
        None => Seq::<char>::empty(),
    };
    let next = word_at(w, 1);
    if name == "help"@ {
        Ok(CommandModel::Help)
    } else if name == "exit"@ || name == "quit"@ {
        Ok(CommandModel::Exit)
    } else if name == "new"@ {
        Ok(CommandModel::New)
    } else if name == "sessions"@ {
        Ok(CommandModel::Sessions)
    } else if name == "resume"@ {
        match next {
            Some(id) => Ok(CommandModel::Resume(id)),
            None => Err("用法：/resume <会话ID>"@),
        }
    } else if name == "model"@ {
        Ok(CommandModel::Model(next))
    } else if name == "diff"@ {
        Ok(CommandModel::Diff)
    } else if name == "undo"@ || name == "revert"@ {
        Ok(CommandModel::Undo)
    } else if name == "mcp"@ {
        match mcp_command_of(text) {
            Ok(c) => Ok(CommandModel::Mcp(c)),
            Err(e) => Err(e),
        }
    } else if name == "skills"@ {
        Ok(CommandModel::Skills)
    } else if name == "fork"@ {
        Ok(CommandModel::Fork(next))
    } else if name == "rewind"@ {
        match next {
            Some(keep) => Ok(CommandModel::Rewind(keep)),
            None => Err("用法：/rewind <保留消息数>"@),
        }
    } else if name == "redo"@ {
        Ok(CommandModel::Redo)
    } else if name == "tree"@ {
        Ok(CommandModel::Tree)
    } else if name == "share"@ {
        Ok(CommandModel::Share(next))
    } else if name == "plan"@ {
        Ok(CommandModel::Plan)
    } else if name == "build"@ {
        Ok(CommandModel::Build)
    } else if name == "status"@ {
        Ok(CommandModel::Status)
    } else if name == "init"@ {
        Ok(CommandModel::Init)
    } else if name == "clear"@ {
        Ok(CommandModel::Clear)
    } else {
        Ok(CommandModel::Unknown(name))
    }
}

/// What the reading of a command says.
pub open spec fn reading_model(r: Result<Command, String>) -> Result<CommandModel, Seq<char>> {
    match r {
        Ok(c) => Ok(c.model()),
        Err(e) => Err(e@),
    }
}

fn nth_word(w: &Vec<String>, i: usize) -> (r: Option<String>)
    ensures
        word_opt(r) == word_at(texts(w@), i as int),
{
    if i < w.len() {
        Some(w[i].clone())
    } else {
        None
    }
}

/// Reads a command on the servers of tools.
pub fn parse_mcp_command(text: &str) -> (r: Result<McpCommand, String>)
    ensures
        match mcp_command_of(text@) {
            Ok(m) => r matches Ok(c) && c.model() == m && c.wf(),
            Err(e) => r matches Err(t) && t@ == e,
        },
{
    let w = split_words(remove_words(text, "mcp").as_str());
    let ghost all = texts(w@);
    if w.len() == 0 {
        return Ok(McpCommand::Usage);
    }
    assert(all[0] == w@[0]@);
    if same_text(w[0].as_str(), "add") {
        if w.len() < 2 {
            return Err(copy_str("用法：/mcp add <名称> <命令> [参数...]"));
        }
        if w.len() < 3 {
            return Err(copy_str("缺少 MCP 服务器命令"));
        }
        let mut args: Vec<String> = Vec::new();
        for i in 3..w.len()
            invariant
                args@.len() == i - 3,
                forall|j: int| 0 <= j < i - 3 ==> (#[trigger] args@[j])@ == w@[j + 3]@,
        {
            args.push(w[i].clone());
        }
        assert(texts(args@) =~= all.skip(3));
        assert(all[1] == w@[1]@ && all[2] == w@[2]@);
        return Ok(McpCommand::Add(McpServerConfig::stdio(w[1].clone(), w[2].clone(), args)));
    }
    if same_text(w[0].as_str(), "list") {
        return Ok(McpCommand::List);
    }
    if same_text(w[0].as_str(), "remove") {
        return match nth_word(&w, 1) {
            Some(name) => Ok(McpCommand::Remove(name)),
            None => Err(copy_str("用法：/mcp remove <名称>")),
        };
    }
    Ok(McpCommand::Usage)
}

/// Reads a command.
pub fn parse_command(text: &str) -> (r: Result<Command, String>)
    ensures
        reading_model(r) == command_of(text@),
        r matches Ok(c) ==> c.wf(),
{
    let w = split_words(text);
    let name = match nth_word(&w, 0) {
        Some(n) => n,
        None => String::new(),
    };
    assert(words(text@).len() == 0 ==> name@ =~= Seq::<char>::empty());
    let next = nth_word(&w, 1);
    let n = name.as_str();
    if same_text(n, "help") {
        Ok(Command::Help)
    } else if same_text(n, "exit") || same_text(n, "quit") {
        Ok(Command::Exit)
    } else if same_text(n, "new") {
        Ok(Command::New)
    } else if same_text(n, "sessions") {
        Ok(Command::Sessions)
    } else if same_text(n, "resume") {
        match next {
            Some(id) => Ok(Command::Resume(id)),
            None => Err(copy_str("用法：/resume <会话ID>")),
        }
    } else if same_text(n, "model") {
        Ok(Command::Model(next))
    } else if same_text(n, "diff") {
        Ok(Command::Diff)
    } else if same_text(n, "undo") || same_text(n, "revert") {
        Ok(Command::Undo)
    } else if same_text(n, "mcp") {
        match parse_mcp_command(text) {
            Ok(c) => Ok(Command::Mcp(c)),
            Err(e) => Err(e),
        }
    } else if same_text(n, "skills") {
        Ok(Command::Skills)
    } else if same_text(n, "fork") {
        Ok(Command::Fork(next))
    } else if same_text(n, "rewind") {
        match next {
            Some(keep) => Ok(Command::Rewind(keep)),
            None => Err(copy_str("用法：/rewind <保留消息数>")),
        }
    } else if same_text(n, "redo") {
        Ok(Command::Redo)
    } else if same_text(n, "tree") {
        Ok(Command::Tree)
    } else if same_text(n, "share") {
        Ok(Command::Share(next))
    } else if same_text(n, "plan") {
        Ok(Command::Plan)
    } else if same_text(n, "build") {
        Ok(Command::Build)
    } else if same_text(n, "status") {
        Ok(Command::Status)
    } else if same_text(n, "init") {
        Ok(Command::Init)
    } else if same_text(n, "clear") {
        Ok(Command::Clear)
    } else {
        Ok(Command::Unknown(name))
    }
}

// ---------------------------------------------------------------------------
// Laws
// ---------------------------------------------------------------------------

proof fn command_words_differ()
    ensures
        forall|i: int, j: int|
            0 <= i < j < command_words().len() ==> #[trigger] command_words()[i] != #[trigger] command_words()[j],
{
    reveal_strlit("help");
    reveal_strlit("exit");
    reveal_strlit("quit");
    reveal_strlit("new");
    reveal_strlit("sessions");
    reveal_strlit("resume");
    reveal_strlit("model");
    reveal_strlit("diff");
    reveal_strlit("undo");
    reveal_strlit("revert");
    reveal_strlit("mcp");
    reveal_strlit("skills");
    reveal_strlit("fork");
    reveal_strlit("rewind");
    reveal_strlit("redo");
    reveal_strlit("tree");
    reveal_strlit("share");
    reveal_strlit("plan");
    reveal_strlit("build");
    reveal_strlit("status");
    reveal_strlit("init");
    reveal_strlit("clear");
    let w = command_words();
    // The length, the first and the third character tell them apart.
    assert forall|i: int, j: int| 0 <= i < j < w.len() implies #[trigger] w[i] != #[trigger] w[j] by {
        assert(w[i].len() != w[j].len() || w[i][0] != w[j][0] || w[i][2] != w[j][2]);
    }
}

/// The words that are commands.
pub open spec fn command_words() -> Seq<Seq<char>> {
    seq![
        "help"@,
        "exit"@,
        "quit"@,
        "new"@,
        "sessions"@,
        "resume"@,
        "model"@,
        "diff"@,
        "undo"@,
        "revert"@,
        "mcp"@,
        "skills"@,
        "fork"@,
        "rewind"@,
        "redo"@,
        "tree"@,
        "share"@,
        "plan"@,
        "build"@,
        "status"@,
        "init"@,
        "clear"@,
    ]
}

/// The first word of a line says which command it is; the second, where the command
/// takes one, is what it is about. A line whose first word is no command asks for that
/// word.
pub proof fn the_first_word_is_the_command(text: Seq<char>)
    requires
        words(text).len() > 0,
    ensures
        ({
            let w = words(text);
            let next = if w.len() > 1 {
                Some(w[1])
            } else {
                None
            };
            let c = command_of(text);
            &&& w[0] == "help"@ ==> c == Ok::<CommandModel, Seq<char>>(CommandModel::Help)
            &&& w[0] == "exit"@ ==> c == Ok::<CommandModel, Seq<char>>(CommandModel::Exit)
            &&& w[0] == "quit"@ ==> c == Ok::<CommandModel, Seq<char>>(CommandModel::Exit)
            &&& w[0] == "new"@ ==> c == Ok::<CommandModel, Seq<char>>(CommandModel::New)
            &&& w[0] == "sessions"@ ==> c == Ok::<CommandModel, Seq<char>>(CommandModel::Sessions)
            &&& w[0] == "diff"@ ==> c == Ok::<CommandModel, Seq<char>>(CommandModel::Diff)
            &&& w[0] == "undo"@ ==> c == Ok::<CommandModel, Seq<char>>(CommandModel::Undo)
            &&& w[0] == "revert"@ ==> c == Ok::<CommandModel, Seq<char>>(CommandModel::Undo)
            &&& w[0] == "skills"@ ==> c == Ok::<CommandModel, Seq<char>>(CommandModel::Skills)
            &&& w[0] == "redo"@ ==> c == Ok::<CommandModel, Seq<char>>(CommandModel::Redo)
            &&& w[0] == "tree"@ ==> c == Ok::<CommandModel, Seq<char>>(CommandModel::Tree)
            &&& w[0] == "plan"@ ==> c == Ok::<CommandModel, Seq<char>>(CommandModel::Plan)
            &&& w[0] == "build"@ ==> c == Ok::<CommandModel, Seq<char>>(CommandModel::Build)
            &&& w[0] == "status"@ ==> c == Ok::<CommandModel, Seq<char>>(CommandModel::Status)
            &&& w[0] == "init"@ ==> c == Ok::<CommandModel, Seq<char>>(CommandModel::Init)
            &&& w[0] == "clear"@ ==> c == Ok::<CommandModel, Seq<char>>(CommandModel::Clear)
            &&& w[0] == "model"@ ==> c == Ok::<CommandModel, Seq<char>>(CommandModel::Model(next))
            &&& w[0] == "fork"@ ==> c == Ok::<CommandModel, Seq<char>>(CommandModel::Fork(next))
            &&& w[0] == "share"@ ==> c == Ok::<CommandModel, Seq<char>>(CommandModel::Share(next))
            &&& w[0] == "resume"@ && w.len() > 1 ==> c == Ok::<CommandModel, Seq<char>>(CommandModel::Resume(w[1]))
            &&& w[0] == "resume"@ && w.len() == 1 ==> c is Err
            &&& w[0] == "rewind"@ && w.len() > 1 ==> c == Ok::<CommandModel, Seq<char>>(CommandModel::Rewind(w[1]))
            &&& w[0] == "rewind"@ && w.len() == 1 ==> c is Err
            &&& w[0] == "mcp"@ ==> match mcp_command_of(text) {
                Ok(x) => c == Ok::<CommandModel, Seq<char>>(CommandModel::Mcp(x)),
                Err(e) => c == Err::<CommandModel, Seq<char>>(e),
            }
            &&& !command_words().contains(w[0]) ==> c == Ok::<CommandModel, Seq<char>>(CommandModel::Unknown(w[0]))
        }),
{
    command_words_differ();
    let ws = command_words();
    assert(ws[0] == "help"@ && ws[1] == "exit"@ && ws[2] == "quit"@ && ws[3] == "new"@ && ws[4] == "sessions"@ && ws[5]
        == "resume"@ && ws[6] == "model"@ && ws[7] == "diff"@ && ws[8] == "undo"@ && ws[9] == "revert"@ && ws[10] == "mcp"@
        && ws[11] == "skills"@ && ws[12] == "fork"@ && ws[13] == "rewind"@ && ws[14] == "redo"@ && ws[15] == "tree"@ && ws[16]
        == "share"@ && ws[17] == "plan"@ && ws[18] == "build"@ && ws[19] == "status"@ && ws[20] == "init"@ && ws[21]
        == "clear"@);
}

/// A server is added by its name, its command and whatever follows as arguments, and
/// removed by its name; what is missing is told.
pub proof fn servers_are_added_and_removed_by_name(text: Seq<char>)
    ensures
        ({
            let w = words(without_words(text, "mcp"@));
            &&& w.len() >= 3 && w[0] == "add"@ ==> (mcp_command_of(text) matches Ok(McpCommandModel::Add {
                name,
                command,
                args,
            }) && name == w[1] && command == w[2] && args.len() == w.len() - 3 && forall|i: int|
                3 <= i < w.len() ==> args[i - 3] == #[trigger] w[i])
            &&& w.len() == 1 && w[0] == "add"@ ==> mcp_command_of(text) == Err::<McpCommandModel, Seq<char>>(
                "用法：/mcp add <名称> <命令> [参数...]"@,
            )
            &&& w.len() == 2 && w[0] == "add"@ ==> mcp_command_of(text) == Err::<McpCommandModel, Seq<char>>(
                "缺少 MCP 服务器命令"@,
            )
            &&& w.len() >= 2 && w[0] == "remove"@ ==> mcp_command_of(text) == Ok::<McpCommandModel, Seq<char>>(
                McpCommandModel::Remove(w[1]),
            )
            &&& w.len() == 1 && w[0] == "remove"@ ==> mcp_command_of(text) is Err
            &&& w.len() >= 1 && w[0] == "list"@ ==> mcp_command_of(text) == Ok::<McpCommandModel, Seq<char>>(
                McpCommandModel::List,
            )
            &&& w.len() == 0 || (w[0] != "add"@ && w[0] != "remove"@ && w[0] != "list"@) ==> mcp_command_of(text) == Ok::<
                McpCommandModel,
                Seq<char>,
            >(McpCommandModel::Usage)
        }),
{
    reveal_strlit("add");
    reveal_strlit("list");
    reveal_strlit("remove");
    assert("add"@.len() == 3 && "list"@.len() == 4 && "remove"@.len() == 6);
}

} // verus!

//! Sessions: their messages, what was taken back and can be restored, and the
//! files that were changed.

use crate::agent::AgentError;
use crate::audit::opt_text;
use crate::chat::{chat_model, copy_messages, ChatMessage, ChatModel};
use crate::clock::{is_id, now_text, random_id};
use crate::crypto::{base64_decode, base64_decoded, base64_encode, base64_encoded};
use crate::table::Table;
use crate::text::{
    after_prefix, before_suffix, begins_with, below, contains_string, copy_str, join_below, less_text, lossy_string, lossy_text,
    slashed, strip_prefix, strip_suffix, text_less, text_order, texts, to_slashes, trim_leading, without_leading,
};
use vstd::prelude::*;

verus! {

/// What a file held before it was first written to.
pub struct SnapshotEntry {
    /// In base64; nothing where the file did not exist.
    pub original_b64: Option<String>,
}

/// A file that is not what it was.
pub struct FileDiff {
    pub path: String,
    pub before: Option<String>,
    pub after: Option<String>,
}

/// What a changed file says.
pub struct DiffModel {
    pub path: Seq<char>,
    pub before: Option<Seq<char>>,
    pub after: Option<Seq<char>>,
}

impl View for FileDiff {
    type V = DiffModel;

    open spec fn view(&self) -> DiffModel {
        DiffModel { path: self.path@, before: opt_text(self.before), after: opt_text(self.after) }
    }
}

pub open spec fn diff_models(v: Seq<FileDiff>) -> Seq<DiffModel> {
    v.map_values(|d: FileDiff| d@)
}

/// A conversation with what it has done.
pub struct Session {
    pub id: String,
    pub workspace: String,
    pub model: String,
    pub system_prompt: Option<String>,
    pub messages: Vec<ChatMessage>,
    /// What the files held that were written to, by path.
    pub snapshots: Table<SnapshotEntry>,
    pub created_at: String,
    pub updated_at: String,
    /// The session that this one was split off from.
    pub parent_id: Option<String>,
    /// The last message that was taken over.
    pub fork_point: Option<usize>,
    /// What was cut off by going back.
    pub redo_stack: Vec<Vec<ChatMessage>>,
    /// The messages that were taken back.
    pub message_redo_stack: Vec<Vec<ChatMessage>>,
    pub title: Option<String>,
    pub archived: bool,
    pub pinned: bool,
}

/// What the lists on a stack say.
pub open spec fn stack_model(v: Seq<Vec<ChatMessage>>) -> Seq<Seq<ChatModel>> {
    v.map_values(|m: Vec<ChatMessage>| chat_model(m@))
}

/// The history of a session.
pub struct History {
    pub messages: Seq<ChatModel>,
    pub redo: Seq<Seq<ChatModel>>,
    pub message_redo: Seq<Seq<ChatModel>>,
}

/// A history that goes back to its first `keep` messages.
pub open spec fn rewound(h: History, keep: int) -> History {
    if keep >= h.messages.len() {
        h
    } else {
        History { messages: h.messages.take(keep), redo: h.redo.push(h.messages.skip(keep)), ..h }
    }
}

/// A history with what was cut off last put back.
pub open spec fn redone(h: History) -> History {
    if h.redo.len() == 0 {
        h
    } else {
        History { messages: h.messages + h.redo.last(), redo: h.redo.drop_last(), ..h }
    }
}

/// How many of the last messages are taken back where `count` are asked for.
pub open spec fn taken(h: History, count: int) -> int {
    if count < h.messages.len() {
        count
    } else {
        h.messages.len() as int
    }
}

/// A history with its last `count` messages taken back.
pub open spec fn undone(h: History, count: int) -> History {
    let n = taken(h, count);
    if n == 0 {
        h
    } else {
        History {
            messages: h.messages.take(h.messages.len() - n),
            message_redo: h.message_redo.push(h.messages.skip(h.messages.len() - n)),
            ..h
        }
    }
}

/// A history with the messages that were taken back last put back.
pub open spec fn message_redone(h: History) -> History {
    if h.message_redo.len() == 0 {
        h
    } else {
        History { messages: h.messages + h.message_redo.last(), message_redo: h.message_redo.drop_last(), ..h }
    }
}

/// What a file held before it was first written to, nothing where there was no
/// file; or why the snapshot cannot be read.
pub open spec fn original(s: SnapshotEntry) -> Result<Option<Seq<u8>>, Seq<char>> {
    match s.original_b64 {
        Some(encoded) => match base64_decoded(encoded@) {
            Ok(bytes) => Ok(Some(bytes)),
            Err(e) => Err(e),
        },
        None => Ok(None),
    }
}

/// What the files held before they were first written to.
pub type Originals = Map<Seq<char>, Result<Option<Seq<u8>>, Seq<char>>>;

/// What the snapshots of a session hold.
pub open spec fn originals(snapshots: Map<Seq<char>, SnapshotEntry>) -> Originals {
    snapshots.map_values(|e: SnapshotEntry| original(e))
}

/// A snapshot is taken of a file, unless there is one already.
pub open spec fn snapshot_taken(m: Originals, path: Seq<char>, content: Option<Seq<u8>>) -> Originals {
    if m.contains_key(path) {
        m
    } else {
        m.insert(path, Ok(content))
    }
}

/// The text that a snapshot holds; none where there was no file, or where the
/// snapshot cannot be read.
pub open spec fn snapshot_text(s: SnapshotEntry) -> Option<Seq<char>> {
    match original(s) {
        Ok(Some(bytes)) => Some(lossy_text(bytes)),
        _ => None,
    }
}

/// The text of a file; none where there is no file.
pub open spec fn file_text(files: Map<Seq<char>, Vec<u8>>, path: Seq<char>) -> Option<Seq<char>> {
    if files.contains_key(path) {
        Some(lossy_text(files[path]@))
    } else {
        None
    }
}

/// The files among the first `n` snapshots that are not what they were.
pub open spec fn changed_files(
    workspace: Seq<char>,
    snapshots: Seq<(String, SnapshotEntry)>,
    files: Map<Seq<char>, Vec<u8>>,
    n: int,
) -> Seq<DiffModel>
    decreases n,
{
    if n <= 0 {
        seq![]
    } else {
        let front = changed_files(workspace, snapshots, files, n - 1);
        let path = snapshots[n - 1].0@;
        let before = snapshot_text(snapshots[n - 1].1);
        let after = file_text(files, path);
        if before == after {
            front
        } else {
            front.push(DiffModel { path: shown_path(workspace, path), before, after })
        }
    }
}

/// A path with slashes only and without the mark of a long path.
pub open spec fn plain_path(p: Seq<char>) -> Seq<char> {
    match after_prefix(slashed(p), "//?/"@) {
        Some(rest) => rest,
        None => slashed(p),
    }
}

/// A path as it is shown: from the workspace on, where it begins with it.
pub open spec fn shown_path(workspace: Seq<char>, path: Seq<char>) -> Seq<char> {
    match after_prefix(plain_path(path), plain_path(workspace)) {
        Some(rest) => without_leading(rest, '/'),
        None => plain_path(path),
    }
}

/// The paths of the first `n` snapshots as they are shown.
pub open spec fn shown_paths(workspace: Seq<char>, snapshots: Seq<(String, SnapshotEntry)>) -> Seq<Seq<char>> {
    snapshots.map_values(|e: (String, SnapshotEntry)| shown_path(workspace, e.0@))
}

fn normalize_path(p: &str) -> (r: String)
    ensures
        r@ == plain_path(p@),
{
    let raw = to_slashes(p);
    match strip_prefix(raw.as_str(), "//?/") {
        Some(rest) => rest,
        None => raw,
    }
}

/// A path as it is shown: from the workspace on, where it begins with it.
pub fn relative_display(workspace: &str, path: &str) -> (r: String)
    ensures
        r@ == shown_path(workspace@, path@),
{
    let workspace = normalize_path(workspace);
    let path = normalize_path(path);
    match strip_prefix(path.as_str(), workspace.as_str()) {
        Some(rest) => trim_leading(rest.as_str(), '/'),
        None => path,
    }
}

/// What is done to a file to undo what was written.
pub enum Restore {
    /// Write these bytes.
    Write(Vec<u8>),
    /// Remove the file, where there is one.
    Remove,
}

fn same_opt_text(a: &Option<String>, b: &Option<String>) -> (r: bool)
    ensures
        r == (opt_text(*a) == opt_text(*b)),
{
    match (a, b) {
        (Some(x), Some(y)) => crate::text::same_text(x.as_str(), y.as_str()),
        (None, None) => true,
        _ => false,
    }
}

fn copy_all(v: &Vec<ChatMessage>) -> (r: Vec<ChatMessage>)
    ensures
        chat_model(r@) == chat_model(v@),
{
    let r = copy_messages(v, 0, v.len());
    assert(chat_model(v@).subrange(0, v@.len() as int) =~= chat_model(v@));
    r
}

impl Session {
    /// The messages, and what can be put back.
    pub open spec fn history(self) -> History {
        History {
            messages: chat_model(self.messages@),
            redo: stack_model(self.redo_stack@),
            message_redo: stack_model(self.message_redo_stack@),
        }
    }

    /// All but the history, the snapshots and the time of the last change is the
    /// same.
    pub open spec fn same_session(self, other: Session) -> bool {
        &&& self.id == other.id
        &&& self.workspace == other.workspace
        &&& self.model == other.model
        &&& self.system_prompt == other.system_prompt
        &&& self.created_at == other.created_at
        &&& self.parent_id == other.parent_id
        &&& self.fork_point == other.fork_point
        &&& self.title == other.title
        &&& self.archived == other.archived
        &&& self.pinned == other.pinned
    }

    pub open spec fn wf(self) -> bool {
        self.snapshots.wf()
    }

    /// A new session. Nothing is said of its identifier, which is random, and of
    /// the time, except that it has not changed since it was made.
    pub fn new(workspace: String, model: String, system_prompt: Option<String>) -> (r: Session)
        ensures
            r.wf(),
            is_id(r.id@),
            r.workspace == workspace,
            r.model == model,
            r.system_prompt == system_prompt,
            r.history() == (History {
                messages: Seq::<ChatModel>::empty(),
                redo: Seq::<Seq<ChatModel>>::empty(),
                message_redo: Seq::<Seq<ChatModel>>::empty(),
            }),
            r.snapshots.entries@.len() == 0,
            r.created_at@ == r.updated_at@,
            r.parent_id is None,
            r.fork_point is None,
            r.title is None,
            !r.archived,
            !r.pinned,
    {
        let now = now_text();
        let r = Session {
            id: random_id(),
            workspace,
            model,
            system_prompt,
            messages: Vec::new(),
            snapshots: Table::new(),
            created_at: now.clone(),
            updated_at: now,
            parent_id: None,
            fork_point: None,
            redo_stack: Vec::new(),
            message_redo_stack: Vec::new(),
            title: None,
            archived: false,
            pinned: false,
        };
        proof {
            assert(r.history().messages =~= Seq::<ChatModel>::empty());
            assert(r.history().redo =~= Seq::<Seq<ChatModel>>::empty());
            assert(r.history().message_redo =~= Seq::<Seq<ChatModel>>::empty());
        }
        r
    }

    /// Adds a message.
    pub fn push(&mut self, message: ChatMessage)
        ensures
            final(self).history() == (History {
                messages: old(self).history().messages.push(message@),
                ..old(self).history()
            }),
            final(self).same_session(*old(self)),
            final(self).snapshots == old(self).snapshots,
            final(self).updated_at == old(self).updated_at,
    {
        let ghost m = message@;
        self.messages.push(message);
        assert(self.history().messages =~= old(self).history().messages.push(m));
    }

    /// Gives the session a title.
    pub fn rename(&mut self, title: String)
        ensures
            *final(self) == (Session { title: Some(title), ..*old(self) }),
    {
        self.title = Some(title);
    }

    /// Pins the session or takes the pin off.
    pub fn set_pinned(&mut self, pinned: bool)
        ensures
            *final(self) == (Session { pinned, ..*old(self) }),
    {
        self.pinned = pinned;
    }

    /// Puts the session into the archive or takes it out.
    pub fn set_archived(&mut self, archived: bool)
        ensures
            *final(self) == (Session { archived, ..*old(self) }),
    {
        self.archived = archived;
    }

    /// Keeps what a file holds before it is written to for the first time;
    /// `content` is nothing where there is no file.
    pub fn take_snapshot(&mut self, path: String, content: Option<&Vec<u8>>)
        requires
            old(self).wf(),
        ensures
            final(self).wf(),
            final(self).history() == old(self).history(),
            final(self).same_session(*old(self)),
            final(self).updated_at == old(self).updated_at,
            originals(final(self).snapshots@) == snapshot_taken(
                originals(old(self).snapshots@),
                path@,
                content_bytes(content),
            ),
            if old(self).snapshots@.contains_key(path@) {
                final(self).snapshots == old(self).snapshots
            } else {
                &&& final(self).snapshots.keys() == old(self).snapshots.keys().push(path@)
                &&& final(self).snapshots@.remove(path@) == old(self).snapshots@
                &&& opt_text(final(self).snapshots@[path@].original_b64) == encoded_content(content)
            },
    {
        if !self.snapshots.contains(path.as_str()) {
            let encoded = match content {
                Some(bytes) => Some(base64_encode(bytes.as_slice())),
                None => None,
            };
            let ghost before = self.snapshots@;
            let ghost key = path@;
            self.snapshots.insert(path, SnapshotEntry { original_b64: encoded });
            assert(self.snapshots@.remove(key) =~= before);
            assert(originals(self.snapshots@) =~= originals(before).insert(key, Ok(content_bytes(content))));
        }
    }

    /// The files that are not what they were before they were written to;
    /// `files` holds what the files with a snapshot hold now.
    pub fn diff(&self, files: &Table<Vec<u8>>) -> (r: Vec<FileDiff>)
        requires
            files.wf(),
        ensures
            diff_models(r@) == changed_files(
                self.workspace@,
                self.snapshots.entries@,
                files@,
                self.snapshots.entries@.len() as int,
            ),
    {
        let mut diffs: Vec<FileDiff> = Vec::new();
        assert(diff_models(diffs@) =~= seq![]);
        for i in 0..self.snapshots.entries.len()
            invariant
                files.wf(),
                diff_models(diffs@) == changed_files(
                    self.workspace@,
                    self.snapshots.entries@,
                    files@,
                    i as int,
                ),
        {
            let ghost before = diffs@;
            let path = &self.snapshots.entries[i].0;
            let original = match &self.snapshots.entries[i].1.original_b64 {
                Some(encoded) => match base64_decode(encoded.as_str()) {
                    Ok(bytes) => Some(lossy_string(bytes.as_slice())),
                    Err(_) => None,
                },
                None => None,
            };
            let current = match files.get(path.as_str()) {
                Some(bytes) => Some(lossy_string(bytes.as_slice())),
                None => None,
            };
            assert(opt_text(original) == snapshot_text(self.snapshots.entries@[i as int].1));
            assert(opt_text(current) == file_text(files@, path@));
            if !same_opt_text(&original, &current) {
                let d = FileDiff {
                    path: relative_display(self.workspace.as_str(), path.as_str()),
                    before: original,
                    after: current,
                };
                let ghost m = d@;
                diffs.push(d);
                assert(diff_models(diffs@) =~= diff_models(before).push(m));
            }
        }
        diffs
    }

    /// How the file of snapshot `i` is put back.
    pub fn revert_step(&self, i: usize) -> (r: Result<Restore, AgentError>)
        requires
            i < self.snapshots.entries@.len(),
        ensures
            match original(self.snapshots.entries@[i as int].1) {
                Ok(Some(bytes)) => r matches Ok(Restore::Write(b)) && b@ == bytes,
                Ok(None) => r matches Ok(Restore::Remove),
                Err(e) => r matches Err(AgentError::Session(m)) && m@ == "快照解码失败："@ + e,
            },
    {
        match &self.snapshots.entries[i].1.original_b64 {
            Some(encoded) => match base64_decode(encoded.as_str()) {
                Ok(bytes) => Ok(Restore::Write(bytes)),
                Err(error) => {
                    let mut e = copy_str("快照解码失败：");
                    e.append(error.as_str());
                    Err(AgentError::Session(e))
                },
            },
            None => Ok(Restore::Remove),
        }
    }

    /// The end of putting the files back: the snapshots are dropped. The result
    /// names the files.
    pub fn revert(&mut self) -> (r: Vec<String>)
        ensures
            texts(r@) == shown_paths(old(self).workspace@, old(self).snapshots.entries@),
            final(self).wf(),
            final(self).snapshots.entries@.len() == 0,
            final(self).history() == old(self).history(),
            final(self).same_session(*old(self)),
    {
        let mut restored: Vec<String> = Vec::new();
        let n: usize = self.snapshots.entries.len();
        for i in 0..n
            invariant
                *self == *old(self),
                n == self.snapshots.entries@.len(),
                restored@.len() == i,
                forall|j: int|
                    0 <= j < i ==> (#[trigger] restored@[j])@ == shown_path(
                        self.workspace@,
                        self.snapshots.entries@[j].0@,
                    ),
        {
            restored.push(relative_display(self.workspace.as_str(), self.snapshots.entries[i].0.as_str()));
        }
        assert(texts(restored@) =~= shown_paths(self.workspace@, self.snapshots.entries@));
        self.snapshots = Table::new();
        self.updated_at = now_text();
        restored
    }

    /// A session of its own that takes over the messages up to and with the one
    /// at `message_index`, or all of them where there are fewer.
    pub fn fork(&self, message_index: usize) -> (r: Session)
        requires
            self.messages@.len() > 0,
        ensures
            r.wf(),
            is_id(r.id@),
            r.workspace == self.workspace,
            r.model == self.model,
            r.system_prompt == self.system_prompt,
            r.history() == (History {
                messages: self.history().messages.take(fork_end(self.messages@.len(), message_index) + 1),
                redo: Seq::<Seq<ChatModel>>::empty(),
                message_redo: Seq::<Seq<ChatModel>>::empty(),
            }),
            r.snapshots.entries@.len() == 0,
            r.created_at@ == r.updated_at@,
            opt_text(r.parent_id) == Some(self.id@),
            r.fork_point == Some(fork_end(self.messages@.len(), message_index) as usize),
            r.title is None,
            !r.archived,
            !r.pinned,
    {
        let last: usize = self.messages.len() - 1;
        let end: usize = if message_index < last {
            message_index
        } else {
            last
        };
        let now = now_text();
        let messages = copy_messages(&self.messages, 0, end + 1);
        let r = Session {
            id: random_id(),
            workspace: self.workspace.clone(),
            model: self.model.clone(),
            system_prompt: self.system_prompt.clone(),
            messages,
            snapshots: Table::new(),
            created_at: now.clone(),
            updated_at: now,
            parent_id: Some(self.id.clone()),
            fork_point: Some(end),
            redo_stack: Vec::new(),
            message_redo_stack: Vec::new(),
            title: None,
            archived: false,
            pinned: false,
        };
        proof {
            assert(r.history().messages =~= self.history().messages.take(end + 1));
            assert(r.history().redo =~= Seq::<Seq<ChatModel>>::empty());
            assert(r.history().message_redo =~= Seq::<Seq<ChatModel>>::empty());
        }
        r
    }

    /// Goes back to the first `keep` messages and drops the snapshots; the result
    /// is what was cut off. Nothing changes where there are no more messages.
    pub fn rewind(&mut self, keep: usize) -> (r: Vec<ChatMessage>)
        requires
            old(self).wf(),
        ensures
            final(self).wf(),
            final(self).history() == rewound(old(self).history(), keep as int),
            final(self).same_session(*old(self)),
            if keep < old(self).messages@.len() {
                &&& chat_model(r@) == old(self).history().messages.skip(keep as int)
                &&& final(self).snapshots.entries@.len() == 0
            } else {
                &&& r@.len() == 0
                &&& *final(self) == *old(self)
            },
    {
        if keep >= self.messages.len() {
            return Vec::new();
        }
        let ghost before = self.history();
        let removed = self.messages.split_off(keep);
        let kept = copy_all(&removed);
        let ghost cut = chat_model(removed@);
        self.redo_stack.push(kept);
        self.snapshots = Table::new();
        self.updated_at = now_text();
        proof {
            assert(self.history().messages =~= before.messages.take(keep as int));
            assert(cut =~= before.messages.skip(keep as int));
            assert(self.history().redo =~= before.redo.push(cut));
        }
        removed
    }

    /// Puts back what was cut off last.
    pub fn redo(&mut self) -> (r: Option<Vec<ChatMessage>>)
        ensures
            final(self).history() == redone(old(self).history()),
            final(self).same_session(*old(self)),
            final(self).snapshots == old(self).snapshots,
            match r {
                Some(tail) => old(self).history().redo.len() > 0 && chat_model(tail@) == old(
                    self,
                ).history().redo.last(),
                None => old(self).history().redo.len() == 0 && final(self).updated_at == old(self).updated_at,
            },
    {
        let ghost before = self.history();
        match self.redo_stack.pop() {
            Some(tail) => {
                let mut more = copy_all(&tail);
                let ghost added = more@;
                self.messages.append(&mut more);
                self.updated_at = now_text();
                proof {
                    assert(stack_model(old(self).redo_stack@).last() == chat_model(tail@));
                    assert(self.history().messages =~= before.messages + chat_model(tail@)) by {
                        assert(self.messages@ =~= old(self).messages@ + added);
                        assert(chat_model(old(self).messages@ + added) =~= chat_model(old(self).messages@) + chat_model(
                            added,
                        ));
                    }
                    assert(self.history().redo =~= before.redo.drop_last());
                }
                Some(tail)
            },
            None => None,
        }
    }

    /// Takes back the last `count` messages; the result is what was taken back.
    /// Nothing changes where there is nothing to take back.
    pub fn undo_message(&mut self, count: usize) -> (r: Option<Vec<ChatMessage>>)
        ensures
            final(self).history() == undone(old(self).history(), count as int),
            final(self).same_session(*old(self)),
            final(self).snapshots == old(self).snapshots,
            match r {
                Some(removed) => taken(old(self).history(), count as int) > 0 && chat_model(removed@) == old(
                    self,
                ).history().messages.skip(old(self).messages@.len() - taken(old(self).history(), count as int)),
                None => taken(old(self).history(), count as int) == 0 && *final(self) == *old(self),
            },
    {
        let ghost before = self.history();
        let n: usize = if count < self.messages.len() {
            count
        } else {
            self.messages.len()
        };
        if n == 0 {
            return None;
        }
        let split_at: usize = self.messages.len() - n;
        let removed = self.messages.split_off(split_at);
        let kept = copy_all(&removed);
        let ghost cut = chat_model(removed@);
        self.message_redo_stack.push(kept);
        self.updated_at = now_text();
        proof {
            assert(self.history().messages =~= before.messages.take(split_at as int));
            assert(cut =~= before.messages.skip(split_at as int));
            assert(self.history().message_redo =~= before.message_redo.push(cut));
        }
        Some(removed)
    }

    /// Puts back the messages that were taken back last.
    pub fn redo_message(&mut self) -> (r: Option<Vec<ChatMessage>>)
        ensures
            final(self).history() == message_redone(old(self).history()),
            final(self).same_session(*old(self)),
            final(self).snapshots == old(self).snapshots,
            match r {
                Some(tail) => old(self).history().message_redo.len() > 0 && chat_model(tail@) == old(
                    self,
                ).history().message_redo.last(),
                None => old(self).history().message_redo.len() == 0 && final(self).updated_at == old(self).updated_at,
            },
    {
        let ghost before = self.history();
        match self.message_redo_stack.pop() {
            Some(tail) => {
                let mut more = copy_all(&tail);
                let ghost added = more@;
                self.messages.append(&mut more);
                self.updated_at = now_text();
                proof {
                    assert(stack_model(old(self).message_redo_stack@).last() == chat_model(tail@));
                    assert(self.history().messages =~= before.messages + chat_model(tail@)) by {
                        assert(self.messages@ =~= old(self).messages@ + added);
                        assert(chat_model(old(self).messages@ + added) =~= chat_model(old(self).messages@) + chat_model(
                            added,
                        ));
                    }
                    assert(self.history().message_redo =~= before.message_redo.drop_last());
                }
                Some(tail)
            },
            None => None,
        }
    }
}

/// The last message that a session that is split off takes over.
pub open spec fn fork_end(messages: nat, message_index: usize) -> int {
    if message_index < messages {
        message_index as int
    } else {
        messages - 1
    }
}

/// The content of a file in base64.
pub open spec fn encoded_content(content: Option<&Vec<u8>>) -> Option<Seq<char>> {
    match content {
        Some(bytes) => Some(base64_encoded(bytes@)),
        None => None,
    }
}

/// The bytes of a file.
pub open spec fn content_bytes(content: Option<&Vec<u8>>) -> Option<Seq<u8>> {
    match content {
        Some(bytes) => Some(bytes@),
        None => None,
    }
}

/// Files, with what they held before they were first written to.
pub struct Work {
    pub files: Map<Seq<char>, Seq<u8>>,
    pub originals: Originals,
}

/// What a file holds; nothing where there is none.
pub open spec fn held(files: Map<Seq<char>, Seq<u8>>, path: Seq<char>) -> Option<Seq<u8>> {
    if files.contains_key(path) {
        Some(files[path])
    } else {
        None
    }
}

/// A file is written to, behind a snapshot of it.
pub open spec fn written(w: Work, path: Seq<char>, content: Seq<u8>) -> Work {
    Work {
        files: w.files.insert(path, content),
        originals: snapshot_taken(w.originals, path, held(w.files, path)),
    }
}

/// Files are written to one after the other.
pub open spec fn all_written(w: Work, writes: Seq<(Seq<char>, Seq<u8>)>) -> Work
    decreases writes.len(),
{
    if writes.len() == 0 {
        w
    } else {
        written(all_written(w, writes.drop_last()), writes.last().0, writes.last().1)
    }
}

/// The files when each that has a snapshot is written back, or removed where
/// there was none.
pub open spec fn put_back(w: Work) -> Map<Seq<char>, Seq<u8>> {
    Map::new(
        |p: Seq<char>|
            if w.originals.contains_key(p) {
                w.originals[p] matches Ok(Some(_))
            } else {
                w.files.contains_key(p)
            },
        |p: Seq<char>|
            if w.originals.contains_key(p) {
                w.originals[p]->Ok_0->0
            } else {
                w.files[p]
            },
    )
}

proof fn writes_keep_originals(files: Map<Seq<char>, Seq<u8>>, writes: Seq<(Seq<char>, Seq<u8>)>, p: Seq<char>)
    ensures
        ({
            let w = all_written(Work { files, originals: Map::empty() }, writes);
            if w.originals.contains_key(p) {
                w.originals[p] == Ok::<Option<Seq<u8>>, Seq<char>>(held(files, p))
            } else {
                held(w.files, p) == held(files, p)
            }
        }),
    decreases writes.len(),
{
    if writes.len() > 0 {
        writes_keep_originals(files, writes.drop_last(), p);
    }
}

/// However often which files were written to, putting them back leaves what was
/// there before the first write.
pub proof fn undo_brings_back_all(files: Map<Seq<char>, Seq<u8>>, writes: Seq<(Seq<char>, Seq<u8>)>)
    ensures
        put_back(all_written(Work { files, originals: Map::empty() }, writes)) == files,
{
    let w = all_written(Work { files, originals: Map::empty() }, writes);
    let back = put_back(w);
    assert forall|p: Seq<char>|
        #![trigger back.dom().contains(p)]
        #![trigger files.dom().contains(p)]
        back.dom().contains(p) == files.dom().contains(p) && (files.dom().contains(p) ==> back[p] == files[p]) by {
        writes_keep_originals(files, writes, p);
        if w.originals.contains_key(p) {
            assert(w.originals[p] == Ok::<Option<Seq<u8>>, Seq<char>>(held(files, p)));
        } else {
            assert(held(w.files, p) == held(files, p));
        }
    }
    assert(back.dom() =~= files.dom());
    assert(back =~= files);
}

/// Going back and putting back what was cut off restores the history.
pub proof fn redo_undoes_rewind(h: History, keep: int)
    requires
        0 <= keep < h.messages.len(),
    ensures
        redone(rewound(h, keep)) == h,
{
    let r = redone(rewound(h, keep));
    assert(r.messages =~= h.messages);
    assert(r.redo =~= h.redo);
}

/// Taking back messages and putting them back restores the history.
pub proof fn redo_message_undoes_undo(h: History, count: int)
    requires
        count > 0,
        h.messages.len() > 0,
    ensures
        message_redone(undone(h, count)) == h,
{
    let r = message_redone(undone(h, count));
    assert(r.messages =~= h.messages);
    assert(r.message_redo =~= h.message_redo);
}

/// A session that is split off begins as the one it was split off from.
pub proof fn fork_is_prefix(messages: Seq<ChatModel>, message_index: usize)
    requires
        messages.len() > 0,
    ensures
        ({
            let kept = messages.take(fork_end(messages.len(), message_index) + 1);
            &&& kept.len() > 0
            &&& kept.len() <= messages.len()
            &&& forall|i: int| 0 <= i < kept.len() ==> kept[i] == messages[i]
            &&& message_index >= messages.len() - 1 ==> kept == messages
        }),
{
    let kept = messages.take(fork_end(messages.len(), message_index) + 1);
    if message_index >= messages.len() - 1 {
        assert(kept =~= messages);
    }
}

// ---------------------------------------------------------------------------
// Listing
// ---------------------------------------------------------------------------

/// The name of the file that a session is kept in.
pub fn session_file_name(id: &str) -> (r: String)
    ensures
        r@ == id@ + ".json"@,
{
    let mut r = copy_str(id);
    r.append(".json");
    r
}

/// The session that is kept in a file.
pub fn session_id_of(file_name: &str) -> (r: Option<String>)
    ensures
        match r {
            Some(id) => before_suffix(file_name@, ".json"@) == Some(id@),
            None => before_suffix(file_name@, ".json"@) is None,
        },
{
    strip_suffix(file_name, ".json")
}

/// The file of a session names it.
pub proof fn file_name_names_session(id: Seq<char>)
    ensures
        before_suffix(id + ".json"@, ".json"@) == Some(id),
{
    let name = id + ".json"@;
    assert(name.skip(name.len() - ".json"@.len()) =~= ".json"@);
    assert(name.take(name.len() - ".json"@.len()) =~= id);
}

/// Keeps each session in a file of its own below a folder.
pub struct JsonSessionStore {
    pub root: String,
}

impl JsonSessionStore {
    pub fn new(root: &str) -> (r: JsonSessionStore)
        ensures
            r.root@ == root@,
    {
        JsonSessionStore { root: copy_str(root) }
    }

    /// The file of a session.
    pub fn path(&self, id: &str) -> (r: String)
        ensures
            r@ == below(self.root@, id@ + ".json"@),
    {
        join_below(self.root.as_str(), session_file_name(id).as_str())
    }

    /// The file that a session is first written to when it is saved.
    pub fn temporary_path(&self, id: &str) -> (r: String)
        ensures
            r@ == below(self.root@, id@ + ".tmp"@),
    {
        let mut name = copy_str(id);
        name.append(".tmp");
        join_below(self.root.as_str(), name.as_str())
    }
}

/// No two sessions share a file, and none is kept where another is first
/// written to.
pub proof fn files_are_apart(root: Seq<char>, a: Seq<char>, b: Seq<char>)
    requires
        a.len() > 0 ==> a[0] != '/',
        b.len() > 0 ==> b[0] != '/',
    ensures
        below(root, a + ".json"@) == below(root, b + ".json"@) ==> a == b,
        below(root, a + ".json"@) != below(root, b + ".tmp"@),
{
    let x = below(root, a + ".json"@);
    let y = below(root, b + ".json"@);
    let z = below(root, b + ".tmp"@);
    reveal_strlit(".json");
    reveal_strlit(".tmp");
    let head = below(root, seq![]);
    assert(x =~= head + a + ".json"@);
    assert(y =~= head + b + ".json"@);
    assert(z =~= head + b + ".tmp"@);
    if x == y {
        assert(a.len() == b.len());
        assert forall|i: int| 0 <= i < a.len() implies a[i] == b[i] by {
            assert(x[head.len() + i] == a[i]);
            assert(y[head.len() + i] == b[i]);
        }
        assert(a =~= b);
    }
    assert(x.last() == 'n');
    assert(z.last() == 'p');
}

/// A session with the time of its last change.
pub struct DatedSession {
    pub id: String,
    pub updated_at: String,
}

/// Where `x` goes among sessions with the latest first: behind all that are as
/// late or later.
pub open spec fn place(v: Seq<DatedSession>, x: DatedSession, i: int) -> int
    decreases v.len() - i,
{
    if i >= v.len() || text_less(v[i].updated_at@, x.updated_at@) {
        i
    } else {
        place(v, x, i + 1)
    }
}

/// The sessions with the latest first; of those with the same time the one that
/// came first.
pub open spec fn latest_first(v: Seq<DatedSession>) -> Seq<DatedSession>
    decreases v.len(),
{
    if v.len() == 0 {
        seq![]
    } else {
        let front = latest_first(v.drop_last());
        front.insert(place(front, v.last(), 0), v.last())
    }
}

pub open spec fn dated_ids(v: Seq<DatedSession>) -> Seq<Seq<char>> {
    v.map_values(|s: DatedSession| s.id@)
}

/// Lists sessions with the latest first.
pub fn list_sessions(sessions: Vec<DatedSession>) -> (r: Vec<String>)
    ensures
        texts(r@) == dated_ids(latest_first(sessions@)),
{
    let ghost all = sessions@;
    let mut rest = sessions;
    let mut sorted: Vec<DatedSession> = Vec::new();
    let ghost mut n: int = 0;
    while rest.len() > 0
        invariant
            0 <= n <= all.len(),
            rest@ == all.skip(n),
            sorted@ == latest_first(all.take(n)),
        decreases rest@.len(),
    {
        let x = rest.remove(0);
        proof {
            assert(x == all[n]);
            assert(rest@ =~= all.skip(n + 1));
            assert(all.take(n + 1).drop_last() =~= all.take(n));
            n = n + 1;
        }
        let mut i: usize = 0;
        while i < sorted.len() && !less_text(sorted[i].updated_at.as_str(), x.updated_at.as_str())
            invariant
                i <= sorted@.len(),
                place(sorted@, x, 0) == place(sorted@, x, i as int),
            decreases sorted@.len() - i,
        {
            i += 1;
        }
        sorted.insert(i, x);
    }
    assert(all.take(n) =~= all);
    let mut ids: Vec<String> = Vec::new();
    for i in 0..sorted.len()
        invariant
            ids@.len() == i,
            forall|j: int| 0 <= j < i ==> (#[trigger] ids@[j])@ == sorted@[j].id@,
    {
        ids.push(sorted[i].id.clone());
    }
    assert(texts(ids@) =~= dated_ids(sorted@));
    ids
}

proof fn place_bounds(v: Seq<DatedSession>, x: DatedSession, i: int)
    requires
        0 <= i <= v.len(),
    ensures
        i <= place(v, x, i) <= v.len(),
        forall|j: int| i <= j < place(v, x, i) ==> !text_less((#[trigger] v[j]).updated_at@, x.updated_at@),
        place(v, x, i) < v.len() ==> text_less(v[place(v, x, i)].updated_at@, x.updated_at@),
    decreases v.len() - i,
{
    if !(i >= v.len() || text_less(v[i].updated_at@, x.updated_at@)) {
        place_bounds(v, x, i + 1);
    }
}

/// Every session is listed, as often as it was given, and none that is later
/// than one before it.
pub proof fn listing_is_ordered(v: Seq<DatedSession>)
    ensures
        latest_first(v).len() == v.len(),
        latest_first(v).to_multiset() == v.to_multiset(),
        forall|i: int, j: int|
            0 <= i < j < v.len() ==> !text_less(
                (#[trigger] latest_first(v)[i]).updated_at@,
                (#[trigger] latest_first(v)[j]).updated_at@,
            ),
    decreases v.len(),
{
    if v.len() == 0 {
        assert(latest_first(v) =~= v);
    } else {
        let front = latest_first(v.drop_last());
        let x = v.last();
        listing_is_ordered(v.drop_last());
        place_bounds(front, x, 0);
        let k = place(front, x, 0);
        let after = front.insert(k, x);
        after.to_multiset_ensures();
        assert(after.remove(k) =~= front);
        assert(after[k] == x);
        assert(after.to_multiset().remove(x) =~= front.to_multiset());
        v.to_multiset_ensures();
        assert(v.remove(v.len() - 1) =~= v.drop_last());
        assert(v[v.len() - 1] == x);
        assert(v.to_multiset().remove(x) =~= v.drop_last().to_multiset());
        assert(after.contains(x));
        assert(v.contains(x));
        assert(after.to_multiset().count(x) > 0);
        assert(v.to_multiset().count(x) > 0);
        assert(after.to_multiset() =~= front.to_multiset().insert(x));
        assert(v.to_multiset() =~= v.drop_last().to_multiset().insert(x));
        assert forall|i: int, j: int| 0 <= i < j < after.len() implies !text_less(
            (#[trigger] after[i]).updated_at@,
            (#[trigger] after[j]).updated_at@,
        ) by {
            let i2 = if i < k { i } else { i - 1 };
            let j2 = if j < k { j } else { j - 1 };
            if i == k {
                assert(text_less(front[k].updated_at@, x.updated_at@));
                if j2 > k {
                    assert(!text_less(front[k].updated_at@, front[j2].updated_at@));
                }
                text_order(x.updated_at@, front[j2].updated_at@, front[k].updated_at@);
                text_order(front[j2].updated_at@, x.updated_at@, front[k].updated_at@);
                text_order(front[k].updated_at@, x.updated_at@, front[j2].updated_at@);
            } else if j == k {
                assert(!text_less(front[i2].updated_at@, x.updated_at@));
            } else {
                assert(after[i] == front[i2] && after[j] == front[j2]);
            }
        }
    }
}

// ---------------------------------------------------------------------------
// Sessions in a database
// ---------------------------------------------------------------------------

/// The columns that the table of sessions did not have at first, with what they
/// hold.
pub open spec fn later_columns() -> Seq<(Seq<char>, Seq<char>)> {
    seq![
        ("message_redo_json"@, "TEXT NOT NULL DEFAULT '[]'"@),
        ("title"@, "TEXT"@),
        ("archived"@, "INTEGER NOT NULL DEFAULT 0"@),
        ("pinned"@, "INTEGER NOT NULL DEFAULT 0"@),
    ]
}

/// The first `n` of those columns, as far as they are missing.
pub open spec fn missing_columns(existing: Seq<Seq<char>>, n: int) -> Seq<(Seq<char>, Seq<char>)>
    decreases n,
{
    if n <= 0 {
        seq![]
    } else if existing.contains(later_columns()[n - 1].0) {
        missing_columns(existing, n - 1)
    } else {
        missing_columns(existing, n - 1).push(later_columns()[n - 1])
    }
}

/// What columns say.
pub open spec fn column_models(v: Seq<(String, String)>) -> Seq<(Seq<char>, Seq<char>)> {
    v.map_values(|c: (String, String)| (c.0@, c.1@))
}

/// The columns that are to be added to a table of sessions, so that it has all.
pub fn ensure_session_columns(existing: &Vec<String>) -> (r: Vec<(String, String)>)
    ensures
        column_models(r@) == missing_columns(texts(existing@), 4),
{
    let mut all: Vec<(String, String)> = Vec::new();
    all.push((copy_str("message_redo_json"), copy_str("TEXT NOT NULL DEFAULT '[]'")));
    all.push((copy_str("title"), copy_str("TEXT")));
    all.push((copy_str("archived"), copy_str("INTEGER NOT NULL DEFAULT 0")));
    all.push((copy_str("pinned"), copy_str("INTEGER NOT NULL DEFAULT 0")));
    let mut r: Vec<(String, String)> = Vec::new();
    assert(column_models(r@) =~= missing_columns(texts(existing@), 0));
    for i in 0..all.len()
        invariant
            all@.len() == 4,
            column_models(all@) =~= later_columns(),
            column_models(r@) == missing_columns(texts(existing@), i as int),
    {
        let ghost before = column_models(r@);
        assert(column_models(all@)[i as int] == later_columns()[i as int]);
        if !contains_string(existing, all[i].0.as_str()) {
            r.push((all[i].0.clone(), all[i].1.clone()));
            assert(column_models(r@) =~= before.push(later_columns()[i as int]));
        }
    }
    r
}

/// A table that has got what was missing misses nothing.
pub proof fn added_columns_are_enough(existing: Seq<Seq<char>>)
    ensures
        missing_columns(
            existing + missing_columns(existing, 4).map_values(|c: (Seq<char>, Seq<char>)| c.0),
            4,
        ).len() == 0,
{
    reveal_with_fuel(missing_columns, 5);
    let added = missing_columns(existing, 4).map_values(|c: (Seq<char>, Seq<char>)| c.0);
    let all = existing + added;
    assert forall|i: int| 0 <= i < 4 implies all.contains(#[trigger] later_columns()[i].0) by {
        let name = later_columns()[i].0;
        if existing.contains(name) {
            let j = choose|j: int| 0 <= j < existing.len() && existing[j] == name;
            assert(all[j] == name);
        } else {
            column_is_added(existing, i, 4);
            let j = choose|j: int|
                0 <= j < missing_columns(existing, 4).len() && #[trigger] missing_columns(existing, 4)[j]
                    == later_columns()[i];
            assert(added[j] == name);
            assert(all[existing.len() + j] == name);
        }
    }
    assert(all.contains(later_columns()[0].0));
    assert(all.contains(later_columns()[1].0));
    assert(all.contains(later_columns()[2].0));
    assert(all.contains(later_columns()[3].0));
}

proof fn column_is_added(existing: Seq<Seq<char>>, i: int, n: int)
    requires
        0 <= i < n <= 4,
        !existing.contains(later_columns()[i].0),
    ensures
        exists|j: int|
            0 <= j < missing_columns(existing, n).len() && #[trigger] missing_columns(existing, n)[j]
                == later_columns()[i],
    decreases n,
{
    let m = missing_columns(existing, n);
    if i == n - 1 {
        assert(m[m.len() - 1] == later_columns()[i]);
    } else {
        column_is_added(existing, i, n - 1);
        let before = missing_columns(existing, n - 1);
        let j = choose|j: int| 0 <= j < before.len() && #[trigger] before[j] == later_columns()[i];
        assert(m[j] == later_columns()[i]);
    }
}

/// Going back leaves as many messages as asked for, the first ones, and puts the
/// others aside; putting messages back appends what was put aside last. A stack that
/// is not meant stays as it is.
pub proof fn going_back_keeps_the_first(h: History, keep: nat)
    ensures
        keep < h.messages.len() ==> {
            let r = rewound(h, keep as int);
            &&& r.messages.len() == keep
            &&& forall|i: int| 0 <= i < keep ==> #[trigger] r.messages[i] == h.messages[i]
            &&& r.redo.len() == h.redo.len() + 1
            &&& r.redo.take(h.redo.len() as int) == h.redo
            &&& r.messages + r.redo.last() == h.messages
            &&& r.message_redo == h.message_redo
        },
        keep >= h.messages.len() ==> rewound(h, keep as int) == h,
        h.redo.len() > 0 ==> {
            let r = redone(h);
            &&& r.messages.len() == h.messages.len() + h.redo.last().len()
            &&& r.messages.take(h.messages.len() as int) == h.messages
            &&& r.messages.skip(h.messages.len() as int) == h.redo.last()
            &&& r.redo.push(h.redo.last()) == h.redo
            &&& r.message_redo == h.message_redo
        },
        h.redo.len() == 0 ==> redone(h) == h,
{
    if keep < h.messages.len() {
        let r = rewound(h, keep as int);
        assert(r.redo.take(h.redo.len() as int) =~= h.redo);
        assert(r.messages + r.redo.last() =~= h.messages);
    }
    if h.redo.len() > 0 {
        let r = redone(h);
        assert(r.messages.take(h.messages.len() as int) =~= h.messages);
        assert(r.messages.skip(h.messages.len() as int) =~= h.redo.last());
        assert(r.redo.push(h.redo.last()) =~= h.redo);
    }
}

/// Taking messages back takes as many of the last as asked for, or all where there
/// are fewer, and puts them aside together; putting them back appends them.
pub proof fn taking_back_takes_the_last(h: History, count: nat)
    ensures
        ({
            let r = undone(h, count as int);
            let n = if count < h.messages.len() { count } else { h.messages.len() };
            &&& r.messages.len() == h.messages.len() - n
            &&& forall|i: int| 0 <= i < r.messages.len() ==> #[trigger] r.messages[i] == h.messages[i]
            &&& n > 0 ==> r.message_redo.len() == h.message_redo.len() + 1 && r.message_redo.take(
                h.message_redo.len() as int,
            ) == h.message_redo && r.messages + r.message_redo.last() == h.messages
            &&& n == 0 ==> r == h
            &&& r.redo == h.redo
        }),
        h.message_redo.len() > 0 ==> {
            let r = message_redone(h);
            &&& r.messages.take(h.messages.len() as int) == h.messages
            &&& r.messages.skip(h.messages.len() as int) == h.message_redo.last()
            &&& r.message_redo.push(h.message_redo.last()) == h.message_redo
            &&& r.redo == h.redo
        },
        h.message_redo.len() == 0 ==> message_redone(h) == h,
{
    let r = undone(h, count as int);
    if count > 0 && h.messages.len() > 0 {
        assert(r.message_redo.take(h.message_redo.len() as int) =~= h.message_redo);
        assert(r.messages + r.message_redo.last() =~= h.messages);
    }
    if h.message_redo.len() > 0 {
        let q = message_redone(h);
        assert(q.messages.take(h.messages.len() as int) =~= h.messages);
        assert(q.messages.skip(h.messages.len() as int) =~= h.message_redo.last());
        assert(q.message_redo.push(h.message_redo.last()) =~= h.message_redo);
    }
}

/// A session is split off behind the message that was named; where there is no such
/// message, behind the last.
pub proof fn fork_ends_at_the_message(messages: nat, message_index: usize)
    requires
        messages > 0,
    ensures
        message_index < messages ==> fork_end(messages, message_index) == message_index,
        message_index >= messages ==> fork_end(messages, message_index) == messages - 1,
{
}

/// The first snapshot of a file counts, and a snapshot of one file leaves those of
/// the others.
pub proof fn the_first_snapshot_counts(m: Originals, path: Seq<char>, other: Seq<char>, a: Option<Seq<u8>>, b: Option<Seq<u8>>)
    requires
        !m.contains_key(path),
    ensures
        snapshot_taken(m, path, a).contains_key(path) && snapshot_taken(m, path, a)[path] == Ok::<
            Option<Seq<u8>>,
            Seq<char>,
        >(a),
        snapshot_taken(snapshot_taken(m, path, a), path, b) == snapshot_taken(m, path, a),
        other != path ==> (snapshot_taken(m, path, a).contains_key(other) <==> m.contains_key(other)) && (m.contains_key(
            other,
        ) ==> snapshot_taken(m, path, a)[other] == m[other]),
{
}

/// What a snapshot of a file that was there holds is what its encoding stands for;
/// without an encoding there was no file.
pub proof fn snapshots_hold_what_was_there(s: SnapshotEntry, encoded: String, bytes: Seq<u8>)
    ensures
        s.original_b64 is None ==> original(s) == Ok::<Option<Seq<u8>>, Seq<char>>(None) && snapshot_text(s) is None,
        s.original_b64 == Some(encoded) && base64_decoded(encoded@) == Ok::<Seq<u8>, Seq<char>>(bytes) ==> original(s)
            == Ok::<Option<Seq<u8>>, Seq<char>>(Some(bytes)) && snapshot_text(s) == Some(lossy_text(bytes)),
        s.original_b64 == Some(encoded) && base64_decoded(encoded@) is Err ==> original(s) is Err,
{
}

/// A file is shown as changed exactly if its text differs from that of its snapshot,
/// with both texts; a file that is gone or new has only one.
pub proof fn changes_are_differences(
    workspace: Seq<char>,
    snapshots: Seq<(String, SnapshotEntry)>,
    files: Map<Seq<char>, Vec<u8>>,
    n: int,
)
    requires
        0 <= n < snapshots.len(),
    ensures
        changed_files(workspace, snapshots, files, 0).len() == 0,
        ({
            let front = changed_files(workspace, snapshots, files, n);
            let all = changed_files(workspace, snapshots, files, n + 1);
            let path = snapshots[n].0@;
            let now = if files.contains_key(path) { Some(lossy_text(files[path]@)) } else { None };
            &&& snapshot_text(snapshots[n].1) == now ==> all == front
            &&& snapshot_text(snapshots[n].1) != now ==> all.len() == front.len() + 1 && all.drop_last() == front
                && all.last().before == snapshot_text(snapshots[n].1) && all.last().after == now && all.last().path
                == shown_path(workspace, path)
        }),
{
    let front = changed_files(workspace, snapshots, files, n);
    let all = changed_files(workspace, snapshots, files, n + 1);
    if all != front {
        assert(all.drop_last() =~= front);
    }
}

/// A path in the workspace is shown from the workspace on; another is shown as it is.
pub proof fn paths_are_shown_from_the_workspace(workspace: Seq<char>, rest: Seq<char>, path: Seq<char>)
    requires
        !workspace.contains('\\'),
        !rest.contains('\\'),
        !path.contains('\\'),
        rest.len() > 0 ==> rest[0] != '/',
        !begins_with(workspace, "//?/"@),
        !begins_with(workspace + "/"@ + rest, "//?/"@),
        !begins_with(path, "//?/"@),
    ensures
        shown_path(workspace, workspace + "/"@ + rest) == rest,
        !begins_with(path, workspace) ==> shown_path(workspace, path) == path,
{
    reveal_strlit("/");
    let full = workspace + "/"@ + rest;
    assert(!full.contains('\\')) by {
        if full.contains('\\') {
            let i = choose|i: int| 0 <= i < full.len() && full[i] == '\\';
            if i < workspace.len() {
                assert(workspace[i] == '\\');
            } else if i > workspace.len() {
                assert(rest[i - workspace.len() - 1] == '\\');
            }
        }
    }
    without_backslashes(workspace);
    without_backslashes(full);
    without_backslashes(path);
    assert(full.take(workspace.len() as int) =~= workspace);
    let behind = full.skip(workspace.len() as int);
    assert(behind =~= seq!['/'] + rest);
    assert(behind.skip(1) =~= rest);
    reveal_with_fuel(without_leading, 2);
}

proof fn without_backslashes(s: Seq<char>)
    requires
        !s.contains('\\'),
    ensures
        slashed(s) == s,
{
    assert forall|i: int| 0 <= i < s.len() implies #[trigger] slashed(s)[i] == s[i] by {
        if s[i] == '\\' {
            assert(s.contains('\\'));
        }
    }
    assert(slashed(s) =~= s);
}

/// A table of sessions gets exactly the columns that it lacks of those that came
/// later, each with its type.
pub proof fn missing_columns_are_added(existing: Seq<Seq<char>>, i: int)
    requires
        0 <= i < 4,
    ensures
        ({
            let missing = missing_columns(existing, 4);
            let names = seq!["message_redo_json"@, "title"@, "archived"@, "pinned"@];
            &&& existing.contains(names[i]) ==> forall|j: int| 0 <= j < missing.len() ==> (#[trigger] missing[j]).0 != names[i]
            &&& !existing.contains(names[i]) ==> exists|j: int| 0 <= j < missing.len() && (#[trigger] missing[j]).0 == names[i]
        }),
{
    reveal_strlit("message_redo_json");
    reveal_strlit("title");
    reveal_strlit("archived");
    reveal_strlit("pinned");
    assert("message_redo_json"@.len() == 17 && "title"@.len() == 5 && "archived"@.len() == 8 && "pinned"@.len() == 6);
    let cs = later_columns();
    let names = seq!["message_redo_json"@, "title"@, "archived"@, "pinned"@];
    assert(cs[0].0 == names[0] && cs[1].0 == names[1] && cs[2].0 == names[2] && cs[3].0 == names[3]);
    missing_upto(existing, 4);
    let missing = missing_columns(existing, 4);
    if !existing.contains(names[i]) {
        assert(missing.contains(cs[i]));
        let j = choose|j: int| 0 <= j < missing.len() && missing[j] == cs[i];
        assert(missing[j].0 == names[i]);
    }
}

proof fn missing_upto(existing: Seq<Seq<char>>, n: int)
    requires
        0 <= n <= 4,
    ensures
        forall|j: int|
            0 <= j < missing_columns(existing, n).len() ==> !existing.contains(
                (#[trigger] missing_columns(existing, n)[j]).0,
            ),
        forall|i: int|
            0 <= i < n && !existing.contains((#[trigger] later_columns()[i]).0) ==> missing_columns(existing, n).contains(
                later_columns()[i],
            ),
    decreases n,
{
    if n > 0 {
        missing_upto(existing, n - 1);
        let front = missing_columns(existing, n - 1);
        let all = missing_columns(existing, n);
        assert forall|i: int| 0 <= i < n && !existing.contains((#[trigger] later_columns()[i]).0) implies all.contains(
            later_columns()[i],
        ) by {
            if i < n - 1 {
                let j = choose|j: int| 0 <= j < front.len() && front[j] == later_columns()[i];
                assert(all[j] == later_columns()[i]);
            } else {
                assert(all[all.len() - 1] == later_columns()[i]);
            }
        }
        assert forall|j: int| 0 <= j < all.len() implies !existing.contains((#[trigger] all[j]).0) by {
            if j < front.len() {
                assert(all[j] == front[j]);
            }
        }
    }
}

/// Going back and forth in a conversation leaves the rest of the session as it was: two
/// states of a session whose messages, stacks, snapshots and date agree are equal.
pub proof fn the_rest_of_a_session_stays(a: Session, b: Session, c: Session)
    ensures
        a.same_session(a),
        a.same_session(b) ==> b.same_session(a),
        a.same_session(b) && b.same_session(c) ==> a.same_session(c),
        a.same_session(b) && a.messages == b.messages && a.snapshots == b.snapshots && a.updated_at == b.updated_at
            && a.redo_stack == b.redo_stack && a.message_redo_stack == b.message_redo_stack ==> a == b,
{
}

} // verus!

//! Learning by demonstration: recorded actions become action graphs, and
//! action graphs become packages of flow skills. Sensitive surfaces are never
//! recorded.

use crate::audit::opt_text;
use crate::text::{
    begins_with, below, contains_string, copy_str, decimal, decimal_injective, decimal_text, find_text, finishes_with,
    first_at, first_position_is_first, has_any, has_text, in_order, is_ascii_alnum, join_below, occurs_at,
    parts_stand_in_the_whole, pieces, pieces_make_up_the_text, pieces_not_empty, pieces_of_two, same_text, slice,
    sort_strings, split_char, starts_with, texts, trim, trim_start, trimmed, trimmed_start,
};
use vstd::prelude::*;

verus! {

/// What an action does.
#[derive(Debug, Clone, Copy, PartialEq, Eq, Structural)]
pub enum ActionType {
    Click,
    Type,
    Shortcut,
    Inject,
}

/// What an action is done to, found by role and name.
pub struct SemanticAnchor {
    pub app_id: Option<String>,
    pub role: Option<String>,
    pub name: String,
}

/// Copies an optional string.
pub fn copy_opt(s: &Option<String>) -> (r: Option<String>)
    ensures
        r == *s,
{
    match s {
        Some(t) => Some(t.clone()),
        None => None,
    }
}

impl Clone for SemanticAnchor {
    fn clone(&self) -> (r: SemanticAnchor)
        ensures
            r == *self,
    {
        SemanticAnchor { app_id: copy_opt(&self.app_id), role: copy_opt(&self.role), name: self.name.clone() }
    }
}

/// An action in a graph.
pub struct ActionNode {
    pub id: String,
    pub action_type: ActionType,
    pub anchor: SemanticAnchor,
    /// The value with variables in braces, filled in when the action is done.
    pub value_template: Option<String>,
    /// What has changed once the action was done.
    pub verify: Option<String>,
}

impl Clone for ActionNode {
    fn clone(&self) -> (r: ActionNode)
        ensures
            r == *self,
    {
        ActionNode {
            id: self.id.clone(),
            action_type: self.action_type,
            anchor: self.anchor.clone(),
            value_template: copy_opt(&self.value_template),
            verify: copy_opt(&self.verify),
        }
    }
}

/// The order of two actions.
pub struct ActionEdge {
    pub from: String,
    pub to: String,
    pub precondition: Option<String>,
    pub verify: Option<String>,
}

impl Clone for ActionEdge {
    fn clone(&self) -> (r: ActionEdge)
        ensures
            r == *self,
    {
        ActionEdge {
            from: self.from.clone(),
            to: self.to.clone(),
            precondition: copy_opt(&self.precondition),
            verify: copy_opt(&self.verify),
        }
    }
}

/// Actions and their order.
pub struct ActionGraph {
    pub version: u32,
    pub start: String,
    pub nodes: Vec<ActionNode>,
    pub edges: Vec<ActionEdge>,
}

impl Clone for ActionGraph {
    fn clone(&self) -> (r: ActionGraph)
        ensures
            r.version == self.version,
            r.start == self.start,
            r.nodes@ == self.nodes@,
            r.edges@ == self.edges@,
    {
        let mut nodes: Vec<ActionNode> = Vec::new();
        for i in 0..self.nodes.len()
            invariant
                nodes@ == self.nodes@.take(i as int),
        {
            nodes.push(self.nodes[i].clone());
            assert(self.nodes@.take(i + 1) =~= self.nodes@.take(i as int).push(self.nodes@[i as int]));
        }
        assert(nodes@ =~= self.nodes@);
        let mut edges: Vec<ActionEdge> = Vec::new();
        for i in 0..self.edges.len()
            invariant
                edges@ == self.edges@.take(i as int),
        {
            edges.push(self.edges[i].clone());
            assert(self.edges@.take(i + 1) =~= self.edges@.take(i as int).push(self.edges@[i as int]));
        }
        assert(edges@ =~= self.edges@);
        ActionGraph { version: self.version, start: self.start.clone(), nodes, edges }
    }
}

impl Default for ActionGraph {
    fn default() -> (r: ActionGraph)
        ensures
            r.version == 1,
            r.start@.len() == 0,
            r.nodes@.len() == 0,
            r.edges@.len() == 0,
    {
        ActionGraph::new()
    }
}

/// The names of the nodes.
pub open spec fn node_ids(nodes: Seq<ActionNode>) -> Seq<Seq<char>> {
    nodes.map_values(|n: ActionNode| n.id@)
}

/// The position of the first name that stands earlier too, or `-1`.
pub open spec fn first_repeat(ids: Seq<Seq<char>>, from: int) -> int
    decreases ids.len() - from,
{
    if from < 0 || from >= ids.len() {
        -1
    } else if ids.take(from).contains(ids[from]) {
        from
    } else {
        first_repeat(ids, from + 1)
    }
}

/// The position of the first edge that leads from or to a node that is not
/// there, or `-1`.
pub open spec fn first_loose(edges: Seq<ActionEdge>, ids: Seq<Seq<char>>, from: int) -> int
    decreases edges.len() - from,
{
    if from < 0 || from >= edges.len() {
        -1
    } else if !ids.contains(edges[from].from@) || !ids.contains(edges[from].to@) {
        from
    } else {
        first_loose(edges, ids, from + 1)
    }
}

/// What is wrong with a graph, if anything.
pub open spec fn graph_fault(g: ActionGraph) -> Option<Seq<char>> {
    let ids = node_ids(g.nodes@);
    let rep = first_repeat(ids, 0);
    let loose = first_loose(g.edges@, ids, 0);
    if g.nodes@.len() == 0 {
        Some("动作图没有节点"@)
    } else if !ids.contains(g.start@) {
        Some("起始节点不存在："@ + g.start@)
    } else if rep >= 0 {
        Some("重复节点 id："@ + ids[rep])
    } else if loose >= 0 {
        Some("边引用不存在的节点："@ + g.edges@[loose].from@ + " -> "@ + g.edges@[loose].to@)
    } else {
        None
    }
}

/// The names in braces of the pieces that follow an opening brace, in turn;
/// empty names and names that were there before are passed over.
pub open spec fn names_after(vars: Seq<Seq<char>>, tokens: Seq<Seq<char>>) -> Seq<Seq<char>>
    decreases tokens.len(),
{
    if tokens.len() == 0 {
        vars
    } else {
        let front = names_after(vars, tokens.drop_last());
        let name = name_in(tokens.last());
        if name.len() > 0 && !front.contains(name) {
            front.push(name)
        } else {
            front
        }
    }
}

/// The name before the closing brace; nothing where there is no such brace.
#[verifier::opaque]
pub open spec fn name_in(token: Seq<char>) -> Seq<char> {
    let end = first_at(token, "}"@);
    if end < 0 {
        Seq::empty()
    } else {
        trimmed(token.take(end))
    }
}

/// The variables of the first nodes.
pub open spec fn graph_variables(nodes: Seq<ActionNode>) -> Seq<Seq<char>>
    decreases nodes.len(),
{
    if nodes.len() == 0 {
        seq![]
    } else {
        let front = graph_variables(nodes.drop_last());
        match nodes.last().value_template {
            Some(t) => names_after(front, pieces(t@, '{').skip(1)),
            None => front,
        }
    }
}

impl ActionGraph {
    /// A graph without actions.
    pub fn new() -> (r: ActionGraph)
        ensures
            r.version == 1,
            r.start@.len() == 0,
            r.nodes@.len() == 0,
            r.edges@.len() == 0,
    {
        ActionGraph { version: 1, start: String::new(), nodes: Vec::new(), edges: Vec::new() }
    }

    /// Adds an action; the first one is where the graph starts.
    pub fn add_node(
        &mut self,
        id: &str,
        action_type: ActionType,
        anchor: SemanticAnchor,
        value_template: Option<String>,
        verify: Option<String>,
    )
        ensures
            final(self).version == old(self).version,
            final(self).edges == old(self).edges,
            final(self).start@ == (if old(self).start@.len() == 0 { id@ } else { old(self).start@ }),
            final(self).nodes@.len() == old(self).nodes@.len() + 1,
            final(self).nodes@.drop_last() == old(self).nodes@,
            ({
                let n = final(self).nodes@.last();
                n.id@ == id@ && n.action_type == action_type && n.anchor == anchor && n.value_template == value_template
                    && n.verify == verify
            }),
    {
        let ghost before = self.nodes@;
        if self.start.as_str().is_empty() {
            self.start = copy_str(id);
        }
        self.nodes.push(ActionNode { id: copy_str(id), action_type, anchor, value_template, verify });
        assert(self.nodes@.drop_last() =~= before);
    }

    /// Adds an order of two actions.
    pub fn add_edge(&mut self, from: &str, to: &str, precondition: Option<String>, verify: Option<String>)
        ensures
            final(self).version == old(self).version,
            final(self).start == old(self).start,
            final(self).nodes == old(self).nodes,
            final(self).edges@.len() == old(self).edges@.len() + 1,
            final(self).edges@.drop_last() == old(self).edges@,
            ({
                let e = final(self).edges@.last();
                e.from@ == from@ && e.to@ == to@ && e.precondition == precondition && e.verify == verify
            }),
    {
        let ghost before = self.edges@;
        self.edges.push(ActionEdge { from: copy_str(from), to: copy_str(to), precondition, verify });
        assert(self.edges@.drop_last() =~= before);
    }

    /// Whether the graph is sound: it has a node to start from, no two nodes of
    /// one name, and its edges join nodes that are there.
    pub fn validate(&self) -> (r: Result<(), String>)
        ensures
            match r {
                Ok(_) => graph_fault(*self) is None,
                Err(e) => graph_fault(*self) == Some(e@),
            },
    {
        let ghost ids = node_ids(self.nodes@);
        if self.nodes.len() == 0 {
            return Err(copy_str("动作图没有节点"));
        }
        let mut names: Vec<String> = Vec::new();
        for i in 0..self.nodes.len()
            invariant
                ids == node_ids(self.nodes@),
                texts(names@) == ids.take(i as int),
        {
            let ghost before = texts(names@);
            names.push(self.nodes[i].id.clone());
            assert(texts(names@) =~= before.push(ids[i as int]));
            assert(ids.take(i + 1) =~= ids.take(i as int).push(ids[i as int]));
        }
        assert(ids.take(ids.len() as int) =~= ids);
        if !contains_string(&names, self.start.as_str()) {
            let mut e = copy_str("起始节点不存在：");
            e.append(self.start.as_str());
            return Err(e);
        }
        let mut seen: Vec<String> = Vec::new();
        let mut i: usize = 0;
        while i < names.len()
            invariant
                i <= names@.len(),
                texts(names@) == ids,
                texts(seen@) == ids.take(i as int),
                first_repeat(ids, 0) == first_repeat(ids, i as int),
                ids == node_ids(self.nodes@),
                ids.contains(self.start@),
                self.nodes@.len() > 0,
            decreases names@.len() - i,
        {
            assert(ids[i as int] == names@[i as int]@);
            if contains_string(&seen, names[i].as_str()) {
                let mut e = copy_str("重复节点 id：");
                e.append(names[i].as_str());
                return Err(e);
            }
            let ghost before = texts(seen@);
            seen.push(names[i].clone());
            assert(texts(seen@) =~= before.push(ids[i as int]));
            assert(ids.take(i + 1) =~= ids.take(i as int).push(ids[i as int]));
            i += 1;
        }
        let mut k: usize = 0;
        while k < self.edges.len()
            invariant
                k <= self.edges@.len(),
                texts(names@) == ids,
                first_repeat(ids, 0) == -1,
                first_loose(self.edges@, ids, 0) == first_loose(self.edges@, ids, k as int),
                ids == node_ids(self.nodes@),
                ids.contains(self.start@),
                self.nodes@.len() > 0,
            decreases self.edges@.len() - k,
        {
            let edge = &self.edges[k];
            if !contains_string(&names, edge.from.as_str()) || !contains_string(&names, edge.to.as_str()) {
                let mut e = copy_str("边引用不存在的节点：");
                e.append(edge.from.as_str());
                e.append(" -> ");
                e.append(edge.to.as_str());
                return Err(e);
            }
            k += 1;
        }
        Ok(())
    }

    /// The names of the variables in the values, each once, in the order in which
    /// they first occur.
    pub fn variables(&self) -> (r: Vec<String>)
        ensures
            texts(r@) == graph_variables(self.nodes@),
    {
        let mut vars: Vec<String> = Vec::new();
        assert(texts(vars@) =~= seq![]);
        for i in 0..self.nodes.len()
            invariant
                texts(vars@) == graph_variables(self.nodes@.take(i as int)),
        {
            assert(self.nodes@.take(i + 1).drop_last() =~= self.nodes@.take(i as int));
            match &self.nodes[i].value_template {
                Some(t) => {
                    add_names(&mut vars, t.as_str());
                },
                None => {},
            }
        }
        assert(self.nodes@.take(self.nodes@.len() as int) =~= self.nodes@);
        vars
    }
}

fn name_before_brace(token: &str) -> (r: String)
    ensures
        r@ == name_in(token@),
{
    reveal(name_in);
    match find_text(token, "}") {
        Some(end) => {
            let inner = slice(token, 0, end);
            assert(inner@ =~= token@.take(end as int));
            trim(inner.as_str())
        },
        None => String::new(),
    }
}

/// Adds the names in braces of a value.
fn add_names(vars: &mut Vec<String>, template: &str)
    ensures
        texts(final(vars)@) == names_after(texts(old(vars)@), pieces(template@, '{').skip(1)),
{
    let parts = split_char(template, '{');
    let ghost tokens = texts(parts@).skip(1);
    let ghost start = texts(vars@);
    let n: usize = parts.len();
    assert(tokens.take(0) =~= seq![]);
    for i in 1..n
        invariant
            n == parts@.len(),
            tokens == texts(parts@).skip(1),
            texts(vars@) == names_after(start, tokens.take(i - 1)),
    {
        let ghost before = texts(vars@);
        proof {
            assert(tokens[i - 1] == texts(parts@)[i as int]);
            assert(tokens.take(i as int).drop_last() =~= tokens.take(i - 1));
            assert(tokens.take(i as int).last() == parts@[i as int]@);
        }
        let name = name_before_brace(parts[i].as_str());
        if !name.as_str().is_empty() && !contains_string(vars, name.as_str()) {
            let ghost t = name@;
            vars.push(name);
            assert(texts(vars@) =~= before.push(t));
        }
    }
    assert(tokens.take(n - 1) =~= tokens);
}

// ---------------------------------------------------------------------------
// Packages
// ---------------------------------------------------------------------------

/// How sensitive what a skill touches is.
#[derive(Debug, Clone, Copy, PartialEq, Eq, Structural)]
pub enum Sensitivity {
    /// Not declared.
    Undeclared,
    Low,
    Medium,
    High,
}

/// The description of a flow skill.
pub struct FlowSkillManifest {
    pub id: String,
    pub name: String,
    pub version: String,
    pub min_app_version: String,
    pub target_apps: Vec<String>,
    pub permissions: Vec<String>,
    pub variables: Vec<String>,
    pub sensitivity: Sensitivity,
}

/// A flow skill: its description, its graph and its text.
pub struct FlowSkillPackage {
    pub manifest: FlowSkillManifest,
    pub graph: ActionGraph,
    pub skill_md: String,
}

/// The first of `vars` that is not declared, or `-1`.
pub open spec fn first_undeclared(vars: Seq<Seq<char>>, declared: Seq<Seq<char>>, from: int) -> int
    decreases vars.len() - from,
{
    if from < 0 || from >= vars.len() {
        -1
    } else if !declared.contains(vars[from]) {
        from
    } else {
        first_undeclared(vars, declared, from + 1)
    }
}

/// What is wrong with a package, if anything.
pub open spec fn package_fault(p: FlowSkillPackage) -> Option<Seq<char>> {
    let vars = graph_variables(p.graph.nodes@);
    let undeclared = first_undeclared(vars, texts(p.manifest.variables@), 0);
    if p.manifest.id@.len() == 0 || p.manifest.name@.len() == 0 {
        Some("manifest 缺少 id/name"@)
    } else if p.manifest.target_apps@.len() == 0 {
        Some("manifest.target_apps 不能为空"@)
    } else if p.manifest.sensitivity is Undeclared {
        Some("manifest.sensitivity 必填"@)
    } else if graph_fault(p.graph) is Some {
        graph_fault(p.graph)
    } else if undeclared >= 0 {
        Some("动作图变量未在 manifest 声明："@ + vars[undeclared])
    } else if !begins_with(trimmed_start(p.skill_md@), "---"@) {
        Some("SKILL.md 缺少 frontmatter"@)
    } else {
        None
    }
}

impl FlowSkillPackage {
    /// Whether the package is complete and sound.
    pub fn validate(&self) -> (r: Result<(), String>)
        ensures
            match r {
                Ok(_) => package_fault(*self) is None,
                Err(e) => package_fault(*self) == Some(e@),
            },
    {
        if self.manifest.id.as_str().is_empty() || self.manifest.name.as_str().is_empty() {
            return Err(copy_str("manifest 缺少 id/name"));
        }
        if self.manifest.target_apps.len() == 0 {
            return Err(copy_str("manifest.target_apps 不能为空"));
        }
        if self.manifest.sensitivity == Sensitivity::Undeclared {
            return Err(copy_str("manifest.sensitivity 必填"));
        }
        match self.graph.validate() {
            Err(e) => {
                return Err(e);
            },
            Ok(_) => {},
        }
        let vars = self.graph.variables();
        let ghost all = graph_variables(self.graph.nodes@);
        let ghost declared = texts(self.manifest.variables@);
        let mut i: usize = 0;
        while i < vars.len()
            invariant
                i <= vars@.len(),
                texts(vars@) == all,
                all == graph_variables(self.graph.nodes@),
                declared == texts(self.manifest.variables@),
                first_undeclared(all, declared, 0) == first_undeclared(all, declared, i as int),
                self.manifest.id@.len() > 0 && self.manifest.name@.len() > 0,
                self.manifest.target_apps@.len() > 0,
                !(self.manifest.sensitivity is Undeclared),
                graph_fault(self.graph) is None,
            decreases vars@.len() - i,
        {
            assert(all[i as int] == vars@[i as int]@);
            if !contains_string(&self.manifest.variables, vars[i].as_str()) {
                let mut e = copy_str("动作图变量未在 manifest 声明：");
                e.append(vars[i].as_str());
                return Err(e);
            }
            i += 1;
        }
        let t = trim_start(self.skill_md.as_str());
        if !starts_with(t.as_str(), "---") {
            return Err(copy_str("SKILL.md 缺少 frontmatter"));
        }
        Ok(())
    }
}

/// A folder of packages: each has a folder of its own under the root.
pub struct FlowSkillStore {
    pub root: String,
}

/// `c` may stand in the name of a package.
pub open spec fn is_name_char(c: char) -> bool {
    is_ascii_alnum(c) || c == '-' || c == '_'
}

/// The name is fit for a package: it stays within the root.
pub open spec fn is_package_name(name: Seq<char>) -> bool {
    name.len() > 0 && forall|i: int| 0 <= i < name.len() ==> is_name_char(#[trigger] name[i])
}

/// An entry of the root folder.
pub struct FolderEntry {
    pub name: String,
    pub is_dir: bool,
    /// Whether it holds the text of a skill.
    pub has_skill: bool,
}

/// The names of the entries that are packages.
pub open spec fn package_names(v: Seq<FolderEntry>) -> Seq<Seq<char>>
    decreases v.len(),
{
    if v.len() == 0 {
        seq![]
    } else if v.last().is_dir && v.last().has_skill {
        package_names(v.drop_last()).push(v.last().name@)
    } else {
        package_names(v.drop_last())
    }
}

impl FlowSkillStore {
    pub fn new(root: &str) -> (r: FlowSkillStore)
        ensures
            r.root@ == root@,
    {
        FlowSkillStore { root: copy_str(root) }
    }

    /// The folder of a package. Names that could lead out of the root are refused.
    pub fn package_dir(&self, name: &str) -> (r: Result<String, String>)
        ensures
            match r {
                Ok(p) => is_package_name(name@) && p@ == below(self.root@, name@),
                Err(e) => !is_package_name(name@) && e@ == "非法技能名："@ + name@,
            },
    {
        let v = crate::text::chars_of(name);
        let mut fit = v.len() > 0;
        for i in 0..v.len()
            invariant
                v@ == name@,
                fit == (v@.len() > 0 && forall|j: int| 0 <= j < i ==> is_name_char(#[trigger] v@[j])),
        {
            let c = v[i];
            if !(('0' <= c && c <= '9') || ('a' <= c && c <= 'z') || ('A' <= c && c <= 'Z') || c == '-' || c == '_') {
                assert(!is_name_char(v@[i as int]));
                fit = false;
            }
        }
        if fit {
            Ok(join_below(self.root.as_str(), name))
        } else {
            let mut e = copy_str("非法技能名：");
            e.append(name);
            Err(e)
        }
    }

    /// The folder to remove with a package, of which the caller says whether it
    /// is there.
    pub fn delete(&self, name: &str, present: bool) -> (r: Result<String, String>)
        ensures
            match r {
                Ok(p) => is_package_name(name@) && present && p@ == below(self.root@, name@),
                Err(e) => if !is_package_name(name@) {
                    e@ == "非法技能名："@ + name@
                } else {
                    !present && e@ == "技能包不存在："@ + name@
                },
            },
    {
        match self.package_dir(name) {
            Err(e) => Err(e),
            Ok(p) => if present {
                Ok(p)
            } else {
                let mut e = copy_str("技能包不存在：");
                e.append(name);
                Err(e)
            },
        }
    }

    /// Where a package is saved: a package that is not sound or has no fit name
    /// is refused.
    pub fn save(&self, package: &FlowSkillPackage) -> (r: Result<String, String>)
        ensures
            save_answer(*self, *package, r),
    {
        match package.validate() {
            Err(e) => Err(e),
            Ok(_) => self.package_dir(package.manifest.name.as_str()),
        }
    }

    /// The names of the packages, sorted.
    pub fn list(entries: &Vec<FolderEntry>) -> (r: Vec<String>)
        ensures
            in_order(texts(r@)),
            texts(r@).to_multiset() == package_names(entries@).to_multiset(),
    {
        let mut names: Vec<String> = Vec::new();
        assert(texts(names@) =~= seq![]);
        for i in 0..entries.len()
            invariant
                texts(names@) == package_names(entries@.take(i as int)),
        {
            let ghost before = texts(names@);
            assert(entries@.take(i + 1).drop_last() =~= entries@.take(i as int));
            if entries[i].is_dir && entries[i].has_skill {
                names.push(entries[i].name.clone());
                assert(texts(names@) =~= before.push(entries@[i as int].name@));
            }
        }
        assert(entries@.take(entries@.len() as int) =~= entries@);
        sort_strings(names)
    }

    /// A package that was read, where it is sound.
    pub fn load(manifest: FlowSkillManifest, graph: ActionGraph, skill_md: String) -> (r: Result<FlowSkillPackage, String>)
        ensures
            ({
                let p = FlowSkillPackage { manifest, graph, skill_md };
                match r {
                    Ok(q) => q == p && package_fault(p) is None,
                    Err(e) => package_fault(p) == Some(e@),
                }
            }),
    {
        let package = FlowSkillPackage { manifest, graph, skill_md };
        match package.validate() {
            Ok(_) => Ok(package),
            Err(e) => Err(e),
        }
    }
}

/// The answer to a package that is to be saved.
pub open spec fn save_answer(store: FlowSkillStore, p: FlowSkillPackage, r: Result<String, String>) -> bool {
    match package_fault(p) {
        Some(f) => r matches Err(e) && e@ == f,
        None => if is_package_name(p.manifest.name@) {
            r matches Ok(d) && d@ == below(store.root@, p.manifest.name@)
        } else {
            r matches Err(e) && e@ == "非法技能名："@ + p.manifest.name@
        },
    }
}

// ---------------------------------------------------------------------------
// Recording
// ---------------------------------------------------------------------------

/// Whether actions are recorded.
#[derive(Debug, Clone, Copy, PartialEq, Eq, Structural)]
pub enum LearnState {
    Idle,
    Recording,
    Paused,
}

/// An action that was recorded. What was typed is not kept.
pub struct RecordedAction {
    pub app_id: String,
    pub anchor: SemanticAnchor,
    pub action_type: ActionType,
    pub value_masked: bool,
    /// Whether the surface was marked as sensitive.
    pub sensitive: bool,
    pub at: String,
}

impl Clone for RecordedAction {
    fn clone(&self) -> (r: RecordedAction)
        ensures
            r == *self,
    {
        RecordedAction {
            app_id: self.app_id.clone(),
            anchor: self.anchor.clone(),
            action_type: self.action_type,
            value_masked: self.value_masked,
            sensitive: self.sensitive,
            at: self.at.clone(),
        }
    }
}

/// The words that mark a sensitive surface.
pub open spec fn sensitive_words() -> Seq<Seq<char>> {
    seq!["password"@, "支付"@, "密码"@, "验证码"@, "captcha"@, "card"@]
}

/// The name or the role of the surface holds a word that marks it as sensitive.
pub open spec fn is_sensitive_anchor(a: SemanticAnchor) -> bool {
    has_any(a.name@, sensitive_words()) || (a.role matches Some(r) && has_any(r@, sensitive_words()))
}

/// The action may not be learnt.
pub open spec fn is_sensitive(a: RecordedAction) -> bool {
    a.sensitive || is_sensitive_anchor(a.anchor)
}

fn sensitive_list() -> (r: Vec<String>)
    ensures
        texts(r@) == sensitive_words(),
{
    let mut v: Vec<String> = Vec::new();
    v.push(copy_str("password"));
    v.push(copy_str("支付"));
    v.push(copy_str("密码"));
    v.push(copy_str("验证码"));
    v.push(copy_str("captcha"));
    v.push(copy_str("card"));
    assert(texts(v@) =~= sensitive_words());
    v
}

/// Whether the name or the role of a surface marks it as sensitive.
pub fn keyword_breaks(anchor: &SemanticAnchor) -> (r: bool)
    ensures
        r == is_sensitive_anchor(*anchor),
{
    let words = sensitive_list();
    if crate::text::contains_any(anchor.name.as_str(), &words) {
        return true;
    }
    match &anchor.role {
        Some(role) => crate::text::contains_any(role.as_str(), &words),
        None => false,
    }
}

/// Records actions while it is switched on.
pub struct LearnRecorder {
    pub state: LearnState,
    pub actions: Vec<RecordedAction>,
    pub sensitive_break: bool,
}

impl Default for LearnRecorder {
    fn default() -> (r: LearnRecorder)
        ensures
            r.state is Idle,
            r.actions@.len() == 0,
            !r.sensitive_break,
    {
        LearnRecorder::new()
    }
}

impl LearnRecorder {
    /// Nothing that was recorded is sensitive.
    pub open spec fn wf(self) -> bool {
        forall|i: int| 0 <= i < self.actions@.len() ==> !is_sensitive(#[trigger] self.actions@[i])
    }

    /// A recorder that is switched off.
    pub fn new() -> (r: LearnRecorder)
        ensures
            r.wf(),
            r.state is Idle,
            r.actions@.len() == 0,
            !r.sensitive_break,
    {
        LearnRecorder { state: LearnState::Idle, actions: Vec::new(), sensitive_break: false }
    }

    pub fn start(&mut self)
        ensures
            *final(self) == (LearnRecorder { state: LearnState::Recording, ..*old(self) }),
    {
        self.state = LearnState::Recording;
    }

    pub fn pause(&mut self)
        ensures
            *final(self) == (LearnRecorder {
                state: (if old(self).state is Recording { LearnState::Paused } else { old(self).state }),
                ..*old(self)
            }),
    {
        if self.state == LearnState::Recording {
            self.state = LearnState::Paused;
        }
    }

    pub fn resume(&mut self)
        ensures
            *final(self) == (LearnRecorder {
                state: (if old(self).state is Paused { LearnState::Recording } else { old(self).state }),
                ..*old(self)
            }),
    {
        if self.state == LearnState::Paused {
            self.state = LearnState::Recording;
        }
    }

    /// Switches the recorder off and hands out what was recorded.
    pub fn stop(&mut self) -> (r: Vec<RecordedAction>)
        ensures
            r@ == old(self).actions@,
            final(self).state is Idle,
            final(self).actions@.len() == 0,
            !final(self).sensitive_break,
    {
        self.state = LearnState::Idle;
        self.sensitive_break = false;
        let mut taken: Vec<RecordedAction> = Vec::new();
        std::mem::swap(&mut taken, &mut self.actions);
        taken
    }

    /// Forgets what was recorded.
    pub fn clear(&mut self)
        ensures
            final(self).state == old(self).state,
            final(self).actions@.len() == 0,
            !final(self).sensitive_break,
    {
        self.actions.clear();
        self.sensitive_break = false;
    }

    /// Records an action. Where the recorder is not switched on, and where the
    /// surface is sensitive, it is refused and nothing is kept of it.
    pub fn record(&mut self, action: RecordedAction) -> (r: Result<(), String>)
        ensures
            if !(old(self).state is Recording) {
                (r matches Err(e) && e@ == "未在录制（/learn start 开始）"@) && *final(self) == *old(self)
            } else if is_sensitive(action) {
                (r matches Err(e) && e@ == "敏感面熔断：密码/支付/验证码等场景不学习、不记录"@) && *final(self)
                    == (LearnRecorder { sensitive_break: true, ..*old(self) })
            } else {
                r is Ok && final(self).actions@ == old(self).actions@.push(action) && final(self).state
                    == old(self).state && final(self).sensitive_break == old(self).sensitive_break
            },
            old(self).wf() ==> final(self).wf(),
    {
        if self.state != LearnState::Recording {
            return Err(copy_str("未在录制（/learn start 开始）"));
        }
        if action.sensitive || keyword_breaks(&action.anchor) {
            self.sensitive_break = true;
            return Err(copy_str("敏感面熔断：密码/支付/验证码等场景不学习、不记录"));
        }
        self.actions.push(action);
        Ok(())
    }

    pub fn state(&self) -> (r: LearnState)
        ensures
            r == self.state,
    {
        self.state
    }

    pub fn actions(&self) -> (r: &Vec<RecordedAction>)
        ensures
            *r == self.actions,
    {
        &self.actions
    }

    /// The number of actions that were recorded.
    pub fn samples(&self) -> (r: usize)
        ensures
            r == self.actions@.len(),
    {
        self.actions.len()
    }

    /// Whether a sensitive surface was met.
    pub fn sensitive_break(&self) -> (r: bool)
        ensures
            r == self.sensitive_break,
    {
        self.sensitive_break
    }
}

// ---------------------------------------------------------------------------
// From recordings to graphs
// ---------------------------------------------------------------------------

/// The name of the action at position `i`.
pub open spec fn step_name(i: int) -> Seq<char> {
    "step-"@ + decimal((i + 1) as nat)
}

fn step_text(i: usize) -> (r: String)
    requires
        i < usize::MAX,
    ensures
        r@ == step_name(i as int),
{
    let mut s = copy_str("step-");
    let n = decimal_text((i + 1) as u64);
    s.append(n.as_str());
    s
}

/// Something is typed into the same surface by another of the actions.
pub open spec fn typed_again(v: Seq<RecordedAction>, i: int) -> bool {
    exists|j: int|
        0 <= j < v.len() && j != i && (#[trigger] v[j]).action_type is Type && v[j].anchor.name@ == v[i].anchor.name@
            && opt_text(v[j].anchor.role) == opt_text(v[i].anchor.role)
}

/// The node for the action at position `i`.
pub open spec fn is_node_for(n: ActionNode, v: Seq<RecordedAction>, i: int) -> bool {
    &&& n.id@ == step_name(i)
    &&& n.action_type == v[i].action_type
    &&& n.anchor == v[i].anchor
    &&& opt_text(n.value_template) == if v[i].action_type is Type && typed_again(v, i) {
        Some("{value}"@)
    } else {
        None
    }
    &&& n.verify is None
}

/// The edge from the action at position `i` to the next.
pub open spec fn is_edge_after(e: ActionEdge, i: int) -> bool {
    e.from@ == step_name(i) && e.to@ == step_name(i + 1) && e.precondition is None && e.verify is None
}

/// The graph of recorded actions: one node for each, in a row. What is typed
/// into the same surface more than once becomes a variable.
pub open spec fn is_graph_of(g: ActionGraph, v: Seq<RecordedAction>) -> bool {
    &&& g.version == 1
    &&& g.start@ == step_name(0)
    &&& g.nodes@.len() == v.len()
    &&& forall|i: int| 0 <= i < v.len() ==> is_node_for(#[trigger] g.nodes@[i], v, i)
    &&& g.edges@.len() == v.len() - 1
    &&& forall|i: int| 0 <= i < v.len() - 1 ==> is_edge_after(#[trigger] g.edges@[i], i)
}

proof fn no_repeat(ids: Seq<Seq<char>>, from: int)
    requires
        0 <= from,
        ids.no_duplicates(),
    ensures
        first_repeat(ids, from) == -1,
    decreases ids.len() - from,
{
    if from < ids.len() {
        if ids.take(from).contains(ids[from]) {
            let j = choose|j: int| 0 <= j < ids.take(from).len() && ids.take(from)[j] == ids[from];
            assert(ids[j] == ids[from]);
        }
        no_repeat(ids, from + 1);
    }
}

proof fn no_loose(edges: Seq<ActionEdge>, ids: Seq<Seq<char>>, from: int)
    requires
        0 <= from,
        forall|i: int| 0 <= i < edges.len() ==> ids.contains((#[trigger] edges[i]).from@) && ids.contains(edges[i].to@),
    ensures
        first_loose(edges, ids, from) == -1,
    decreases edges.len() - from,
{
    if from < edges.len() {
        no_loose(edges, ids, from + 1);
    }
}

/// A sensitive surface is never learnt: no node of a graph of recorded actions
/// stands for one.
pub proof fn sensitive_is_never_learnt(r: LearnRecorder, g: ActionGraph)
    requires
        r.wf(),
        is_graph_of(g, r.actions@),
    ensures
        forall|i: int| 0 <= i < g.nodes@.len() ==> !is_sensitive_anchor((#[trigger] g.nodes@[i]).anchor),
{
    assert forall|i: int| 0 <= i < g.nodes@.len() implies !is_sensitive_anchor((#[trigger] g.nodes@[i]).anchor) by {
        assert(is_node_for(g.nodes@[i], r.actions@, i));
        assert(!is_sensitive(r.actions@[i]));
    }
}

/// The graph of recorded actions is sound.
pub proof fn recorded_graph_is_sound(g: ActionGraph, v: Seq<RecordedAction>)
    requires
        v.len() > 0,
        is_graph_of(g, v),
    ensures
        graph_fault(g) is None,
{
    let ids = node_ids(g.nodes@);
    assert forall|i: int| 0 <= i < ids.len() implies #[trigger] ids[i] == step_name(i) by {
        assert(is_node_for(g.nodes@[i], v, i));
    }
    assert forall|i: int, j: int| 0 <= i < ids.len() && 0 <= j < ids.len() && i != j implies ids[i] != ids[j] by {
        if ids[i] == ids[j] {
            assert(step_name(i).skip("step-"@.len() as int) =~= decimal((i + 1) as nat));
            assert(step_name(j).skip("step-"@.len() as int) =~= decimal((j + 1) as nat));
            decimal_injective((i + 1) as nat, (j + 1) as nat);
        }
    }
    no_repeat(ids, 0);
    assert(ids[0] == step_name(0));
    assert forall|i: int| 0 <= i < g.edges@.len() implies ids.contains((#[trigger] g.edges@[i]).from@) && ids.contains(
        g.edges@[i].to@,
    ) by {
        assert(is_edge_after(g.edges@[i], i));
        assert(ids[i] == step_name(i));
        assert(ids[i + 1] == step_name(i + 1));
    }
    no_loose(g.edges@, ids, 0);
}

fn is_typed_again(v: &Vec<RecordedAction>, i: usize) -> (r: bool)
    requires
        i < v@.len(),
    ensures
        r == typed_again(v@, i as int),
{
    for j in 0..v.len()
        invariant
            i < v@.len(),
            forall|k: int|
                0 <= k < j && k != i ==> !((#[trigger] v@[k]).action_type is Type && v@[k].anchor.name@
                    == v@[i as int].anchor.name@ && opt_text(v@[k].anchor.role) == opt_text(v@[i as int].anchor.role)),
    {
        if j != i && v[j].action_type == ActionType::Type && same_text(
            v[j].anchor.name.as_str(),
            v[i].anchor.name.as_str(),
        ) && same_opt(&v[j].anchor.role, &v[i].anchor.role) {
            assert(v@[j as int].action_type is Type);
            return true;
        }
    }
    false
}

fn same_opt(a: &Option<String>, b: &Option<String>) -> (r: bool)
    ensures
        r == (opt_text(*a) == opt_text(*b)),
{
    match (a, b) {
        (Some(x), Some(y)) => same_text(x.as_str(), y.as_str()),
        (None, None) => true,
        _ => false,
    }
}

/// Makes a graph of recorded actions. Without actions, and where one of them is
/// sensitive, there is none.
pub fn generalize_to_graph(samples: &Vec<RecordedAction>) -> (r: Result<ActionGraph, String>)
    ensures
        match r {
            Ok(g) => samples@.len() > 0 && is_graph_of(g, samples@) && graph_fault(g) is None && forall|i: int|
                0 <= i < samples@.len() ==> !is_sensitive(#[trigger] samples@[i]),
            Err(e) => if samples@.len() == 0 {
                e@ == "没有录制样本"@
            } else {
                e@ == "样本含敏感面，已拒绝沉淀"@ && exists|i: int|
                    0 <= i < samples@.len() && is_sensitive(#[trigger] samples@[i])
            },
        },
{
    if samples.len() == 0 {
        return Err(copy_str("没有录制样本"));
    }
    let mut graph = ActionGraph::new();
    let n: usize = samples.len();
    for i in 0..n
        invariant
            n == samples@.len(),
            n > 0,
            graph.version == 1,
            graph.edges@.len() == 0,
            graph.nodes@.len() == i,
            i == 0 ==> graph.start@.len() == 0,
            i > 0 ==> graph.start@ == step_name(0),
            forall|j: int| 0 <= j < i ==> is_node_for(#[trigger] graph.nodes@[j], samples@, j),
            forall|j: int| 0 <= j < i ==> !is_sensitive(#[trigger] samples@[j]),
    {
        let action = &samples[i];
        if action.sensitive || keyword_breaks(&action.anchor) {
            assert(is_sensitive(samples@[i as int]));
            return Err(copy_str("样本含敏感面，已拒绝沉淀"));
        }
        let value_template = if action.action_type == ActionType::Type && is_typed_again(samples, i) {
            Some(copy_str("{value}"))
        } else {
            None
        };
        let id = step_text(i);
        let ghost before = graph.nodes@;
        graph.add_node(id.as_str(), action.action_type, action.anchor.clone(), value_template, None);
        proof {
            if i > 0 {
                reveal_strlit("step-");
                assert(step_name(0).len() > 0);
            }
            assert forall|j: int| 0 <= j < i + 1 implies is_node_for(#[trigger] graph.nodes@[j], samples@, j) by {
                if j < i {
                    assert(graph.nodes@.drop_last()[j] == before[j]);
                } else {
                    assert(graph.nodes@[j] == graph.nodes@.last());
                }
            }
        }
    }
    for i in 0..n - 1
        invariant
            n == samples@.len(),
            n > 0,
            graph.version == 1,
            graph.start@ == step_name(0),
            graph.nodes@.len() == n,
            forall|j: int| 0 <= j < n ==> is_node_for(#[trigger] graph.nodes@[j], samples@, j),
            graph.edges@.len() == i,
            forall|j: int| 0 <= j < i ==> is_edge_after(#[trigger] graph.edges@[j], j),
    {
        let from = step_text(i);
        let to = step_text(i + 1);
        let ghost before = graph.edges@;
        graph.add_edge(from.as_str(), to.as_str(), None, None);
        assert forall|j: int| 0 <= j < i + 1 implies is_edge_after(#[trigger] graph.edges@[j], j) by {
            if j < i {
                assert(graph.edges@.drop_last()[j] == before[j]);
            } else {
                assert(graph.edges@[j] == graph.edges@.last());
            }
        }
    }
    proof {
        recorded_graph_is_sound(graph, samples@);
    }
    Ok(graph)
}

/// From recording to package.
pub struct LearnPipeline {
    pub recorder: LearnRecorder,
    pub store: FlowSkillStore,
    pub last_samples: Vec<RecordedAction>,
}

/// The text of a skill that was learnt.
pub open spec fn learned_text(name: Seq<char>, description: Seq<char>) -> Seq<char> {
    "---\nname: "@ + name + "\ndescription: "@ + description + "\n---\n由示范学习自动生成，可编辑。"@
}

/// The package of a skill that was learnt.
pub open spec fn is_learned(
    p: FlowSkillPackage,
    samples: Seq<RecordedAction>,
    name: Seq<char>,
    target_apps: Vec<String>,
    sensitivity: Sensitivity,
    description: Seq<char>,
) -> bool {
    &&& is_graph_of(p.graph, samples)
    &&& p.manifest.id@ == "com.owo.learned."@ + name
    &&& p.manifest.name@ == name
    &&& p.manifest.version@ == "1.0.0"@
    &&& p.manifest.min_app_version@ == "0.4.0"@
    &&& p.manifest.target_apps == target_apps
    &&& texts(p.manifest.permissions@) == seq!["ui:operate"@, "text:inject"@]
    &&& texts(p.manifest.variables@) == graph_variables(p.graph.nodes@)
    &&& p.manifest.sensitivity == sensitivity
    &&& p.skill_md@ == learned_text(name, description)
}

impl LearnPipeline {
    pub fn new(store_root: &str) -> (r: LearnPipeline)
        ensures
            r.recorder.state is Idle,
            r.recorder.actions@.len() == 0,
            !r.recorder.sensitive_break,
            r.store.root@ == store_root@,
            r.last_samples@.len() == 0,
    {
        LearnPipeline {
            recorder: LearnRecorder::new(),
            store: FlowSkillStore::new(store_root),
            last_samples: Vec::new(),
        }
    }

    /// Stops recording and keeps what was recorded for a package.
    pub fn stop_recording(&mut self) -> (r: Vec<RecordedAction>)
        ensures
            r@ == old(self).recorder.actions@,
            final(self).last_samples@ == r@,
            final(self).recorder.state is Idle,
            final(self).recorder.actions@.len() == 0,
            !final(self).recorder.sensitive_break,
            final(self).store == old(self).store,
    {
        let samples = self.recorder.stop();
        let mut kept: Vec<RecordedAction> = Vec::new();
        for i in 0..samples.len()
            invariant
                kept@ == samples@.take(i as int),
        {
            kept.push(samples[i].clone());
            assert(samples@.take(i + 1) =~= samples@.take(i as int).push(samples@[i as int]));
        }
        assert(kept@ =~= samples@);
        self.last_samples = kept;
        samples
    }

    /// What a package is made of: the actions that were kept, or else those that
    /// are recorded.
    pub open spec fn material(self) -> Seq<RecordedAction> {
        if self.last_samples@.len() == 0 {
            self.recorder.actions@
        } else {
            self.last_samples@
        }
    }

    /// Makes a package of what was recorded; it is used up, whatever comes of it.
    /// Returns the package and the folder to save it in.
    pub fn sink_skill(
        &mut self,
        name: &str,
        target_apps: Vec<String>,
        sensitivity: Sensitivity,
        description: &str,
    ) -> (r: Result<(FlowSkillPackage, String), String>)
        ensures
            final(self).store == old(self).store,
            final(self).last_samples@.len() == 0,
            old(self).last_samples@.len() == 0 ==> final(self).recorder.state is Idle
                && final(self).recorder.actions@.len() == 0 && !final(self).recorder.sensitive_break,
            old(self).last_samples@.len() > 0 ==> final(self).recorder == old(self).recorder,
            ({
                let v = old(self).material();
                match r {
                    Ok((p, dir)) => is_learned(p, v, name@, target_apps, sensitivity, description@) && save_answer(
                        old(self).store,
                        p,
                        Ok(dir),
                    ),
                    Err(e) => if v.len() == 0 {
                        e@ == "没有录制样本"@
                    } else if exists|i: int| 0 <= i < v.len() && is_sensitive(#[trigger] v[i]) {
                        e@ == "样本含敏感面，已拒绝沉淀"@
                    } else {
                        exists|p: FlowSkillPackage|
                            is_learned(p, v, name@, target_apps, sensitivity, description@) && #[trigger] save_answer(
                                old(self).store,
                                p,
                                Err(e),
                            )
                    },
                }
            }),
            r is Ok <==> {
                let v = old(self).material();
                &&& v.len() > 0
                &&& forall|i: int| 0 <= i < v.len() ==> !is_sensitive(#[trigger] v[i])
                &&& is_package_name(name@)
                &&& target_apps@.len() > 0
                &&& !(sensitivity is Undeclared)
            },
    {
        let ghost v = self.material();
        let samples = if self.last_samples.len() == 0 {
            self.recorder.stop()
        } else {
            let mut taken: Vec<RecordedAction> = Vec::new();
            std::mem::swap(&mut taken, &mut self.last_samples);
            taken
        };
        assert(samples@ == v);
        let graph = match generalize_to_graph(&samples) {
            Ok(g) => g,
            Err(e) => {
                return Err(e);
            },
        };
        let variables = graph.variables();
        let mut id = copy_str("com.owo.learned.");
        id.append(name);
        let mut permissions: Vec<String> = Vec::new();
        permissions.push(copy_str("ui:operate"));
        permissions.push(copy_str("text:inject"));
        assert(texts(permissions@) =~= seq!["ui:operate"@, "text:inject"@]);
        let mut skill_md = copy_str("---\nname: ");
        skill_md.append(name);
        skill_md.append("\ndescription: ");
        skill_md.append(description);
        skill_md.append("\n---\n由示范学习自动生成，可编辑。");
        let package = FlowSkillPackage {
            manifest: FlowSkillManifest {
                id,
                name: copy_str(name),
                version: copy_str("1.0.0"),
                min_app_version: copy_str("0.4.0"),
                target_apps,
                permissions,
                variables,
                sensitivity,
            },
            graph,
            skill_md,
        };
        proof {
            learned_faults(package, v, name@, target_apps, sensitivity, description@);
        }
        match self.store.save(&package) {
            Ok(dir) => Ok((package, dir)),
            Err(e) => {
                assert(save_answer(self.store, package, Err(e)));
                Err(e)
            },
        }
    }
}

/// A package that was learnt is sound exactly where it has a name, applications
/// and a declared sensitivity.
proof fn learned_faults(
    p: FlowSkillPackage,
    v: Seq<RecordedAction>,
    name: Seq<char>,
    target_apps: Vec<String>,
    sensitivity: Sensitivity,
    description: Seq<char>,
)
    requires
        v.len() > 0,
        is_learned(p, v, name, target_apps, sensitivity, description),
    ensures
        package_fault(p) is None <==> name.len() > 0 && target_apps@.len() > 0 && !(sensitivity is Undeclared),
{
    recorded_graph_is_sound(p.graph, v);
    all_declared(graph_variables(p.graph.nodes@), 0);
    reveal_strlit("com.owo.learned.");
    reveal_strlit("---\nname: ");
    reveal_strlit("---");
    let t = p.skill_md@;
    assert(t[0] == '-');
    assert(trimmed_start(t) == t);
    assert(t.take(3) =~= "---"@);
}

proof fn all_declared(vars: Seq<Seq<char>>, from: int)
    requires
        0 <= from,
    ensures
        first_undeclared(vars, vars, from) == -1,
    decreases vars.len() - from,
{
    if from < vars.len() {
        assert(vars.contains(vars[from]));
        all_declared(vars, from + 1);
    }
}

/// The name of a package never leads out of its root: it holds no separator and
/// is not the folder above.
pub proof fn package_names_stay_below(name: Seq<char>)
    requires
        is_package_name(name),
    ensures
        !name.contains('/'),
        !name.contains('\\'),
        !name.contains('.'),
{
    assert forall|i: int| 0 <= i < name.len() implies name[i] != '/' && name[i] != '\\' && name[i] != '.' by {
        assert(is_name_char(name[i]));
    }
}

// ---------------------------------------------------------------------------
// Laws of variables
// ---------------------------------------------------------------------------

/// `name` stands in the template in braces that open at `a` and close at `b`: no
/// other brace stands between them, and without the white space around it what does
/// is the name.
pub open spec fn in_braces(t: Seq<char>, a: int, b: int, name: Seq<char>) -> bool {
    &&& 0 <= a < b < t.len()
    &&& t[a] == '{' && t[b] == '}'
    &&& forall|i: int| a < i < b ==> #[trigger] t[i] != '{' && t[i] != '}'
    &&& trimmed(t.subrange(a + 1, b)) == name
    &&& name.len() > 0
}

proof fn pieces_behind(n: Seq<char>, z: Seq<char>, c: char)
    requires
        !n.contains(c),
    ensures
        pieces(n + z, c).len() == pieces(z, c).len(),
        pieces(z, c).len() > 0,
        pieces(n + z, c)[0] == n + pieces(z, c)[0],
    decreases z.len(),
{
    pieces_not_empty(z, c);
    if z.len() == 0 {
        assert(n + z =~= n);
        pieces_of_two(n, seq![], c);
        assert(n + pieces(z, c)[0] =~= n);
    } else {
        pieces_behind(n, z.drop_last(), c);
        pieces_not_empty(z.drop_last(), c);
        assert((n + z).drop_last() =~= n + z.drop_last());
        assert((n + z).last() == z.last());
        let front = pieces(z.drop_last(), c);
        if z.last() != c && front.len() == 1 {
            assert((n + front[0]).push(z.last()) =~= n + front[0].push(z.last()));
        }
    }
}

proof fn place_of_piece(s: Seq<char>, c: char, j: int) -> (a: int)
    requires
        1 <= j < pieces(s, c).len(),
    ensures
        0 <= a < s.len(),
        s[a] == c,
        a + 1 + pieces(s, c)[j].len() <= s.len(),
        s.subrange(a + 1, a + 1 + pieces(s, c)[j].len()) == pieces(s, c)[j],
        j == pieces(s, c).len() - 1 ==> a + 1 + pieces(s, c)[j].len() == s.len(),
    decreases s.len(),
{
    let ps = pieces(s, c);
    let r = s.drop_last();
    let front = pieces(r, c);
    pieces_not_empty(r, c);
    if s.last() == c {
        if j == ps.len() - 1 {
            assert(s.subrange(s.len() as int, s.len() as int) =~= ps[j]);
            s.len() - 1
        } else {
            let a = place_of_piece(r, c, j);
            assert(s.subrange(a + 1, a + 1 + ps[j].len()) =~= r.subrange(a + 1, a + 1 + ps[j].len()));
            a
        }
    } else {
        let a = place_of_piece(r, c, j);
        if j == ps.len() - 1 {
            assert(ps[j] == front[j].push(s.last()));
            assert(s.subrange(a + 1, a + 1 + ps[j].len()) =~= r.subrange(a + 1, a + 1 + front[j].len()).push(s.last()));
        } else {
            assert(s.subrange(a + 1, a + 1 + ps[j].len()) =~= r.subrange(a + 1, a + 1 + ps[j].len()));
        }
        a
    }
}

proof fn closing_brace(token: Seq<char>, e: int)
    requires
        0 <= e < token.len(),
        token[e] == '}',
        forall|i: int| 0 <= i < e ==> #[trigger] token[i] != '}',
    ensures
        first_at(token, "}"@) == e,
        name_in(token) == trimmed(token.take(e)),
{
    reveal(name_in);
    reveal_strlit("}");
    let p = "}"@;
    assert(token.subrange(e, e + 1) =~= p);
    assert(occurs_at(token, p, e));
    first_position_is_first(token, p, e);
    let f = first_at(token, p);
    assert(token.subrange(f, f + 1)[0] == token[f]);
    assert(token[f] == '}');
}

proof fn open_name(token: Seq<char>) -> (e: int)
    requires
        name_in(token).len() > 0,
    ensures
        0 <= e < token.len(),
        token[e] == '}',
        forall|i: int| 0 <= i < e ==> #[trigger] token[i] != '}',
        name_in(token) == trimmed(token.take(e)),
{
    reveal(name_in);
    reveal_strlit("}");
    let p = "}"@;
    let f = first_at(token, p);
    first_position_is_first(token, p, f);
    assert(token.subrange(f, f + 1)[0] == token[f]);
    assert forall|i: int| 0 <= i < f implies #[trigger] token[i] != '}' by {
        first_position_is_first(token, p, i);
        if token[i] == '}' {
            assert(token.subrange(i, i + 1) =~= p);
        }
    }
    f
}

proof fn names_are_kept(vars: Seq<Seq<char>>, tokens: Seq<Seq<char>>, name: Seq<char>)
    ensures
        names_after(vars, tokens).contains(name) <==> vars.contains(name) || (name.len() > 0 && exists|j: int|
            0 <= j < tokens.len() && name_in(#[trigger] tokens[j]) == name),
        vars.no_duplicates() ==> names_after(vars, tokens).no_duplicates(),
        vars.is_prefix_of(names_after(vars, tokens)),
    decreases tokens.len(),
{
    if tokens.len() == 0 {
        assert(vars =~= vars.subrange(0, vars.len() as int));
    } else {
        let rest = tokens.drop_last();
        let front = names_after(vars, rest);
        let last = name_in(tokens.last());
        names_are_kept(vars, rest, name);
        assert(tokens[tokens.len() - 1] == tokens.last());
        let all = names_after(vars, tokens);
        assert(all == front || all == front.push(last));
        assert(vars =~= all.subrange(0, vars.len() as int)) by {
            assert(vars =~= front.subrange(0, vars.len() as int));
        }
        if front.contains(name) {
            let i = choose|i: int| 0 <= i < front.len() && front[i] == name;
            assert(all[i] == name);
        }
        if exists|j: int| 0 <= j < rest.len() && name_in(#[trigger] rest[j]) == name {
            let j = choose|j: int| 0 <= j < rest.len() && name_in(#[trigger] rest[j]) == name;
            assert(tokens[j] == rest[j]);
        }
        if exists|j: int| 0 <= j < tokens.len() && name_in(#[trigger] tokens[j]) == name {
            let j = choose|j: int| 0 <= j < tokens.len() && name_in(#[trigger] tokens[j]) == name;
            if j < rest.len() {
                assert(rest[j] == tokens[j]);
            } else if name.len() > 0 && !front.contains(last) {
                assert(all[front.len() as int] == name);
            }
        }
        if all.contains(name) {
            let i = choose|i: int| 0 <= i < all.len() && all[i] == name;
            if i < front.len() {
                assert(front[i] == name);
            }
        }
    }
}

proof fn piece_is_in_braces(t: Seq<char>, name: Seq<char>, j: int)
    requires
        name.len() > 0,
        1 <= j < pieces(t, '{').len(),
        name_in(pieces(t, '{')[j]) == name,
    ensures
        exists|a: int, b: int| in_braces(t, a, b, name),
{
    let token = pieces(t, '{')[j];
    let a = place_of_piece(t, '{', j);
    let e = open_name(token);
    let b = a + 1 + e;
    let window = t.subrange(a + 1, a + 1 + token.len());
    assert(t[b] == window[e]);
    pieces_make_up_the_text(t, '{');
    assert(!token.contains('{'));
    assert forall|i: int| a < i < b implies #[trigger] t[i] != '{' && t[i] != '}' by {
        let k = i - a - 1;
        assert(t[i] == window[k]);
        assert(token[k] != '}');
        if token[k] == '{' {
            assert(token.contains('{'));
        }
    }
    assert(t.subrange(a + 1, b) =~= token.take(e));
    assert(in_braces(t, a, b, name));
}

proof fn braces_are_a_piece(t: Seq<char>, a: int, b: int, name: Seq<char>) -> (j: int)
    requires
        in_braces(t, a, b, name),
    ensures
        1 <= j < pieces(t, '{').len(),
        name_in(pieces(t, '{')[j]) == name,
{
    let x = t.take(a);
    let y = t.skip(a + 1);
    assert(t =~= x + seq!['{'] + y);
    pieces_of_two(x, y, '{');
    pieces_not_empty(x, '{');
    let n = t.subrange(a + 1, b);
    let closed = n.push('}');
    let z = t.skip(b + 1);
    assert(y =~= closed + z);
    assert(!closed.contains('{')) by {
        if closed.contains('{') {
            let i = choose|i: int| 0 <= i < closed.len() && closed[i] == '{';
            assert(n[i] == t[a + 1 + i]);
        }
    }
    pieces_behind(closed, z, '{');
    let token = pieces(y, '{')[0];
    assert forall|i: int| 0 <= i < n.len() implies #[trigger] token[i] != '}' by {
        assert(token[i] == t[a + 1 + i]);
    }
    closing_brace(token, n.len() as int);
    assert(token.take(n.len() as int) =~= n);
    let at = pieces(x, '{').len() as int;
    assert(pieces(t, '{')[at] == token);
    at
}

/// A name is among those of a template exactly if it stands in it in braces; every
/// pair of braces counts.
proof fn names_in_braces(vars: Seq<Seq<char>>, t: Seq<char>, name: Seq<char>)
    ensures
        names_after(vars, pieces(t, '{').skip(1)).contains(name) <==> vars.contains(name) || exists|a: int, b: int|
            in_braces(t, a, b, name),
{
    let ps = pieces(t, '{');
    let tokens = ps.skip(1);
    pieces_not_empty(t, '{');
    names_are_kept(vars, tokens, name);
    if name.len() > 0 && exists|j: int| 0 <= j < tokens.len() && name_in(#[trigger] tokens[j]) == name {
        let j = choose|j: int| 0 <= j < tokens.len() && name_in(#[trigger] tokens[j]) == name;
        assert(tokens[j] == ps[j + 1]);
        piece_is_in_braces(t, name, j + 1);
    }
    if exists|a: int, b: int| in_braces(t, a, b, name) {
        let (a, b) = choose|a: int, b: int| in_braces(t, a, b, name);
        let j = braces_are_a_piece(t, a, b, name);
        assert(tokens[j - 1] == ps[j]);
    }
}

/// The variables of a graph are exactly the names that stand in braces in the value
/// of one of its nodes, each once; those of the first nodes come first.
pub proof fn variables_are_the_names_in_braces(nodes: Seq<ActionNode>, name: Seq<char>)
    ensures
        graph_variables(nodes).contains(name) <==> exists|k: int, a: int, b: int| #![trigger nodes[k], in_braces(nodes[k].value_template->0@, a, b, name)]
            0 <= k < nodes.len() && nodes[k].value_template is Some && in_braces(
                nodes[k].value_template->0@,
                a,
                b,
                name,
            ),
        graph_variables(nodes).no_duplicates(),
        nodes.len() > 0 ==> graph_variables(nodes.drop_last()).is_prefix_of(graph_variables(nodes)),
    decreases nodes.len(),
{
    if nodes.len() > 0 {
        let rest = nodes.drop_last();
        let front = graph_variables(rest);
        let n = nodes.len() - 1;
        variables_are_the_names_in_braces(rest, name);
        assert(nodes[n] == nodes.last());
        match nodes.last().value_template {
            Some(t) => {
                names_in_braces(front, t@, name);
                names_are_kept(front, pieces(t@, '{').skip(1), name);
                if exists|a: int, b: int| in_braces(t@, a, b, name) {
                    let (a, b) = choose|a: int, b: int| in_braces(t@, a, b, name);
                    assert(in_braces(nodes[n].value_template->0@, a, b, name));
                }
            },
            None => {
                assert(front =~= front.subrange(0, front.len() as int));
            },
        }
        if front.contains(name) {
            let (k, a, b) = choose|k: int, a: int, b: int| #![trigger rest[k], in_braces(rest[k].value_template->0@, a, b, name)]
                0 <= k < rest.len() && rest[k].value_template is Some && in_braces(
                    rest[k].value_template->0@,
                    a,
                    b,
                    name,
                );
            assert(nodes[k] == rest[k]);
            assert(in_braces(nodes[k].value_template->0@, a, b, name));
        }
        if exists|k: int, a: int, b: int| #![trigger nodes[k], in_braces(nodes[k].value_template->0@, a, b, name)]
            0 <= k < nodes.len() && nodes[k].value_template is Some && in_braces(
                nodes[k].value_template->0@,
                a,
                b,
                name,
            ) {
            let (k, a, b) = choose|k: int, a: int, b: int| #![trigger nodes[k], in_braces(nodes[k].value_template->0@, a, b, name)]
                0 <= k < nodes.len() && nodes[k].value_template is Some && in_braces(
                    nodes[k].value_template->0@,
                    a,
                    b,
                    name,
                );
            if k < n {
                assert(rest[k] == nodes[k]);
                assert(in_braces(rest[k].value_template->0@, a, b, name));
            }
        }
    }
}

// ---------------------------------------------------------------------------
// Laws of graphs and packages
// ---------------------------------------------------------------------------

proof fn repeat_is(ids: Seq<Seq<char>>, from: int)
    requires
        0 <= from <= ids.len(),
    ensures
        first_repeat(ids, from) < 0 <==> forall|i: int, j: int|
            0 <= i < j < ids.len() && from <= j ==> #[trigger] ids[i] != #[trigger] ids[j],
    decreases ids.len() - from,
{
    if from < ids.len() {
        repeat_is(ids, from + 1);
        if ids.take(from).contains(ids[from]) {
            let i = choose|i: int| 0 <= i < from && ids.take(from)[i] == ids[from];
            assert(ids[i] == ids[from]);
        } else {
            assert forall|i: int| 0 <= i < from implies #[trigger] ids[i] != ids[from] by {
                assert(ids.take(from)[i] == ids[i]);
            }
        }
    }
}

proof fn loose_is(edges: Seq<ActionEdge>, ids: Seq<Seq<char>>, from: int)
    requires
        0 <= from <= edges.len(),
    ensures
        first_loose(edges, ids, from) < 0 <==> forall|i: int|
            from <= i < edges.len() ==> ids.contains((#[trigger] edges[i]).from@) && ids.contains(edges[i].to@),
    decreases edges.len() - from,
{
    if from < edges.len() {
        loose_is(edges, ids, from + 1);
    }
}

/// A graph is sound exactly if it has a node, it starts at one of its nodes, no two
/// nodes share a name, and every edge leads from a node to a node.
pub proof fn sound_graphs_hang_together(g: ActionGraph)
    ensures
        graph_fault(g) is None <==> {
            &&& g.nodes@.len() > 0
            &&& exists|i: int| 0 <= i < g.nodes@.len() && (#[trigger] g.nodes@[i]).id@ == g.start@
            &&& forall|i: int, j: int|
                0 <= i < j < g.nodes@.len() ==> (#[trigger] g.nodes@[i]).id@ != (#[trigger] g.nodes@[j]).id@
            &&& forall|k: int|
                0 <= k < g.edges@.len() ==> (exists|i: int|
                    0 <= i < g.nodes@.len() && (#[trigger] g.nodes@[i]).id@ == (#[trigger] g.edges@[k]).from@) && exists|
                    i: int,
                |
                    0 <= i < g.nodes@.len() && (#[trigger] g.nodes@[i]).id@ == g.edges@[k].to@
        },
{
    let ids = node_ids(g.nodes@);
    repeat_is(ids, 0);
    loose_is(g.edges@, ids, 0);
    assert forall|n: Seq<char>| #[trigger] ids.contains(n) <==> exists|i: int|
        0 <= i < g.nodes@.len() && (#[trigger] g.nodes@[i]).id@ == n by {
        if ids.contains(n) {
            let i = choose|i: int| 0 <= i < ids.len() && ids[i] == n;
            assert(g.nodes@[i].id@ == n);
        }
        if exists|i: int| 0 <= i < g.nodes@.len() && (#[trigger] g.nodes@[i]).id@ == n {
            let i = choose|i: int| 0 <= i < g.nodes@.len() && (#[trigger] g.nodes@[i]).id@ == n;
            assert(ids[i] == n);
        }
    }
    if forall|i: int, j: int| 0 <= i < j < ids.len() && 0 <= j ==> #[trigger] ids[i] != #[trigger] ids[j] {
        assert forall|i: int, j: int| 0 <= i < j < g.nodes@.len() implies (#[trigger] g.nodes@[i]).id@ != (
        #[trigger] g.nodes@[j]).id@ by {
            assert(ids[i] != ids[j]);
        }
    } else {
        let (i, j) = choose|i: int, j: int| 0 <= i < j < ids.len() && 0 <= j && #[trigger] ids[i] == #[trigger] ids[j];
        assert(g.nodes@[i].id@ == g.nodes@[j].id@);
    }
}

proof fn undeclared_is(vars: Seq<Seq<char>>, declared: Seq<Seq<char>>, from: int)
    requires
        0 <= from <= vars.len(),
    ensures
        first_undeclared(vars, declared, from) < 0 <==> forall|i: int|
            from <= i < vars.len() ==> declared.contains(#[trigger] vars[i]),
    decreases vars.len() - from,
{
    if from < vars.len() {
        undeclared_is(vars, declared, from + 1);
    }
}

/// A package is complete exactly if it is named and says what it is for and how
/// sensitive that is, its graph is sound, and every variable of the graph is
/// declared; and its text begins with its header.
pub proof fn complete_packages_declare_all(p: FlowSkillPackage)
    ensures
        package_fault(p) is None <==> {
            &&& p.manifest.id@.len() > 0 && p.manifest.name@.len() > 0 && p.manifest.target_apps@.len() > 0
            &&& p.manifest.sensitivity is Low || p.manifest.sensitivity is Medium || p.manifest.sensitivity is High
            &&& graph_fault(p.graph) is None
            &&& forall|name: Seq<char>| #[trigger]
                graph_variables(p.graph.nodes@).contains(name) ==> texts(p.manifest.variables@).contains(name)
            &&& begins_with(trimmed_start(p.skill_md@), "---"@)
        },
{
    let vars = graph_variables(p.graph.nodes@);
    let declared = texts(p.manifest.variables@);
    undeclared_is(vars, declared, 0);
    if forall|i: int| 0 <= i < vars.len() ==> declared.contains(#[trigger] vars[i]) {
        assert forall|name: Seq<char>| #[trigger] vars.contains(name) implies declared.contains(name) by {
            let i = choose|i: int| 0 <= i < vars.len() && vars[i] == name;
            assert(declared.contains(vars[i]));
        }
    } else {
        let i = choose|i: int| 0 <= i < vars.len() && !declared.contains(#[trigger] vars[i]);
        assert(vars.contains(vars[i]));
    }
}

/// The name of a package is made of letters and digits of ASCII, hyphens and
/// underscores, and is not empty; any such name will do.
pub proof fn package_names_are_plain(name: Seq<char>)
    ensures
        is_package_name(name) <==> name.len() > 0 && forall|i: int|
            0 <= i < name.len() ==> ('0' <= #[trigger] name[i] <= '9' || 'a' <= name[i] <= 'z' || 'A' <= name[i] <= 'Z'
                || name[i] == '-' || name[i] == '_'),
{
    assert forall|c: char| #[trigger] is_name_char(c) <==> ('0' <= c <= '9' || 'a' <= c <= 'z' || 'A' <= c <= 'Z' || c
        == '-' || c == '_') by {}
    if is_package_name(name) {
        assert forall|i: int| 0 <= i < name.len() implies ('0' <= #[trigger] name[i] <= '9' || 'a' <= name[i] <= 'z'
            || 'A' <= name[i] <= 'Z' || name[i] == '-' || name[i] == '_') by {
            assert(is_name_char(name[i]));
        }
    }
}

/// Of the entries of a folder those are packages that are folders with a skill in
/// them, and no others.
pub proof fn packages_are_folders_with_a_skill(v: Seq<FolderEntry>, e: FolderEntry)
    ensures
        package_names(seq![]) == Seq::<Seq<char>>::empty(),
        e.is_dir && e.has_skill ==> package_names(v.push(e)) == package_names(v).push(e.name@),
        !e.is_dir || !e.has_skill ==> package_names(v.push(e)) == package_names(v),
{
    assert(v.push(e).drop_last() =~= v);
}

/// A surface is sensitive if it was marked so, or its name or its role speaks of
/// passwords, payments, codes or cards.
pub proof fn sensitive_surfaces_are_told(a: RecordedAction, word: Seq<char>, role: String)
    requires
        word == "password"@ || word == "支付"@ || word == "密码"@ || word == "验证码"@ || word == "captcha"@ || word
            == "card"@,
    ensures
        a.sensitive ==> is_sensitive(a),
        has_text(a.anchor.name@, word) ==> is_sensitive(a),
        a.anchor.role == Some(role) && has_text(role@, word) ==> is_sensitive(a),
        a.anchor.name@.len() == 0 && a.anchor.role is None && !a.sensitive ==> !is_sensitive(a),
{
    let ws = sensitive_words();
    assert(ws[0] == "password"@ && ws[1] == "支付"@ && ws[2] == "密码"@ && ws[3] == "验证码"@ && ws[4] == "captcha"@
        && ws[5] == "card"@);
    assert(ws.contains(word));
    let k = choose|k: int| 0 <= k < ws.len() && ws[k] == word;
    if has_text(a.anchor.name@, word) {
        assert(has_text(a.anchor.name@, ws[k]));
    }
    if has_text(role@, word) {
        assert(has_text(role@, ws[k]));
    }
    reveal_strlit("password");
    reveal_strlit("支付");
    reveal_strlit("密码");
    reveal_strlit("验证码");
    reveal_strlit("captcha");
    reveal_strlit("card");
    assert forall|l: int| 0 <= l < ws.len() implies (#[trigger] ws[l]).len() > 0 by {
        assert(l == 0 || l == 1 || l == 2 || l == 3 || l == 4 || l == 5);
    }
    if a.anchor.name@.len() == 0 && has_any(a.anchor.name@, ws) {
        let l = choose|l: int| 0 <= l < ws.len() && #[trigger] has_text(a.anchor.name@, ws[l]);
        let i = choose|i: int| occurs_at(a.anchor.name@, ws[l], i);
        assert(ws[l].len() > 0);
    }
}

/// A graph that was learnt does what was shown, in the order in which it was shown,
/// to the same surfaces; a value is asked for exactly where something is typed into a
/// surface that another of the actions types into too.
pub proof fn learnt_graphs_do_what_was_shown(g: ActionGraph, v: Seq<RecordedAction>, i: int)
    requires
        is_graph_of(g, v),
        0 <= i < v.len(),
    ensures
        g.nodes@.len() == v.len(),
        g.nodes@[i].action_type == v[i].action_type,
        g.nodes@[i].anchor == v[i].anchor,
        g.start@ == g.nodes@[0].id@,
        g.edges@.len() == v.len() - 1,
        i + 1 < v.len() ==> g.edges@[i].from@ == g.nodes@[i].id@ && g.edges@[i].to@ == g.nodes@[i + 1].id@,
        g.nodes@[i].value_template is Some <==> v[i].action_type is Type && exists|j: int|
            0 <= j < v.len() && j != i && (#[trigger] v[j]).action_type is Type && v[j].anchor.name@ == v[i].anchor.name@
                && opt_text(v[j].anchor.role) == opt_text(v[i].anchor.role),
{
    assert(is_node_for(g.nodes@[0], v, 0));
    assert(is_node_for(g.nodes@[i], v, i));
    if i + 1 < v.len() {
        assert(is_node_for(g.nodes@[i + 1], v, i + 1));
        assert(is_edge_after(g.edges@[i], i));
    }
}

/// A package that was learnt bears its name, is for the applications that were given
/// and as sensitive as was said, and declares every variable of its graph; its text
/// begins with a header and holds the description.
pub proof fn learnt_packages_say_what_they_are(
    p: FlowSkillPackage,
    samples: Seq<RecordedAction>,
    name: Seq<char>,
    target_apps: Vec<String>,
    sensitivity: Sensitivity,
    description: Seq<char>,
    v: Seq<char>,
)
    requires
        is_learned(p, samples, name, target_apps, sensitivity, description),
    ensures
        p.manifest.name@ == name && finishes_with(p.manifest.id@, name),
        p.manifest.target_apps == target_apps && p.manifest.sensitivity == sensitivity,
        p.graph.nodes@.len() == samples.len(),
        graph_variables(p.graph.nodes@).contains(v) ==> texts(p.manifest.variables@).contains(v),
        begins_with(p.skill_md@, "---"@) && has_text(p.skill_md@, name) && has_text(p.skill_md@, description),
{
    let id = "com.owo.learned."@ + name;
    assert(id.skip(id.len() - name.len()) =~= name);
    let a = "---\nname: "@;
    let b = "\ndescription: "@;
    let c = "\n---\n由示范学习自动生成，可编辑。"@;
    let t = learned_text(name, description);
    reveal_strlit("---\nname: ");
    reveal_strlit("---");
    assert(t.take(3) =~= "---"@);
    assert(t =~= a + name + (b + description + c));
    parts_stand_in_the_whole(a, name, b + description + c, t);
    assert(t =~= (a + name + b) + description + c);
    parts_stand_in_the_whole(a + name + b, description, c, t);
}

/// A package is kept exactly if it has no fault and its name is fit for a folder; then
/// it stands under its name in the folder of the store. What is refused is told why.
pub proof fn packages_are_kept_under_their_name(store: FlowSkillStore, p: FlowSkillPackage, r: Result<String, String>)
    requires
        save_answer(store, p, r),
    ensures
        r is Ok <==> package_fault(p) is None && is_package_name(p.manifest.name@),
        r matches Ok(d) ==> d@ == below(store.root@, p.manifest.name@) && finishes_with(d@, p.manifest.name@),
        package_fault(p) matches Some(f) ==> (r matches Err(e) && e@ == f),
        package_fault(p) is None && !is_package_name(p.manifest.name@) ==> (r matches Err(e) && finishes_with(
            e@,
            p.manifest.name@,
        )),
{
    let name = p.manifest.name@;
    let root = store.root@;
    assert(finishes_with(below(root, name), name)) by {
        let d = below(root, name);
        assert(d.skip(d.len() - name.len()) =~= name);
    }
    let e = "非法技能名："@ + name;
    assert(e.skip(e.len() - name.len()) =~= name);
}

} // verus!

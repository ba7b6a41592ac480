//! Agents that an agent hands something to.

use crate::agent::AgentConfig;
use crate::permissions::Policy;
use crate::text::{copy_str, decimal, decimal_text, texts};
use crate::tools::{reading_tools, standard_tools, ToolRegistry};
use vstd::prelude::*;

verus! {

/// How far down agents may hand on.
pub const MAX_SUBAGENT_DEPTH: usize = 2;

/// The most rounds that such an agent has.
pub const MAX_SUBAGENT_TURNS: usize = 12;

/// Runs agents for an agent.
pub struct SubagentRunner {
    pub depth: usize,
    pub max_turns: usize,
    pub model: String,
}

/// What an agent is given that something is handed to.
pub struct SubagentPlan {
    pub policy: Policy,
    pub registry: ToolRegistry,
    pub config: AgentConfig,
    pub system_prompt: String,
}

/// What an agent that may only read is told.
pub const EXPLORE_PROMPT: &'static str =
    "你是只读探索子代理：只能读取/搜索工作区文件，禁止写入或执行命令；调查完成后用简洁中文汇报发现。";

/// What any other agent is told.
pub const SUBAGENT_PROMPT: &'static str = "你是通用子代理：独立完成委派任务，工具调用仍需审批，完成后汇报结果。";

impl SubagentRunner {
    /// Prepares an agent, unless that would be too far down. One that may only read
    /// gets rules and tools that only let read.
    pub fn run(&self, workspace: &str, read_only: bool) -> (r: Result<SubagentPlan, String>)
        ensures
            match r {
                Ok(p) => {
                    &&& self.depth < MAX_SUBAGENT_DEPTH
                    &&& p.policy.workspace@ == workspace@
                    &&& p.policy.read_only == read_only
                    &&& texts(p.policy.deny_command_fragments@) == crate::permissions::default_fragments()
                    &&& p.registry@ == (if read_only {
                        reading_tools()
                    } else {
                        standard_tools()
                    })
                    &&& p.config == (AgentConfig {
                        max_turns: if self.max_turns < MAX_SUBAGENT_TURNS {
                            self.max_turns
                        } else {
                            MAX_SUBAGENT_TURNS
                        },
                        context_limit: 200,
                        subagent_depth: (self.depth + 1) as usize,
                        token_budget: 60_000,
                        keep_recent: 20,
                        compaction_enabled: true,
                    })
                    &&& p.system_prompt@ == (if read_only {
                        EXPLORE_PROMPT@
                    } else {
                        SUBAGENT_PROMPT@
                    })
                },
                Err(e) => self.depth >= MAX_SUBAGENT_DEPTH && e@ == "子代理深度超限（最多 "@ + decimal(
                    MAX_SUBAGENT_DEPTH as nat,
                ) + " 层）"@,
            },
    {
        if self.depth >= MAX_SUBAGENT_DEPTH {
            let mut e = copy_str("子代理深度超限（最多 ");
            e.append(decimal_text(MAX_SUBAGENT_DEPTH as u64).as_str());
            e.append(" 层）");
            return Err(e);
        }
        let policy = if read_only {
            Policy::read_only(workspace)
        } else {
            Policy::new(workspace)
        };
        let registry = if read_only {
            ToolRegistry::read_only()
        } else {
            ToolRegistry::new()
        };
        let mut config = AgentConfig::default();
        config.max_turns = if self.max_turns < MAX_SUBAGENT_TURNS {
            self.max_turns
        } else {
            MAX_SUBAGENT_TURNS
        };
        config.subagent_depth = self.depth + 1;
        let system_prompt = if read_only {
            copy_str(EXPLORE_PROMPT)
        } else {
            copy_str(SUBAGENT_PROMPT)
        };
        Ok(SubagentPlan { policy, registry, config, system_prompt })
    }

    /// What the agent reports: its last text, else how far it came; or why it broke
    /// off.
    pub fn report(&self, outcome: Result<(Option<String>, usize), String>) -> (r: Result<String, String>)
        ensures
            match outcome {
                Ok((Some(t), _)) => r == Ok::<String, String>(t),
                Ok((None, steps)) => r matches Ok(t) && t@ == "（子代理无最终文本，共 "@ + decimal(steps as nat) + " 步）"@,
                Err(e) => r matches Err(m) && m@ == "子代理执行失败："@ + e@,
            },
    {
        match outcome {
            Ok((Some(t), _)) => Ok(t),
            Ok((None, steps)) => {
                let mut t = copy_str("（子代理无最终文本，共 ");
                t.append(decimal_text(steps as u64).as_str());
                t.append(" 步）");
                Ok(t)
            },
            Err(e) => {
                let mut m = copy_str("子代理执行失败：");
                m.append(e.as_str());
                Err(m)
            },
        }
    }
}

/// An agent this far down may hand on, and whom it hands to stands at `below`.
pub open spec fn hands_on(depth: nat, below: nat) -> bool {
    depth < MAX_SUBAGENT_DEPTH && below == depth + 1
}

/// Agents that were handed something one by the other, from the top.
pub open spec fn is_chain(depths: Seq<nat>) -> bool {
    &&& depths.len() > 0 ==> depths[0] == 0
    &&& forall|i: int| 0 <= i < depths.len() - 1 ==> hands_on(depths[i], #[trigger] depths[i + 1])
}

/// Below an agent there are at most so many others as may hand on.
pub proof fn chains_are_short(depths: Seq<nat>)
    requires
        is_chain(depths),
    ensures
        depths.len() <= MAX_SUBAGENT_DEPTH + 1,
        forall|i: int| 0 <= i < depths.len() ==> #[trigger] depths[i] == i,
    decreases depths.len(),
{
    if depths.len() > 1 {
        let front = depths.drop_last();
        assert forall|i: int| 0 <= i < front.len() - 1 implies hands_on(front[i], #[trigger] front[i + 1]) by {
            assert(hands_on(depths[i], depths[i + 1]));
        }
        chains_are_short(front);
        let k = depths.len() - 2;
        assert(front[k] == k);
        assert(hands_on(depths[k], depths[k + 1]));
        assert forall|i: int| 0 <= i < depths.len() implies #[trigger] depths[i] == i by {
            if i < front.len() {
                assert(front[i] == i);
            }
        }
    }
}

} // verus!

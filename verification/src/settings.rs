//! The settings of a workspace and their defaults.

use crate::mcp::McpServerConfig;
use crate::table::Table;
use crate::text::copy_str;
use vstd::prelude::*;

verus! {

/// Speech input.
pub struct SttSettings {
    pub model: String,
    pub language: String,
    /// Whether numbers and the like are written out as figures.
    pub itn: bool,
    pub enable_high_accuracy: bool,
    pub hotwords: Vec<String>,
    pub latency_budget_ms: u64,
}

pub fn default_stt_model() -> (r: String)
    ensures
        r@ == "SenseVoice-Small"@,
{
    copy_str("SenseVoice-Small")
}

pub fn default_stt_language() -> (r: String)
    ensures
        r@ == "auto"@,
{
    copy_str("auto")
}

pub fn default_explore_tier() -> (r: String)
    ensures
        r@ == "S0"@,
{
    copy_str("S0")
}

pub fn default_share_format() -> (r: String)
    ensures
        r@ == "owskill"@,
{
    copy_str("owskill")
}

/// The defaults of speech input.
pub open spec fn is_default_stt(r: SttSettings) -> bool {
    &&& r.model@ == "SenseVoice-Small"@
    &&& r.language@ == "auto"@
    &&& r.itn
    &&& !r.enable_high_accuracy
    &&& r.hotwords@.len() == 0
    &&& r.latency_budget_ms == 2000
}

impl Default for SttSettings {
    fn default() -> (r: SttSettings)
        ensures
            is_default_stt(r),
    {
        SttSettings {
            model: default_stt_model(),
            language: default_stt_language(),
            itn: true,
            enable_high_accuracy: false,
            hotwords: Vec::new(),
            latency_budget_ms: 2000,
        }
    }
}

/// Exploration on its own within limits.
pub struct ExploreSettings {
    pub default_tier: String,
    pub action_budget: u32,
    pub max_duration_s: u64,
    pub allow_s1: bool,
}

/// The defaults of exploration.
pub open spec fn is_default_explore(r: ExploreSettings) -> bool {
    &&& r.default_tier@ == "S0"@
    &&& r.action_budget == 50
    &&& r.max_duration_s == 600
    &&& !r.allow_s1
}

impl Default for ExploreSettings {
    fn default() -> (r: ExploreSettings)
        ensures
            is_default_explore(r),
    {
        ExploreSettings { default_tier: default_explore_tier(), action_budget: 50, max_duration_s: 600, allow_s1: false }
    }
}

/// A share, as a fraction.
#[derive(Debug, Clone, Copy, PartialEq, Eq, Structural)]
pub struct Ratio {
    pub num: u32,
    pub den: u32,
}

impl Ratio {
    /// `part` of `whole` is at least this share.
    pub open spec fn met_by(self, part: nat, whole: nat) -> bool {
        part * self.den >= self.num * whole
    }
}

/// When a suggestion is made.
#[derive(Debug, Clone, Copy, PartialEq, Eq, Structural)]
pub struct ProactiveSettings {
    pub enabled: bool,
    /// How often something is done in a week before it is suggested.
    pub weekly_threshold: u32,
    /// How often something is done in a day before it is suggested.
    pub daily_threshold: u32,
    /// The share of common actions from which on two sequences are alike.
    pub similarity: Ratio,
    pub cooldown_hours: u32,
    pub daily_cap: u32,
    pub auto_silence_days: u32,
}

/// The defaults of suggestions.
pub open spec fn is_default_proactive(r: ProactiveSettings) -> bool {
    r == (ProactiveSettings {
        enabled: true,
        weekly_threshold: 5,
        daily_threshold: 3,
        similarity: Ratio { num: 9, den: 10 },
        cooldown_hours: 24,
        daily_cap: 3,
        auto_silence_days: 30,
    })
}

impl Default for ProactiveSettings {
    fn default() -> (r: ProactiveSettings)
        ensures
            is_default_proactive(r),
    {
        ProactiveSettings {
            enabled: true,
            weekly_threshold: 5,
            daily_threshold: 3,
            similarity: Ratio { num: 9, den: 10 },
            cooldown_hours: 24,
            daily_cap: 3,
            auto_silence_days: 30,
        }
    }
}

/// The sharing of skill packages.
pub struct SkillsSettings {
    pub share_format: String,
    pub require_signature: bool,
}

/// The defaults of sharing.
pub open spec fn is_default_skills(r: SkillsSettings) -> bool {
    r.share_format@ == "owskill"@ && !r.require_signature
}

impl Default for SkillsSettings {
    fn default() -> (r: SkillsSettings)
        ensures
            is_default_skills(r),
    {
        SkillsSettings { share_format: default_share_format(), require_signature: false }
    }
}

/// Whether data may leave the machine.
#[derive(Debug, Clone, Copy, PartialEq, Eq, Structural)]
pub struct EgressSettings {
    pub cloud_enabled: bool,
}

impl Default for EgressSettings {
    fn default() -> (r: EgressSettings)
        ensures
            r.cloud_enabled,
    {
        EgressSettings { cloud_enabled: true }
    }
}

/// An application that the agent may work with.
pub struct WhitelistEntry {
    pub app_id: String,
    pub name: String,
    pub tier: String,
    pub learn_allowed: bool,
    pub auto_ops_allowed: bool,
}

/// The settings of a workspace.
pub struct Settings {
    pub model: Option<String>,
    pub read_only: bool,
    pub deny_commands: Vec<String>,
    pub mcp_servers: Vec<McpServerConfig>,
    pub theme: Option<String>,
    pub keybinds: Table<String>,
    pub stt: SttSettings,
    pub explore: ExploreSettings,
    pub proactive: ProactiveSettings,
    pub skills: SkillsSettings,
    pub whitelist: Vec<WhitelistEntry>,
    pub egress: EgressSettings,
}

/// The settings of a workspace that has none of its own.
pub open spec fn is_default(r: Settings) -> bool {
    &&& r.model is None
    &&& !r.read_only
    &&& r.deny_commands@.len() == 0
    &&& r.mcp_servers@.len() == 0
    &&& r.theme is None
    &&& r.keybinds.wf()
    &&& r.keybinds@ == Map::<Seq<char>, String>::empty()
    &&& is_default_stt(r.stt)
    &&& is_default_explore(r.explore)
    &&& is_default_proactive(r.proactive)
    &&& is_default_skills(r.skills)
    &&& r.whitelist@.len() == 0
    &&& r.egress.cloud_enabled
}

impl Default for Settings {
    fn default() -> (r: Settings)
        ensures
            is_default(r),
    {
        Settings {
            model: None,
            read_only: false,
            deny_commands: Vec::new(),
            mcp_servers: Vec::new(),
            theme: None,
            keybinds: Table::new(),
            stt: SttSettings::default(),
            explore: ExploreSettings::default(),
            proactive: ProactiveSettings::default(),
            skills: SkillsSettings::default(),
            whitelist: Vec::new(),
            egress: EgressSettings::default(),
        }
    }
}

impl Settings {
    /// The settings of a workspace: those that were read, else the defaults.
    pub fn load(read: Option<Settings>) -> (r: Settings)
        ensures
            match read {
                Some(s) => r == s,
                None => is_default(r),
            },
    {
        match read {
            Some(s) => s,
            None => Settings::default(),
        }
    }
}

/// A share is reached if the part is at least so much of the whole: all of it reaches
/// any share up to one, and more never reaches less.
pub proof fn shares_are_parts_of_the_whole(r: Ratio, part: nat, whole: nat, more: nat)
    requires
        part <= more,
    ensures
        r.met_by(part, whole) ==> r.met_by(more, whole),
        r.num <= r.den ==> r.met_by(whole, whole),
        r.num == r.den && r.den > 0 ==> (r.met_by(part, whole) <==> part >= whole),
        r.num > 0 && r.den > 0 && whole > 0 ==> !r.met_by(0, whole),
{
    let n = r.num as int;
    let d = r.den as int;
    assert(part * d <= more * d) by (nonlinear_arith)
        requires
            part <= more,
            0 <= d,
    ;
    assert(n <= d ==> whole * d >= n * whole) by (nonlinear_arith)
        requires
            0 <= whole,
    ;
    assert(n == d && d > 0 ==> (part * d >= n * whole <==> part >= whole)) by (nonlinear_arith);
    assert(n > 0 && whole > 0 ==> n * whole > 0) by (nonlinear_arith);
    assert(0 * d == 0) by (nonlinear_arith);
}

/// Where nothing is set, files may be written, no command is refused, no server and no
/// model is known, exploring may not leave the first tier, and an offer needs three
/// repetitions on a day or five in a week, of which at most three a day are shown.
pub proof fn defaults_allow_little(r: Settings, part: nat, whole: nat)
    requires
        is_default(r),
    ensures
        !r.read_only && r.model is None && r.theme is None && r.deny_commands@.len() == 0 && r.mcp_servers@.len() == 0
            && r.whitelist@.len() == 0 && r.egress.cloud_enabled,
        forall|k: Seq<char>| !(#[trigger] r.keybinds@.contains_key(k)),
        !r.explore.allow_s1 && r.explore.default_tier@ == "S0"@ && r.explore.action_budget == 50
            && r.explore.max_duration_s == 10 * 60,
        r.stt.itn && !r.stt.enable_high_accuracy && r.stt.hotwords@.len() == 0 && r.stt.language@ == "auto"@
            && r.stt.latency_budget_ms == 2 * 1000,
        r.proactive.enabled && r.proactive.daily_threshold == 3 && r.proactive.weekly_threshold == 5
            && r.proactive.daily_cap == 3 && r.proactive.cooldown_hours == 24 && r.proactive.auto_silence_days == 30,
        r.proactive.similarity.met_by(part, whole) <==> 10 * part >= 9 * whole,
        !r.skills.require_signature && r.skills.share_format@ == "owskill"@,
{
}

} // verus!

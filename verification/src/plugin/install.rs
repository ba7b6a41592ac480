//! Signatures of plugins, and the steps of installing, updating and removing
//! them.

use crate::crypto::{
    base64_decode, base64_decoded, is_ed25519_key, is_signed, is_verifying_key, sha256, sha256_of, verify_signature,
};
use crate::mcp::McpServerConfig;
use crate::plugin::{
    opt_view, risks_of, scan_plugin_for_risks, scanned_text, PluginManifest, PluginSignature,
};
use crate::table::Table;
use crate::text::{
    begins_with, copy_str, finishes_with, has_text, join, joined, lowercase, parts_stand_in_the_whole, same_text, texts,
    unicode_lower,
};
use crate::version::{at_least, version_gte, version_higher, version_rank};
use vstd::prelude::*;
use vstd::utf8::encode_utf8;

verus! {

// ---------------------------------------------------------------------------
// Signatures
// ---------------------------------------------------------------------------

pub open spec fn or_empty(s: Option<String>) -> Seq<char> {
    match s {
        Some(t) => t@,
        None => Seq::<char>::empty(),
    }
}

/// What is signed: the identifier, the name, the version, the path of the
/// script and, where there is one, the script itself. The signature is no part
/// of it.
pub open spec fn signed_text(manifest: PluginManifest, entry: Option<Seq<char>>) -> Seq<char> {
    let head = manifest.id@ + "|"@ + manifest.name@ + "|"@ + manifest.version@ + "|"@ + or_empty(manifest.entry);
    match entry {
        Some(e) => head + "|"@ + e,
        None => head,
    }
}

/// The digest that is signed.
pub open spec fn digest_of(manifest: PluginManifest, entry: Option<Seq<char>>) -> Seq<u8> {
    sha256_of(encode_utf8(signed_text(manifest, entry)))
}

/// The digest of a plugin that its signature vouches for.
pub fn plugin_digest(manifest: &PluginManifest, entry_content: Option<&str>) -> (r: [u8; 32])
    ensures
        r@ == digest_of(*manifest, opt_view(entry_content)),
{
    let mut text = copy_str(manifest.id.as_str());
    text.append("|");
    text.append(manifest.name.as_str());
    text.append("|");
    text.append(manifest.version.as_str());
    text.append("|");
    match &manifest.entry {
        Some(e) => {
            text.append(e.as_str());
        },
        None => {},
    }
    let ghost head = manifest.id@ + "|"@ + manifest.name@ + "|"@ + manifest.version@ + "|"@ + or_empty(manifest.entry);
    assert(text@ =~= head);
    match entry_content {
        Some(e) => {
            text.append("|");
            text.append(e);
        },
        None => {},
    }
    sha256(text.as_str().as_bytes())
}

/// What the check of a signature finds.
pub open spec fn signature_verdict(
    manifest: PluginManifest,
    entry: Option<Seq<char>>,
) -> Result<(), Seq<char>> {
    match manifest.signature {
        None => Err("插件 "@ + manifest.id@ + " 缺少签名"@),
        Some(s) => if unicode_lower(s.algorithm@) != "ed25519"@ {
            Err("不支持的签名算法："@ + s.algorithm@)
        } else {
            match (base64_decoded(s.public_key_b64@), base64_decoded(s.signature_b64@)) {
                (Err(e), _) => Err("公钥 base64 非法："@ + e),
                (Ok(_), Err(e)) => Err("签名 base64 非法："@ + e),
                (Ok(key), Ok(signature)) => bytes_verdict(manifest.id@, key, digest_of(manifest, entry), signature),
            }
        },
    }
}

/// What the check of a signature finds once both texts are decoded.
pub open spec fn bytes_verdict(
    id: Seq<char>,
    key: Seq<u8>,
    digest: Seq<u8>,
    signature: Seq<u8>,
) -> Result<(), Seq<char>> {
    if !is_ed25519_key(key) {
        Err("公钥长度非法（需 32 字节）"@)
    } else if signature.len() != 64 {
        Err("签名长度非法（需 64 字节）"@)
    } else if !is_signed(key, digest, signature) {
        Err("插件 "@ + id + " 签名校验失败（内容可能被篡改）"@)
    } else {
        Ok(())
    }
}

/// `r` holds what `m` says.
pub open spec fn reports(r: Result<(), String>, m: Result<(), Seq<char>>) -> bool {
    match r {
        Ok(_) => m is Ok,
        Err(e) => m == Err::<(), Seq<char>>(e@),
    }
}

/// Checks a signature given as bytes.
pub fn verify_signature_bytes(id: &str, key: &Vec<u8>, digest: &[u8; 32], signature: &Vec<u8>) -> (r: Result<
    (),
    String,
>)
    ensures
        reports(r, bytes_verdict(id@, key@, digest@, signature@)),
{
    if !is_verifying_key(key.as_slice()) {
        return Err(copy_str("公钥长度非法（需 32 字节）"));
    }
    if signature.len() != 64 {
        return Err(copy_str("签名长度非法（需 64 字节）"));
    }
    if !verify_signature(key.as_slice(), digest, signature.as_slice()) {
        let mut e = copy_str("插件 ");
        e.append(id);
        e.append(" 签名校验失败（内容可能被篡改）");
        return Err(e);
    }
    Ok(())
}

/// Checks the signature of a plugin. It fails where there is none, where its
/// algorithm is not known, where the key or the signature cannot be read, and
/// where the signature is not one of this plugin.
pub fn verify_plugin_signature(manifest: &PluginManifest, entry_content: Option<&str>) -> (r: Result<(), String>)
    ensures
        reports(r, signature_verdict(*manifest, opt_view(entry_content))),
{
    match &manifest.signature {
        None => {
            let mut e = copy_str("插件 ");
            e.append(manifest.id.as_str());
            e.append(" 缺少签名");
            Err(e)
        },
        Some(s) => {
            if !same_text(lowercase(s.algorithm.as_str()).as_str(), "ed25519") {
                let mut e = copy_str("不支持的签名算法：");
                e.append(s.algorithm.as_str());
                return Err(e);
            }
            let key = match base64_decode(s.public_key_b64.as_str()) {
                Ok(b) => b,
                Err(error) => {
                    let mut e = copy_str("公钥 base64 非法：");
                    e.append(error.as_str());
                    return Err(e);
                },
            };
            let signature = match base64_decode(s.signature_b64.as_str()) {
                Ok(b) => b,
                Err(error) => {
                    let mut e = copy_str("签名 base64 非法：");
                    e.append(error.as_str());
                    return Err(e);
                },
            };
            let digest = plugin_digest(manifest, entry_content);
            verify_signature_bytes(manifest.id.as_str(), &key, &digest, &signature)
        },
    }
}

/// Two plugins with the same identifier, name, version, path and script have
/// the same digest, whatever else their manifests hold; so the signature of one
/// is good for the other exactly when it is good for it itself.
pub proof fn digest_leaves_out_the_signature(
    a: PluginManifest,
    b: PluginManifest,
    entry: Option<Seq<char>>,
)
    requires
        a.id@ == b.id@,
        a.name@ == b.name@,
        a.version@ == b.version@,
        or_empty(a.entry) == or_empty(b.entry),
    ensures
        digest_of(a, entry) == digest_of(b, entry),
        a.signature == b.signature ==> signature_verdict(a, entry) == signature_verdict(b, entry),
{
}

// ---------------------------------------------------------------------------
// Installing
// ---------------------------------------------------------------------------

/// How far a plugin has come.
#[derive(Debug, Clone, Copy, PartialEq, Eq, Structural)]
pub enum PluginInstallState {
    /// Found, not vetted.
    Discovered,
    /// Version, scan and signature have passed.
    Verified,
    /// In place.
    Activated,
    /// An update failed and the old version is back.
    RolledBack,
}

/// What came of an installation or an update.
pub struct PluginInstallReport {
    pub id: String,
    pub version: String,
    pub state: PluginInstallState,
    /// What was done, in order.
    pub audit: Vec<String>,
}

/// Installs, updates and removes plugins.
pub struct PluginManager {
    app_version: String,
    require_signature: bool,
}

/// What the vetting of a plugin finds: what was done, or why it is refused.
pub open spec fn vetting(
    app: Seq<char>,
    require_signature: bool,
    m: PluginManifest,
    manifest_content: Seq<char>,
    entry: Option<Seq<char>>,
) -> Result<Seq<Seq<char>>, Seq<char>> {
    let risks = risks_of(scanned_text(manifest_content, entry), texts(m.network_allowlist@));
    if m.min_app_version matches Some(min) && !at_least(app, min@) {
        Err(
            "插件 "@ + m.id@ + " "@ + m.version@ + " 要求 App >= "@ + m.min_app_version->0@ + "，当前 "@ + app
                + "，拒绝安装"@,
        )
    } else if risks.len() > 0 {
        Err("插件 "@ + m.id@ + " 静态扫描未通过："@ + joined(risks, "；"@))
    } else {
        match m.signature {
            Some(s) => match signature_verdict(m, entry) {
                Ok(_) => Ok(scan_audit(app, m).push("签名校验通过（"@ + s.algorithm@ + "）"@)),
                Err(e) => Err(e),
            },
            None => if require_signature {
                Err("插件 "@ + m.id@ + " 缺少签名，拒绝加载"@)
            } else {
                Ok(scan_audit(app, m))
            },
        }
    }
}

/// What is noted of a plugin that has passed the scan.
pub open spec fn scan_audit(app: Seq<char>, m: PluginManifest) -> Seq<Seq<char>> {
    version_audit(app, m).push("静态扫描通过"@)
}

/// What is noted of the version.
pub open spec fn version_audit(app: Seq<char>, m: PluginManifest) -> Seq<Seq<char>> {
    match m.min_app_version {
        Some(min) => seq!["min_app_version 兼容（App "@ + app + "/min "@ + min@ + "）"@],
        None => seq![],
    }
}

fn push_text(v: &mut Vec<String>, s: String)
    ensures
        texts(final(v)@) == texts(old(v)@).push(s@),
{
    v.push(s);
    assert(texts(v@) =~= texts(old(v)@).push(s@));
}

/// How an update goes on after the new version was copied into place.
pub enum UpdateEnd {
    /// The new version is in place.
    Activated(PluginInstallReport),
    /// Put the backup back; the update fails with this message.
    RollBack(String),
}

impl PluginManager {
    /// The version of the application.
    pub closed spec fn app(self) -> Seq<char> {
        self.app_version@
    }

    /// Plugins without a signature are refused.
    pub closed spec fn needs_signature(self) -> bool {
        self.require_signature
    }

    /// A manager that asks for signatures.
    pub fn new(app_version: String) -> (r: PluginManager)
        ensures
            r.app() == app_version@,
            r.needs_signature(),
    {
        PluginManager { app_version, require_signature: true }
    }

    /// Whether plugins must be signed.
    pub fn set_require_signature(&mut self, require: bool)
        ensures
            final(self).app() == old(self).app(),
            final(self).needs_signature() == require,
    {
        self.require_signature = require;
    }

    fn version_refusal(&self, manifest: &PluginManifest, min: &String) -> (r: String)
        ensures
            r@ == "插件 "@ + manifest.id@ + " "@ + manifest.version@ + " 要求 App >= "@ + min@ + "，当前 "@
                + self.app() + "，拒绝安装"@,
    {
        let mut e = copy_str("插件 ");
        e.append(manifest.id.as_str());
        e.append(" ");
        e.append(manifest.version.as_str());
        e.append(" 要求 App >= ");
        e.append(min.as_str());
        e.append("，当前 ");
        e.append(self.app_version.as_str());
        e.append("，拒绝安装");
        e
    }

    /// Vets a plugin: the version that it asks for, the scan, the signature.
    pub fn verify_plugin_dir(
        &self,
        manifest: &PluginManifest,
        manifest_content: &str,
        entry_content: Option<&str>,
    ) -> (r: Result<PluginInstallReport, String>)
        ensures
            match r {
                Ok(report) => {
                    &&& vetting(
                        self.app(),
                        self.needs_signature(),
                        *manifest,
                        manifest_content@,
                        opt_view(entry_content),
                    ) == Ok::<Seq<Seq<char>>, Seq<char>>(texts(report.audit@))
                    &&& report.id == manifest.id
                    &&& report.version == manifest.version
                    &&& report.state == PluginInstallState::Verified
                },
                Err(e) => vetting(
                    self.app(),
                    self.needs_signature(),
                    *manifest,
                    manifest_content@,
                    opt_view(entry_content),
                ) == Err::<Seq<Seq<char>>, Seq<char>>(e@),
            },
    {
        let mut audit: Vec<String> = Vec::new();
        assert(texts(audit@) =~= seq![]);
        if let Some(min) = &manifest.min_app_version {
            if !version_gte(self.app_version.as_str(), min.as_str()) {
                return Err(self.version_refusal(manifest, min));
            }
            let mut line = copy_str("min_app_version 兼容（App ");
            line.append(self.app_version.as_str());
            line.append("/min ");
            line.append(min.as_str());
            line.append("）");
            push_text(&mut audit, line);
        }
        assert(texts(audit@) =~= version_audit(self.app(), *manifest));
        let risks = scan_plugin_for_risks(manifest_content, entry_content, &manifest.network_allowlist);
        assert(texts(risks@).len() == risks@.len());
        if risks.len() > 0 {
            let mut e = copy_str("插件 ");
            e.append(manifest.id.as_str());
            e.append(" 静态扫描未通过：");
            e.append(join(&risks, "；").as_str());
            return Err(e);
        }
        push_text(&mut audit, copy_str("静态扫描通过"));
        match &manifest.signature {
            Some(s) => {
                match verify_plugin_signature(manifest, entry_content) {
                    Ok(_) => {},
                    Err(e) => {
                        return Err(e);
                    },
                }
                let mut line = copy_str("签名校验通过（");
                line.append(s.algorithm.as_str());
                line.append("）");
                push_text(&mut audit, line);
            },
            None => {
                if self.require_signature {
                    let mut e = copy_str("插件 ");
                    e.append(manifest.id.as_str());
                    e.append(" 缺少签名，拒绝加载");
                    return Err(e);
                }
            },
        }
        Ok(
            PluginInstallReport {
                id: manifest.id.clone(),
                version: manifest.version.clone(),
                state: PluginInstallState::Verified,
                audit,
            },
        )
    }

    /// Whether a vetted plugin may be copied into place: not where it is
    /// installed already.
    pub fn may_install(&self, report: &PluginInstallReport, installed: bool) -> (r: Result<(), String>)
        requires
            report.state == PluginInstallState::Verified,
        ensures
            reports(
                r,
                if installed {
                    Err("插件 "@ + report.id@ + " 已安装（先 update 或 uninstall）"@)
                } else {
                    Ok(())
                },
            ),
    {
        if installed {
            let mut e = copy_str("插件 ");
            e.append(report.id.as_str());
            e.append(" 已安装（先 update 或 uninstall）");
            return Err(e);
        }
        Ok(())
    }

    /// The end of an installation, once the plugin was copied to `target`.
    pub fn install(
        &self,
        report: PluginInstallReport,
        target: &str,
        copied: Result<(), String>,
    ) -> (r: Result<PluginInstallReport, String>)
        requires
            report.state == PluginInstallState::Verified,
        ensures
            match copied {
                Ok(_) => {
                    &&& r matches Ok(done)
                    &&& done.id == report.id
                    &&& done.version == report.version
                    &&& done.state == PluginInstallState::Activated
                    &&& texts(done.audit@) == texts(report.audit@).push("已激活到 "@ + target@)
                },
                Err(e) => r == Err::<PluginInstallReport, String>(e),
            },
    {
        match copied {
            Ok(_) => {
                let mut audit = report.audit;
                let mut line = copy_str("已激活到 ");
                line.append(target);
                push_text(&mut audit, line);
                Ok(
                    PluginInstallReport {
                        id: report.id,
                        version: report.version,
                        state: PluginInstallState::Activated,
                        audit,
                    },
                )
            },
            Err(e) => Err(e),
        }
    }

    /// The name of the backup that an update makes of the old version, where the
    /// plugin is installed; an update of one that is not is refused.
    pub fn update_backup_name(&self, report: &PluginInstallReport, installed: bool) -> (r: Result<String, String>)
        requires
            report.state == PluginInstallState::Verified,
        ensures
            match r {
                Ok(name) => installed && name@ == report.id@ + "-"@ + report.version@,
                Err(e) => !installed && e@ == "插件 "@ + report.id@ + " 未安装，无法更新"@,
            },
    {
        if !installed {
            let mut e = copy_str("插件 ");
            e.append(report.id.as_str());
            e.append(" 未安装，无法更新");
            return Err(e);
        }
        let mut name = copy_str(report.id.as_str());
        name.append("-");
        name.append(report.version.as_str());
        Ok(name)
    }

    /// An update after the old version was copied to `backup`.
    pub fn update_backed_up(
        &self,
        report: PluginInstallReport,
        backup: &str,
        copied: Result<(), String>,
    ) -> (r: Result<PluginInstallReport, String>)
        requires
            report.state == PluginInstallState::Verified,
        ensures
            match copied {
                Ok(_) => {
                    &&& r matches Ok(next)
                    &&& next.id == report.id
                    &&& next.version == report.version
                    &&& next.state == report.state
                    &&& texts(next.audit@) == texts(report.audit@).push("旧版已备份到 "@ + backup@)
                },
                Err(e) => r == Err::<PluginInstallReport, String>(e),
            },
    {
        match copied {
            Ok(_) => {
                let mut audit = report.audit;
                let mut line = copy_str("旧版已备份到 ");
                line.append(backup);
                push_text(&mut audit, line);
                Ok(PluginInstallReport { id: report.id, version: report.version, state: report.state, audit })
            },
            Err(e) => Err(e),
        }
    }

    /// The end of an update, once the new version was copied into place: where
    /// that failed, the old version is put back and the update fails.
    pub fn update(&self, report: PluginInstallReport, copied: Result<(), String>) -> (r: UpdateEnd)
        requires
            report.state == PluginInstallState::Verified,
        ensures
            match copied {
                Ok(_) => {
                    &&& r matches UpdateEnd::Activated(done)
                    &&& done.id == report.id
                    &&& done.version == report.version
                    &&& done.state == PluginInstallState::Activated
                    &&& texts(done.audit@) == texts(report.audit@).push("已更新到版本 "@ + report.version@)
                },
                Err(e) => r matches UpdateEnd::RollBack(m) && m@ == "更新失败："@ + e@ + "；已回滚旧版"@,
            },
    {
        match copied {
            Ok(_) => {
                let mut audit = report.audit;
                let mut line = copy_str("已更新到版本 ");
                line.append(report.version.as_str());
                push_text(&mut audit, line);
                UpdateEnd::Activated(
                    PluginInstallReport {
                        id: report.id,
                        version: report.version,
                        state: PluginInstallState::Activated,
                        audit,
                    },
                )
            },
            Err(error) => {
                let mut e = copy_str("更新失败：");
                e.append(error.as_str());
                e.append("；已回滚旧版");
                UpdateEnd::RollBack(e)
            },
        }
    }

    /// What the removal of a plugin reports; `removed` is what came of it, where
    /// the plugin is installed.
    pub fn uninstall(&self, id: &str, removed: Option<Result<(), String>>) -> (r: Result<Vec<String>, String>)
        ensures
            match removed {
                Some(Ok(_)) => r matches Ok(v) && texts(v@) == seq!["已卸载 "@ + id@],
                Some(Err(e)) => r == Err::<Vec<String>, String>(e),
                None => r matches Err(e) && e@ == "插件 "@ + id@ + " 未安装"@,
            },
    {
        match removed {
            Some(Ok(_)) => {
                let mut line = copy_str("已卸载 ");
                line.append(id);
                let mut v: Vec<String> = Vec::new();
                push_text(&mut v, line);
                assert(texts(v@) =~= seq!["已卸载 "@ + id@]);
                Ok(v)
            },
            Some(Err(e)) => Err(e),
            None => {
                let mut e = copy_str("插件 ");
                e.append(id);
                e.append(" 未安装");
                Err(e)
            },
        }
    }
}

/// What passes the vetting runs with the application, holds no risk, and has a
/// good signature wherever it has one; without one it passes only where none is
/// asked for.
pub proof fn vetted_is_safe(
    app: Seq<char>,
    require_signature: bool,
    m: PluginManifest,
    content: Seq<char>,
    entry: Option<Seq<char>>,
)
    ensures
        vetting(app, require_signature, m, content, entry) is Ok <==> {
            &&& m.min_app_version matches Some(min) ==> at_least(app, min@)
            &&& risks_of(scanned_text(content, entry), texts(m.network_allowlist@)).len() == 0
            &&& m.signature is Some ==> signature_verdict(m, entry) is Ok
            &&& require_signature ==> m.signature is Some
        },
{
}

// ---------------------------------------------------------------------------
// Market
// ---------------------------------------------------------------------------

/// How far the review of a submitted plugin has come.
#[derive(Debug, Clone, Copy, PartialEq, Eq, Structural)]
pub enum PluginReviewState {
    Submitted,
    Approved,
    Rejected,
}

/// A plugin that was submitted to the market.
pub struct PluginSubmission {
    pub id: String,
    pub version: String,
    pub review_state: PluginReviewState,
    pub review_note: Option<String>,
    pub signature: Option<PluginSignature>,
}

/// A plugin of the market.
pub struct MarketPluginEntry {
    pub id: String,
    pub latest_version: String,
    pub min_app_version: Option<String>,
    pub signature: Option<PluginSignature>,
}

/// The plugins of the market.
pub struct MarketUpdateManifest {
    pub plugins: Vec<MarketPluginEntry>,
}

/// The entry is a newer version of the plugin that runs with the application.
pub open spec fn is_update(e: MarketPluginEntry, id: Seq<char>, local: Seq<char>, app: Seq<char>) -> bool {
    &&& e.id@ == id
    &&& version_rank(e.latest_version@, local) > 0
    &&& e.min_app_version matches Some(min) ==> at_least(app, min@)
}

impl MarketUpdateManifest {
    /// Whether the market holds a newer version of the plugin that runs with the
    /// application.
    pub fn has_update(&self, plugin_id: &str, local_version: &str, app_version: &str) -> (r: bool)
        ensures
            r <==> exists|i: int|
                0 <= i < self.plugins@.len() && is_update(
                    #[trigger] self.plugins@[i],
                    plugin_id@,
                    local_version@,
                    app_version@,
                ),
    {
        for i in 0..self.plugins.len()
            invariant
                forall|j: int|
                    0 <= j < i ==> !is_update(
                        #[trigger] self.plugins@[j],
                        plugin_id@,
                        local_version@,
                        app_version@,
                    ),
        {
            let entry = &self.plugins[i];
            let runs = match &entry.min_app_version {
                Some(min) => version_gte(app_version, min.as_str()),
                None => true,
            };
            if same_text(entry.id.as_str(), plugin_id) && version_higher(
                entry.latest_version.as_str(),
                local_version,
            ) && runs {
                assert(is_update(self.plugins@[i as int], plugin_id@, local_version@, app_version@));
                return true;
            }
        }
        false
    }
}

// ---------------------------------------------------------------------------
// Tools of a plugin
// ---------------------------------------------------------------------------

/// The path that `s` stands for beside the manifest, where it stands for one.
pub open spec fn resolved_or_same(resolved: Map<Seq<char>, String>, s: Seq<char>) -> Seq<char> {
    if resolved.contains_key(s) {
        resolved[s]@
    } else {
        s
    }
}

fn resolve(resolved: &Table<String>, s: &String) -> (r: String)
    requires
        resolved.wf(),
    ensures
        r@ == resolved_or_same(resolved@, s@),
{
    match resolved.get(s.as_str()) {
        Some(path) => path.clone(),
        None => s.clone(),
    }
}

/// The server of a plugin, under the identifier of the plugin. `resolved` holds
/// the full path of each relative path that exists beside the manifest; the
/// command and the arguments that are such paths are replaced.
pub fn plugin_mcp_config(manifest: &PluginManifest, resolved: &Table<String>) -> (r: Option<McpServerConfig>)
    requires
        resolved.wf(),
    ensures
        r is Some <==> manifest.mcp is Some,
        r matches Some(c) ==> {
            let m = manifest.mcp->0;
            &&& c.name == manifest.id
            &&& c.transport == m.transport
            &&& c.command@ == resolved_or_same(resolved@, m.command@)
            &&& c.args@.len() == m.args@.len()
            &&& forall|i: int|
                0 <= i < m.args@.len() ==> (#[trigger] c.args@[i])@ == resolved_or_same(resolved@, m.args@[i]@)
            &&& c.url == m.url
            &&& c.timeout_ms == m.timeout_ms
        },
{
    match &manifest.mcp {
        Some(m) => {
            let mut args: Vec<String> = Vec::new();
            for i in 0..m.args.len()
                invariant
                    resolved.wf(),
                    args@.len() == i,
                    forall|j: int|
                        0 <= j < i ==> (#[trigger] args@[j])@ == resolved_or_same(resolved@, m.args@[j]@),
            {
                args.push(resolve(resolved, &m.args[i]));
            }
            Some(
                McpServerConfig {
                    name: manifest.id.clone(),
                    transport: m.transport.clone(),
                    command: resolve(resolved, &m.command),
                    args,
                    url: m.url.clone(),
                    timeout_ms: m.timeout_ms,
                },
            )
        },
        None => None,
    }
}

/// What is signed holds the identifier, the name and the version of a plugin and ends
/// with its script: another script, or another identifier as long, is another text.
#[verifier::spinoff_prover]
#[verifier::rlimit(40)]
pub proof fn the_signature_covers_the_script(
    a: PluginManifest,
    b: PluginManifest,
    s: Seq<char>,
    t: Seq<char>,
)
    ensures
        signed_text(a, Some(s)) == signed_text(a, Some(t)) ==> s == t,
        begins_with(signed_text(a, Some(s)), a.id@) && has_text(signed_text(a, Some(s)), a.name@) && has_text(
            signed_text(a, Some(s)),
            a.version@,
        ) && has_text(signed_text(a, Some(s)), or_empty(a.entry)) && finishes_with(signed_text(a, Some(s)), s),
        a.id@.len() == b.id@.len() && signed_text(a, Some(s)) == signed_text(b, Some(t)) ==> a.id@ == b.id@,
        digest_of(a, Some(s)) == sha256_of(encode_utf8(signed_text(a, Some(s)))),
{
    let bar = "|"@;
    let e = or_empty(a.entry);
    let x = signed_text(a, Some(s));
    let head = a.id@ + bar + a.name@ + bar + a.version@ + bar + e;
    assert(x.skip((head.len() + bar.len()) as int) == s && x.len() == head.len() + bar.len() + s.len()) by {
        assert(x =~= head + bar + s);
        assert(x.skip((head.len() + bar.len()) as int) =~= s);
    }
    assert(signed_text(a, Some(t)).skip((head.len() + bar.len()) as int) == t) by {
        let y = signed_text(a, Some(t));
        assert(y =~= head + bar + t);
        assert(y.skip((head.len() + bar.len()) as int) =~= t);
    }
    assert(x.take(a.id@.len() as int) == a.id@) by {
        assert(x.take(a.id@.len() as int) =~= a.id@);
    }
    assert(has_text(x, a.name@)) by {
        assert(x =~= (a.id@ + bar) + a.name@ + (bar + a.version@ + bar + e + bar + s));
        parts_stand_in_the_whole(a.id@ + bar, a.name@, bar + a.version@ + bar + e + bar + s, x);
    }
    assert(has_text(x, a.version@)) by {
        assert(x =~= (a.id@ + bar + a.name@ + bar) + a.version@ + (bar + e + bar + s));
        parts_stand_in_the_whole(a.id@ + bar + a.name@ + bar, a.version@, bar + e + bar + s, x);
    }
    assert(has_text(x, e)) by {
        assert(x =~= (a.id@ + bar + a.name@ + bar + a.version@ + bar) + e + (bar + s));
        parts_stand_in_the_whole(a.id@ + bar + a.name@ + bar + a.version@ + bar, e, bar + s, x);
    }
    let z = signed_text(b, Some(t));
    if a.id@.len() == b.id@.len() && x == z {
        assert(z.take(b.id@.len() as int) =~= b.id@);
    }
}

/// A signature is good exactly if it is there, is of the kind that is known, can be
/// read, and its key signed what the plugin is.
pub proof fn good_signatures_are_checked(m: PluginManifest, entry: Option<Seq<char>>)
    ensures
        signature_verdict(m, entry) is Ok <==> (m.signature matches Some(s) && unicode_lower(s.algorithm@) == "ed25519"@ && (
        base64_decoded(s.public_key_b64@) matches Ok(key) && base64_decoded(s.signature_b64@) matches Ok(signature)
            && is_ed25519_key(key) && signature.len() == 64 && is_signed(key, digest_of(m, entry), signature))),
{
}

/// A plugin that passes leaves a record of what was checked: the scan always, the
/// version where one is asked for, the signature where there is one.
pub proof fn passing_is_on_record(
    app: Seq<char>,
    require_signature: bool,
    m: PluginManifest,
    content: Seq<char>,
    entry: Option<Seq<char>>,
)
    ensures
        vetting(app, require_signature, m, content, entry) matches Ok(lines) ==> {
            &&& lines.contains("静态扫描通过"@)
            &&& lines.len() == 1 + (if m.min_app_version is Some { 1int } else { 0int }) + (if m.signature is Some {
                1int
            } else {
                0int
            })
        },
{
    match vetting(app, require_signature, m, content, entry) {
        Ok(lines) => {
            let n = version_audit(app, m).len() as int;
            assert(lines[n] == "静态扫描通过"@);
        },
        Err(_) => {},
    }
}

/// A plugin on the market is an update if it is the same plugin, its version is higher
/// than the one that is here, and it runs with the application.
pub proof fn updates_are_higher_and_run(e: MarketPluginEntry, id: Seq<char>, local: Seq<char>, app: Seq<char>)
    ensures
        is_update(e, id, local, app) ==> e.id@ == id && !at_least(local, e.latest_version@),
        is_update(e, id, local, app) && e.min_app_version is Some ==> at_least(app, e.min_app_version->0@),
        e.id@ == id && !at_least(local, e.latest_version@) && e.min_app_version is None ==> is_update(e, id, local, app),
{
    crate::version::version_order(e.latest_version@, local, app);
}

/// A name that stands for another is replaced by it; any other stays.
pub proof fn known_names_are_replaced(resolved: Map<Seq<char>, String>, s: Seq<char>)
    ensures
        resolved.contains_key(s) ==> resolved_or_same(resolved, s) == resolved[s]@,
        !resolved.contains_key(s) ==> resolved_or_same(resolved, s) == s,
{
}

/// A report tells one verdict.
pub proof fn reports_tell_one_verdict(r: Result<(), String>, m: Result<(), Seq<char>>, n: Result<(), Seq<char>>)
    ensures
        reports(r, m) && reports(r, n) && m is Err ==> m == n,
        reports(r, m) ==> (r is Ok <==> m is Ok),
        r is Ok ==> reports(r, Ok::<(), Seq<char>>(())),
        r matches Err(e) ==> reports(r, Err::<(), Seq<char>>(e@)),
{
}

} // verus!

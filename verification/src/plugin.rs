//! Plugins: their manifests, which of them are switched on, the choice of a
//! version, and the scan of what they hold.

use crate::mcp::McpServerConfig;
use crate::table::Table;
use crate::text::{
    after_prefix, begins_with, blank, chars_of, contains_string, contains_text, copy_str, finishes_with, has_text, lowercase,
    matches_at, parts_stand_in_the_whole,
    occurs_at, same_text, string_of, strip_prefix, text_less, texts, trimmed, unicode_lower,
};
use crate::version::{at_least, version_gte, version_higher, version_rank};
use vstd::prelude::*;

pub mod install;

verus! {

/// The signature in a manifest.
pub struct PluginSignature {
    /// Only `ed25519` is known.
    pub algorithm: String,
    pub public_key_b64: String,
    pub signature_b64: String,
}

/// What a plugin says of itself.
pub struct PluginManifest {
    pub id: String,
    pub name: String,
    pub version: String,
    pub description: String,
    pub permissions: Vec<String>,
    /// The server through which the tools of the plugin are reached.
    pub mcp: Option<McpServerConfig>,
    /// The lowest version of the application that can run the plugin.
    pub min_app_version: Option<String>,
    /// The script that is scanned and signed.
    pub entry: Option<String>,
    /// The domains that the plugin may reach.
    pub network_allowlist: Vec<String>,
    pub signature: Option<PluginSignature>,
}

impl PluginManifest {
    /// Accepts a manifest that was read, or passes on why it could not be read:
    /// the identifier and the name must not be blank.
    pub fn load(read: Result<PluginManifest, String>) -> (r: Result<PluginManifest, String>)
        ensures
            match read {
                Ok(m) => if trimmed(m.id@).len() == 0 || trimmed(m.name@).len() == 0 {
                    r matches Err(e) && e@ == "插件 id 与 name 不能为空"@
                } else {
                    r == read
                },
                Err(_) => r == read,
            },
    {
        match read {
            Ok(manifest) => {
                if blank(manifest.id.as_str()) || blank(manifest.name.as_str()) {
                    return Err(copy_str("插件 id 与 name 不能为空"));
                }
                Ok(manifest)
            },
            Err(e) => Err(e),
        }
    }
}

// ---------------------------------------------------------------------------
// Discovery
// ---------------------------------------------------------------------------

/// One of the plugins has the identifier.
pub open spec fn has_id(v: Seq<(String, PluginManifest)>, id: Seq<char>) -> bool {
    exists|i: int| 0 <= i < v.len() && (#[trigger] v[i]).1.id@ == id
}

/// The plugins whose identifier none before them has.
pub open spec fn first_of_each(v: Seq<(String, PluginManifest)>) -> Seq<(String, PluginManifest)>
    decreases v.len(),
{
    if v.len() == 0 {
        seq![]
    } else {
        let front = first_of_each(v.drop_last());
        if has_id(front, v.last().1.id@) {
            front
        } else {
            front.push(v.last())
        }
    }
}

/// The plugins that are not switched off.
pub open spec fn switched_on(
    v: Seq<(String, PluginManifest)>,
    off: Set<Seq<char>>,
) -> Seq<(String, PluginManifest)>
    decreases v.len(),
{
    if v.len() == 0 {
        seq![]
    } else if off.contains(v.last().1.id@) {
        switched_on(v.drop_last(), off)
    } else {
        switched_on(v.drop_last(), off).push(v.last())
    }
}

/// The plugins among those found, those of the workspace before the others:
/// where two have the same identifier, the one that was found first.
pub fn discover_plugins(found: Vec<(String, PluginManifest)>) -> (r: Vec<(String, PluginManifest)>)
    ensures
        r@ == first_of_each(found@),
{
    let ghost all = found@;
    let mut rest = found;
    let mut kept: Vec<(String, PluginManifest)> = Vec::new();
    let ghost mut n: int = 0;
    while rest.len() > 0
        invariant
            0 <= n <= all.len(),
            rest@ == all.skip(n),
            kept@ == first_of_each(all.take(n)),
        decreases rest@.len(),
    {
        let plugin = rest.remove(0);
        proof {
            assert(plugin == all[n]);
            assert(rest@ =~= all.skip(n + 1));
            assert(all.take(n + 1).drop_last() =~= all.take(n));
            n = n + 1;
        }
        let mut seen = false;
        for i in 0..kept.len()
            invariant
                seen <==> exists|j: int| 0 <= j < i && (#[trigger] kept@[j]).1.id@ == plugin.1.id@,
        {
            if same_text(kept[i].1.id.as_str(), plugin.1.id.as_str()) {
                seen = true;
            }
        }
        if !seen {
            kept.push(plugin);
        }
    }
    assert(all.take(n) =~= all);
    kept
}

/// The plugins that are switched on, as `discover_plugins` finds them.
pub fn discover_enabled_plugins(
    found: Vec<(String, PluginManifest)>,
    state: &PluginStateStore,
) -> (r: Vec<(String, PluginManifest)>)
    requires
        state.wf(),
    ensures
        r@ == switched_on(first_of_each(found@), state@),
{
    let mut rest = discover_plugins(found);
    let ghost all = rest@;
    let mut kept: Vec<(String, PluginManifest)> = Vec::new();
    let ghost mut n: int = 0;
    while rest.len() > 0
        invariant
            state.wf(),
            0 <= n <= all.len(),
            rest@ == all.skip(n),
            kept@ == switched_on(all.take(n), state@),
        decreases rest@.len(),
    {
        let plugin = rest.remove(0);
        proof {
            assert(plugin == all[n]);
            assert(rest@ =~= all.skip(n + 1));
            assert(all.take(n + 1).drop_last() =~= all.take(n));
            n = n + 1;
        }
        if state.is_enabled(plugin.1.id.as_str()) {
            kept.push(plugin);
        }
    }
    assert(all.take(n) =~= all);
    kept
}

/// No two of the plugins found have the same identifier, and every identifier
/// that was found is kept.
pub proof fn discovery_keeps_each_once(v: Seq<(String, PluginManifest)>)
    ensures
        forall|i: int, j: int|
            0 <= i < j < first_of_each(v).len() ==> (#[trigger] first_of_each(v)[i]).1.id@ != (
            #[trigger] first_of_each(v)[j]).1.id@,
        forall|id: Seq<char>| #[trigger] has_id(v, id) <==> has_id(first_of_each(v), id),
    decreases v.len(),
{
    if v.len() > 0 {
        let front = v.drop_last();
        discovery_keeps_each_once(front);
        let kept = first_of_each(front);
        let last = v.last().1.id@;
        assert forall|id: Seq<char>| #[trigger] has_id(v, id) <==> has_id(first_of_each(v), id) by {
            assert(has_id(front, id) <==> has_id(kept, id));
            if has_id(v, id) {
                let i = choose|i: int| 0 <= i < v.len() && (#[trigger] v[i]).1.id@ == id;
                if i < front.len() {
                    assert(front[i].1.id@ == id);
                } else if !has_id(kept, last) {
                    assert(first_of_each(v)[kept.len() as int].1.id@ == id);
                }
                if has_id(kept, id) {
                    let k = choose|k: int| 0 <= k < kept.len() && (#[trigger] kept[k]).1.id@ == id;
                    assert(first_of_each(v)[k].1.id@ == id);
                }
            }
            if has_id(first_of_each(v), id) {
                let k = choose|k: int| 0 <= k < first_of_each(v).len() && (#[trigger] first_of_each(v)[k]).1.id@ == id;
                if k < kept.len() {
                    assert(kept[k].1.id@ == id);
                    let i = choose|i: int| 0 <= i < front.len() && (#[trigger] front[i]).1.id@ == id;
                    assert(v[i].1.id@ == id);
                } else {
                    assert(v[v.len() - 1].1.id@ == id);
                }
            }
        }
    }
}

// ---------------------------------------------------------------------------
// State
// ---------------------------------------------------------------------------

/// Which plugins are switched off. A plugin that is not named is on.
pub struct PluginStateStore {
    disabled: Table<()>,
}

impl View for PluginStateStore {
    type V = Set<Seq<char>>;

    /// The identifiers of the plugins that are off.
    closed spec fn view(&self) -> Set<Seq<char>> {
        self.disabled@.dom()
    }
}

impl PluginStateStore {
    pub closed spec fn wf(self) -> bool {
        self.disabled.wf() && self.disabled.sorted()
    }

    /// A store with the identifiers that were kept.
    pub fn new(disabled: &Vec<String>) -> (r: PluginStateStore)
        ensures
            r.wf(),
            r@ == texts(disabled@).to_set(),
    {
        let mut table: Table<()> = Table::new();
        for i in 0..disabled.len()
            invariant
                table.wf(),
                table.sorted(),
                table@.dom() == texts(disabled@).take(i as int).to_set(),
        {
            proof {
                let all = texts(disabled@);
                assert(all[i as int] == disabled@[i as int]@);
                assert(all.take(i + 1) =~= all.take(i as int).push(disabled@[i as int]@));
                set_of_push(all.take(i as int), disabled@[i as int]@);
            }
            table.insert_sorted(disabled[i].clone(), ());
            assert(table@.dom() =~= texts(disabled@).take(i + 1).to_set());
        }
        assert(texts(disabled@).take(disabled@.len() as int) =~= texts(disabled@));
        PluginStateStore { disabled: table }
    }

    /// Switches a plugin on or off.
    pub fn set_enabled(&mut self, id: &str, enabled: bool)
        requires
            old(self).wf(),
        ensures
            final(self).wf(),
            final(self)@ == (if enabled {
                old(self)@.remove(id@)
            } else {
                old(self)@.insert(id@)
            }),
    {
        if enabled {
            let _ = self.disabled.remove(id);
        } else {
            self.disabled.insert_sorted(copy_str(id), ());
        }
        assert(self@ =~= (if enabled {
            old(self)@.remove(id@)
        } else {
            old(self)@.insert(id@)
        }));
    }

    /// Whether a plugin is on.
    pub fn is_enabled(&self, id: &str) -> (r: bool)
        requires
            self.wf(),
        ensures
            r == !self@.contains(id@),
    {
        !self.disabled.contains(id)
    }

    /// The plugins that are off, in order.
    pub fn disabled_ids(&self) -> (r: Vec<String>)
        requires
            self.wf(),
        ensures
            texts(r@).to_set() == self@,
            forall|i: int, j: int| 0 <= i < j < r@.len() ==> text_less((#[trigger] r@[i])@, (#[trigger] r@[j])@),
    {
        let mut r: Vec<String> = Vec::new();
        for i in 0..self.disabled.entries.len()
            invariant
                r@.len() == i,
                forall|j: int| 0 <= j < i ==> (#[trigger] r@[j])@ == self.disabled.entries@[j].0@,
        {
            r.push(self.disabled.entries[i].0.clone());
        }
        proof {
            assert forall|q: Seq<char>| texts(r@).to_set().contains(q) <==> self@.contains(q) by {
                if texts(r@).contains(q) {
                    let i = choose|i: int| 0 <= i < texts(r@).len() && texts(r@)[i] == q;
                    assert(r@[i]@ == q);
                    self.disabled.entry_is_value(i);
                }
                if self@.contains(q) {
                    self.disabled.slot_of_key(q);
                    let i = self.disabled.slot(q);
                    assert(texts(r@)[i] == r@[i]@);
                }
            }
            assert(texts(r@).to_set() =~= self@);
        }
        r
    }

    /// Switches every plugin on.
    pub fn reset(&mut self)
        ensures
            final(self).wf(),
            final(self)@ == Set::<Seq<char>>::empty(),
    {
        self.disabled = Table::new();
        assert(self@ =~= Set::<Seq<char>>::empty());
    }
}

proof fn set_of_push(s: Seq<Seq<char>>, x: Seq<char>)
    ensures
        s.push(x).to_set() == s.to_set().insert(x),
{
    assert forall|q: Seq<char>| s.push(x).to_set().contains(q) <==> s.to_set().insert(x).contains(q) by {
        if s.push(x).contains(q) {
            let i = choose|i: int| 0 <= i < s.push(x).len() && s.push(x)[i] == q;
            if i < s.len() {
                assert(s[i] == q);
            }
        }
        if s.contains(q) {
            let i = choose|i: int| 0 <= i < s.len() && s[i] == q;
            assert(s.push(x)[i] == q);
        }
        if q == x {
            assert(s.push(x)[s.len() as int] == q);
        }
    }
    assert(s.push(x).to_set() =~= s.to_set().insert(x));
}

/// A plugin that is switched off is off and one that is switched on is on; no
/// other plugin changes.
pub proof fn switching_is_local(off: Set<Seq<char>>, id: Seq<char>, other: Seq<char>)
    ensures
        off.insert(id).contains(id),
        !off.remove(id).contains(id),
        other != id ==> off.insert(id).contains(other) == off.contains(other),
        other != id ==> off.remove(id).contains(other) == off.contains(other),
{
}

// ---------------------------------------------------------------------------
// Compatible versions
// ---------------------------------------------------------------------------

/// The versions of a plugin, with the lowest version of the application for each.
pub struct VersionsJson {
    pub compatibility: Table<String>,
}

/// The entry that is chosen among the first `n`: the highest version that runs,
/// of equal ones the last.
pub open spec fn best_entry(v: Seq<(String, String)>, app: Seq<char>, n: int) -> Option<int>
    decreases n,
{
    if n <= 0 {
        None
    } else {
        let before = best_entry(v, app, n - 1);
        if !at_least(app, v[n - 1].1@) {
            before
        } else {
            match before {
                Some(i) => if version_rank(v[i].0@, v[n - 1].0@) > 0 {
                    Some(i)
                } else {
                    Some(n - 1)
                },
                None => Some(n - 1),
            }
        }
    }
}

proof fn best_entry_bounds(v: Seq<(String, String)>, app: Seq<char>, n: int)
    requires
        0 <= n <= v.len(),
    ensures
        best_entry(v, app, n) matches Some(i) ==> 0 <= i < n && at_least(app, v[i].1@),
        best_entry(v, app, n) is None ==> forall|i: int| 0 <= i < n ==> !at_least(app, (#[trigger] v[i]).1@),
    decreases n,
{
    if n > 0 {
        best_entry_bounds(v, app, n - 1);
    }
}

impl VersionsJson {
    /// The version of the plugin to install with the application at
    /// `current_app_version`: of those that run with it, the highest. None where
    /// none runs.
    pub fn resolve_compatible(&self, current_app_version: &str) -> (r: Option<String>)
        requires
            self.compatibility.wf(),
            self.compatibility.sorted(),
        ensures
            match r {
                Some(s) => best_entry(
                    self.compatibility.entries@,
                    current_app_version@,
                    self.compatibility.entries@.len() as int,
                ) matches Some(i) && s == self.compatibility.entries@[i].0,
                None => best_entry(
                    self.compatibility.entries@,
                    current_app_version@,
                    self.compatibility.entries@.len() as int,
                ) is None,
            },
    {
        let v = &self.compatibility.entries;
        let mut best: Option<usize> = None;
        for k in 0..v.len()
            invariant
                best matches Some(i) ==> i < k && best_entry(v@, current_app_version@, k as int) == Some(i as int),
                best is None ==> best_entry(v@, current_app_version@, k as int) is None,
        {
            if version_gte(current_app_version, v[k].1.as_str()) {
                match best {
                    Some(i) => {
                        if !version_higher(v[i].0.as_str(), v[k].0.as_str()) {
                            best = Some(k);
                        }
                    },
                    None => {
                        best = Some(k);
                    },
                }
            }
        }
        match best {
            Some(i) => Some(v[i].0.clone()),
            None => None,
        }
    }
}

/// A version is chosen exactly when one runs with the application, and what is
/// chosen runs with it.
pub proof fn chosen_version_runs(v: Seq<(String, String)>, app: Seq<char>)
    ensures
        best_entry(v, app, v.len() as int) is Some <==> exists|i: int|
            0 <= i < v.len() && at_least(app, (#[trigger] v[i]).1@),
        best_entry(v, app, v.len() as int) matches Some(i) ==> 0 <= i < v.len() && at_least(app, v[i].1@),
{
    best_entry_bounds(v, app, v.len() as int);
}

/// Where every version can be read as numbers, no version that runs is higher
/// than the one that is chosen.
pub proof fn chosen_version_is_highest(v: Seq<(String, String)>, app: Seq<char>, n: int)
    requires
        0 <= n <= v.len(),
        forall|i: int| 0 <= i < v.len() ==> crate::version::is_plain((#[trigger] v[i]).0@),
    ensures
        best_entry(v, app, n) matches Some(b) ==> forall|i: int|
            0 <= i < n && at_least(app, (#[trigger] v[i]).1@) ==> at_least(v[b].0@, v[i].0@),
    decreases n,
{
    if n > 0 {
        chosen_version_is_highest(v, app, n - 1);
        best_entry_bounds(v, app, n - 1);
        best_entry_bounds(v, app, n);
        if best_entry(v, app, n) is Some {
            let b = best_entry(v, app, n)->0;
            assert forall|i: int| 0 <= i < n && at_least(app, (#[trigger] v[i]).1@) implies at_least(
                v[b].0@,
                v[i].0@,
            ) by {
                match best_entry(v, app, n - 1) {
                    Some(c) => {
                        crate::version::version_order(v[c].0@, v[n - 1].0@, v[i].0@);
                        crate::version::version_order(v[n - 1].0@, v[c].0@, v[i].0@);
                        if i < n - 1 {
                            assert(at_least(v[c].0@, v[i].0@));
                        }
                    },
                    None => {
                        crate::version::version_order(v[n - 1].0@, v[n - 1].0@, v[i].0@);
                    },
                }
            }
        }
    }
}

// ---------------------------------------------------------------------------
// Scan
// ---------------------------------------------------------------------------

/// Calls that a plugin must not hold.
pub open spec fn risky_apis() -> Seq<Seq<char>> {
    seq![
        "os.system"@,
        "os.popen"@,
        "subprocess.Popen"@,
        "subprocess.call"@,
        "subprocess.run"@,
        "os.startfile"@,
        "shutil.rmtree"@,
        "ctypes.windll"@,
        "ctypes.CDLL"@,
        "eval("@,
        "exec("@,
        "execfile"@,
        "__import__('os')"@,
        "pickle.loads"@,
        "yaml.load("@,
        "tempfile.mktemp"@,
    ]
}

/// Calls that reach the network.
pub open spec fn network_apis() -> Seq<Seq<char>> {
    seq![
        "urllib.request"@,
        "urllib.urlopen"@,
        "requests.get"@,
        "requests.post"@,
        "http.client"@,
        "socket."@,
        "websocket"@,
        "aiohttp"@,
        "httpx."@,
    ]
}

fn risky_api_list() -> (r: Vec<String>)
    ensures
        texts(r@) == risky_apis(),
{
    let mut v: Vec<String> = Vec::new();
    v.push(copy_str("os.system"));
    v.push(copy_str("os.popen"));
    v.push(copy_str("subprocess.Popen"));
    v.push(copy_str("subprocess.call"));
    v.push(copy_str("subprocess.run"));
    v.push(copy_str("os.startfile"));
    v.push(copy_str("shutil.rmtree"));
    v.push(copy_str("ctypes.windll"));
    v.push(copy_str("ctypes.CDLL"));
    v.push(copy_str("eval("));
    v.push(copy_str("exec("));
    v.push(copy_str("execfile"));
    v.push(copy_str("__import__('os')"));
    v.push(copy_str("pickle.loads"));
    v.push(copy_str("yaml.load("));
    v.push(copy_str("tempfile.mktemp"));
    assert(texts(v@) =~= risky_apis());
    v
}

fn network_api_list() -> (r: Vec<String>)
    ensures
        texts(r@) == network_apis(),
{
    let mut v: Vec<String> = Vec::new();
    v.push(copy_str("urllib.request"));
    v.push(copy_str("urllib.urlopen"));
    v.push(copy_str("requests.get"));
    v.push(copy_str("requests.post"));
    v.push(copy_str("http.client"));
    v.push(copy_str("socket."));
    v.push(copy_str("websocket"));
    v.push(copy_str("aiohttp"));
    v.push(copy_str("httpx."));
    assert(texts(v@) =~= network_apis());
    v
}

/// A line for each of the words that stands in the text.
pub open spec fn flagged(text: Seq<char>, words: Seq<Seq<char>>, label: Seq<char>) -> Seq<Seq<char>>
    decreases words.len(),
{
    if words.len() == 0 {
        seq![]
    } else if has_text(text, words.last()) {
        flagged(text, words.drop_last(), label).push(label + words.last())
    } else {
        flagged(text, words.drop_last(), label)
    }
}

/// A character that ends an address.
pub open spec fn ends_url(c: char) -> bool {
    c == ' ' || c == '\t' || c == '\n' || c == '\u{c}' || c == '\r' || c == '"' || c == '\'' || c == ')' || c == ']'
        || c == '}'
}

/// Where the address that starts at `i` ends.
pub open spec fn url_end(s: Seq<char>, i: int) -> int
    decreases s.len() - i,
{
    if i >= s.len() || ends_url(s[i]) {
        i
    } else {
        url_end(s, i + 1)
    }
}

/// An address starts at `i`.
pub open spec fn url_starts(s: Seq<char>, i: int) -> bool {
    occurs_at(s, "http://"@, i) || occurs_at(s, "https://"@, i)
}

/// The addresses in the text from position `i` on; a bare `http://` at its very
/// end is none.
pub open spec fn urls_from(s: Seq<char>, i: int) -> Seq<Seq<char>>
    decreases s.len() - i,
{
    if i + 7 >= s.len() {
        seq![]
    } else if url_starts(s, i) && i < url_end(s, i) <= s.len() {
        seq![s.subrange(i, url_end(s, i))] + urls_from(s, url_end(s, i))
    } else {
        urls_from(s, i + 1)
    }
}

/// A character that ends the host of an address.
pub open spec fn ends_host(c: char) -> bool {
    c == '/' || c == '?' || c == '#' || c == ':'
}

/// Where the host that starts at the front of `s` ends, from `i` on.
pub open spec fn host_end(s: Seq<char>, i: int) -> int
    decreases s.len() - i,
{
    if i >= s.len() || ends_host(s[i]) {
        i
    } else {
        host_end(s, i + 1)
    }
}

/// What follows the scheme of an address.
pub open spec fn after_scheme(url: Seq<char>) -> Option<Seq<char>> {
    match after_prefix(url, "https://"@) {
        Some(rest) => Some(rest),
        None => after_prefix(url, "http://"@),
    }
}

/// The domain of an address, in lower case.
pub open spec fn domain_of(url: Seq<char>) -> Option<Seq<char>> {
    match after_scheme(url) {
        Some(rest) => if host_end(rest, 0) == 0 {
            None
        } else {
            Some(unicode_lower(rest.take(host_end(rest, 0))))
        },
        None => None,
    }
}

/// A line for each address whose domain is not on the list.
pub open spec fn strays(urls: Seq<Seq<char>>, allowed: Seq<Seq<char>>) -> Seq<Seq<char>>
    decreases urls.len(),
{
    if urls.len() == 0 {
        seq![]
    } else {
        let front = strays(urls.drop_last(), allowed);
        match domain_of(urls.last()) {
            Some(d) => if allowed.contains(d) {
                front
            } else {
                front.push("域外网络："@ + d)
            },
            None => front,
        }
    }
}

/// What is scanned: the manifest, and below it the script.
pub open spec fn scanned_text(manifest: Seq<char>, entry: Option<Seq<char>>) -> Seq<char> {
    manifest + "\n"@ + (match entry {
        Some(e) => e,
        None => Seq::<char>::empty(),
    })
}

/// The risks in a plugin.
pub open spec fn risks_of(text: Seq<char>, allowed: Seq<Seq<char>>) -> Seq<Seq<char>> {
    flagged(text, risky_apis(), "危险 API："@) + flagged(text, network_apis(), "网络调用（未白名单核验）："@) + strays(
        urls_from(text, 0),
        allowed,
    )
}

/// The text of an optional string slice.
pub open spec fn opt_view(s: Option<&str>) -> Option<Seq<char>> {
    match s {
        Some(t) => Some(t@),
        None => None,
    }
}

fn flag_words(text: &str, words: &Vec<String>, label: &str, into: Vec<String>) -> (r: Vec<String>)
    ensures
        texts(r@) == texts(into@) + flagged(text@, texts(words@), label@),
{
    let ghost start = texts(into@);
    let ghost all = texts(words@);
    let mut r = into;
    assert(start =~= start + flagged(text@, all.take(0), label@));
    for i in 0..words.len()
        invariant
            all == texts(words@),
            texts(r@) == start + flagged(text@, all.take(i as int), label@),
    {
        let ghost before = texts(r@);
        proof {
            assert(all.take(i + 1).drop_last() =~= all.take(i as int));
            assert(all[i as int] == words@[i as int]@);
        }
        if contains_text(text, words[i].as_str()) {
            let mut line = copy_str(label);
            line.append(words[i].as_str());
            r.push(line);
            assert(texts(r@) =~= before.push(label@ + all[i as int]));
            assert(texts(r@) =~= start + flagged(text@, all.take(i + 1), label@));
        }
    }
    assert(all.take(all.len() as int) =~= all);
    r
}

fn is_url_end(c: char) -> (r: bool)
    ensures
        r == ends_url(c),
{
    c == ' ' || c == '\t' || c == '\n' || c == '\u{c}' || c == '\r' || c == '"' || c == '\'' || c == ')' || c == ']'
        || c == '}'
}

fn find_url_end(v: &Vec<char>, from: usize) -> (r: usize)
    requires
        from <= v@.len(),
    ensures
        r == url_end(v@, from as int),
        from <= r <= v@.len(),
{
    let mut i: usize = from;
    while i < v.len() && !is_url_end(v[i])
        invariant
            from <= i <= v@.len(),
            url_end(v@, from as int) == url_end(v@, i as int),
        decreases v@.len() - i,
    {
        i += 1;
    }
    i
}

/// The addresses in the text.
pub fn extract_urls(text: &str) -> (r: Vec<String>)
    ensures
        texts(r@) == urls_from(text@, 0),
{
    let v = chars_of(text);
    let http = chars_of("http://");
    let https = chars_of("https://");
    let mut urls: Vec<String> = Vec::new();
    let mut i: usize = 0;
    assert(texts(urls@) + urls_from(text@, 0) =~= urls_from(text@, 0));
    let n: usize = v.len();
    while n > 7 && i < n - 7
        invariant
            v@ == text@,
            n == v@.len(),
            http@ == "http://"@,
            https@ == "https://"@,
            i <= n,
            urls_from(text@, 0) == texts(urls@) + urls_from(text@, i as int),
        decreases n - i,
    {
        let ghost before = texts(urls@);
        if matches_at(&v, &http, i) || matches_at(&v, &https, i) {
            let end = find_url_end(&v, i);
            if end > i {
                urls.push(string_of(&v, i, end));
                proof {
                    let one = seq![text@.subrange(i as int, end as int)];
                    assert(texts(urls@) =~= before + one);
                    assert(before + (one + urls_from(text@, end as int)) =~= (before + one) + urls_from(
                        text@,
                        end as int,
                    ));
                }
                i = end;
            } else {
                i += 1;
            }
        } else {
            i += 1;
        }
    }
    assert(texts(urls@) + urls_from(text@, i as int) =~= texts(urls@));
    urls
}

/// The domain of an address.
pub fn url_domain(url: &str) -> (r: Option<String>)
    ensures
        match r {
            Some(d) => domain_of(url@) == Some(d@),
            None => domain_of(url@) is None,
        },
{
    let rest = match strip_prefix(url, "https://") {
        Some(rest) => rest,
        None => match strip_prefix(url, "http://") {
            Some(rest) => rest,
            None => {
                return None;
            },
        },
    };
    let v = chars_of(rest.as_str());
    let mut i: usize = 0;
    while i < v.len() && v[i] != '/' && v[i] != '?' && v[i] != '#' && v[i] != ':'
        invariant
            v@ == rest@,
            i <= v@.len(),
            host_end(rest@, 0) == host_end(rest@, i as int),
        decreases v@.len() - i,
    {
        i += 1;
    }
    if i == 0 {
        None
    } else {
        let host = string_of(&v, 0, i);
        assert(host@ =~= rest@.take(i as int));
        Some(lowercase(host.as_str()))
    }
}

fn flag_strays(urls: &Vec<String>, allowed: &Vec<String>, into: Vec<String>) -> (r: Vec<String>)
    ensures
        texts(r@) == texts(into@) + strays(texts(urls@), texts(allowed@)),
{
    let ghost start = texts(into@);
    let ghost all = texts(urls@);
    let ghost list = texts(allowed@);
    let mut r = into;
    assert(start =~= start + strays(all.take(0), list));
    for i in 0..urls.len()
        invariant
            all == texts(urls@),
            list == texts(allowed@),
            texts(r@) == start + strays(all.take(i as int), list),
    {
        let ghost before = texts(r@);
        proof {
            assert(all.take(i + 1).drop_last() =~= all.take(i as int));
            assert(all[i as int] == urls@[i as int]@);
        }
        if let Some(domain) = url_domain(urls[i].as_str()) {
            if !contains_string(allowed, domain.as_str()) {
                let mut line = copy_str("域外网络：");
                line.append(domain.as_str());
                r.push(line);
                assert(texts(r@) =~= before.push("域外网络："@ + domain@));
                assert(texts(r@) =~= start + strays(all.take(i + 1), list));
            }
        }
    }
    assert(all.take(all.len() as int) =~= all);
    r
}

/// The risks in a plugin: calls that it must not hold, calls that reach the
/// network, and addresses outside the domains that it may reach. None where the
/// plugin passes.
pub fn scan_plugin_for_risks(
    manifest_content: &str,
    entry_content: Option<&str>,
    allowlist_domains: &Vec<String>,
) -> (r: Vec<String>)
    ensures
        texts(r@) == risks_of(
            scanned_text(manifest_content@, opt_view(entry_content)),
            texts(allowlist_domains@),
        ),
{
    let mut text = copy_str(manifest_content);
    text.append("\n");
    match entry_content {
        Some(e) => {
            text.append(e);
        },
        None => {},
    }
    proof {
        assert(text@ =~= scanned_text(manifest_content@, opt_view(entry_content)));
    }
    let none: Vec<String> = Vec::new();
    let risky = flag_words(text.as_str(), &risky_api_list(), "危险 API：", none);
    let network = flag_words(text.as_str(), &network_api_list(), "网络调用（未白名单核验）：", risky);
    let urls = extract_urls(text.as_str());
    let ghost first = flagged(text@, risky_apis(), "危险 API："@);
    assert(texts(none@) + first =~= first);
    flag_strays(&urls, allowlist_domains, network)
}

/// A plugin passes the scan exactly when it holds none of the calls, and no
/// address of a domain that it may not reach.
pub proof fn scan_passes(text: Seq<char>, allowed: Seq<Seq<char>>)
    ensures
        risks_of(text, allowed).len() == 0 <==> {
            &&& forall|k: int| 0 <= k < risky_apis().len() ==> !has_text(text, #[trigger] risky_apis()[k])
            &&& forall|k: int| 0 <= k < network_apis().len() ==> !has_text(text, #[trigger] network_apis()[k])
            &&& forall|k: int|
                0 <= k < urls_from(text, 0).len() ==> (domain_of(#[trigger] urls_from(text, 0)[k]) matches Some(d)
                    ==> allowed.contains(d))
        },
{
    flagged_none(text, risky_apis(), "危险 API："@);
    flagged_none(text, network_apis(), "网络调用（未白名单核验）："@);
    strays_none(urls_from(text, 0), allowed);
}

proof fn flagged_none(text: Seq<char>, words: Seq<Seq<char>>, label: Seq<char>)
    ensures
        flagged(text, words, label).len() == 0 <==> forall|k: int|
            0 <= k < words.len() ==> !has_text(text, #[trigger] words[k]),
    decreases words.len(),
{
    if words.len() > 0 {
        let front = words.drop_last();
        flagged_none(text, front, label);
        assert(forall|k: int| 0 <= k < front.len() ==> #[trigger] front[k] == words[k]);
        if forall|k: int| 0 <= k < front.len() ==> !has_text(text, #[trigger] front[k]) {
            assert forall|k: int| 0 <= k < words.len() - 1 implies !has_text(text, #[trigger] words[k]) by {
                assert(front[k] == words[k]);
            }
        }
        assert(words[words.len() - 1] == words.last());
    }
}

proof fn strays_none(urls: Seq<Seq<char>>, allowed: Seq<Seq<char>>)
    ensures
        strays(urls, allowed).len() == 0 <==> forall|k: int|
            0 <= k < urls.len() ==> (domain_of(#[trigger] urls[k]) matches Some(d) ==> allowed.contains(d)),
    decreases urls.len(),
{
    if urls.len() > 0 {
        let front = urls.drop_last();
        strays_none(front, allowed);
        assert(forall|k: int| 0 <= k < front.len() ==> #[trigger] front[k] == urls[k]);
        if forall|k: int|
            0 <= k < front.len() ==> (domain_of(#[trigger] front[k]) matches Some(d) ==> allowed.contains(d)) {
            assert forall|k: int| 0 <= k < urls.len() - 1 implies (domain_of(#[trigger] urls[k]) matches Some(d)
                ==> allowed.contains(d)) by {
                assert(front[k] == urls[k]);
            }
        }
        assert(urls[urls.len() - 1] == urls.last());
    }
}

/// Of plugins with the same identifier the first stays; plugins that are switched off
/// are left out, and no others.
pub proof fn first_plugins_stay(v: Seq<(String, PluginManifest)>, p: (String, PluginManifest), off: Set<Seq<char>>)
    ensures
        first_of_each(seq![]).len() == 0 && switched_on(seq![], off).len() == 0,
        (forall|i: int| 0 <= i < v.len() ==> (#[trigger] v[i]).1.id@ != p.1.id@) ==> first_of_each(v.push(p))
            == first_of_each(v).push(p),
        (exists|i: int| 0 <= i < v.len() && (#[trigger] v[i]).1.id@ == p.1.id@) ==> first_of_each(v.push(p))
            == first_of_each(v),
        !off.contains(p.1.id@) ==> switched_on(v.push(p), off) == switched_on(v, off).push(p),
        off.contains(p.1.id@) ==> switched_on(v.push(p), off) == switched_on(v, off),
{
    assert(v.push(p).drop_last() =~= v);
    discovery_keeps_each_once(v);
    assert(has_id(v, p.1.id@) <==> has_id(first_of_each(v), p.1.id@));
}

/// Of versions that are as high the last is chosen: every one behind the chosen one
/// that runs with the application is lower.
pub proof fn the_last_of_equals_is_chosen(v: Seq<(String, String)>, app: Seq<char>, n: int)
    requires
        0 <= n <= v.len(),
    ensures
        best_entry(v, app, n) matches Some(b) ==> 0 <= b < n && forall|i: int|
            b < i < n && at_least(app, (#[trigger] v[i]).1@) ==> version_rank(v[b].0@, v[i].0@) > 0,
    decreases n,
{
    if n > 0 {
        the_last_of_equals_is_chosen(v, app, n - 1);
    }
}

/// A call that is on the list of dangerous ones is reported, and so is one that reaches
/// for the network.
pub proof fn dangerous_calls_are_reported(text: Seq<char>, allowed: Seq<Seq<char>>, call: Seq<char>)
    requires
        has_text(text, call),
        call == "os.system"@ || call == "os.popen"@ || call == "subprocess.Popen"@ || call == "subprocess.call"@ || call
            == "subprocess.run"@ || call == "os.startfile"@ || call == "shutil.rmtree"@ || call == "ctypes.windll"@ || call
            == "ctypes.CDLL"@ || call == "eval("@ || call == "exec("@ || call == "execfile"@ || call
            == "__import__('os')"@ || call == "pickle.loads"@ || call == "yaml.load("@ || call == "tempfile.mktemp"@ || call
            == "urllib.request"@ || call == "urllib.urlopen"@ || call == "requests.get"@ || call == "requests.post"@ || call
            == "http.client"@ || call == "socket."@ || call == "websocket"@ || call == "aiohttp"@ || call == "httpx."@,
    ensures
        risks_of(text, allowed).len() > 0,
{
    scan_passes(text, allowed);
    let r = risky_apis();
    let n = network_apis();
    assert(has_text(text, r[0]) || has_text(text, r[1]) || has_text(text, r[2]) || has_text(text, r[3]) || has_text(text, r[4])
        || has_text(text, r[5]) || has_text(text, r[6]) || has_text(text, r[7]) || has_text(text, r[8]) || has_text(
        text,
        r[9],
    ) || has_text(text, r[10]) || has_text(text, r[11]) || has_text(text, r[12]) || has_text(text, r[13]) || has_text(
        text,
        r[14],
    ) || has_text(text, r[15]) || has_text(text, n[0]) || has_text(text, n[1]) || has_text(text, n[2]) || has_text(text, n[3])
        || has_text(text, n[4]) || has_text(text, n[5]) || has_text(text, n[6]) || has_text(text, n[7]) || has_text(
        text,
        n[8],
    ));
}

/// The risks of a script name what was found: a call by its name, an address by its
/// domain.
pub proof fn risks_name_what_was_found(text: Seq<char>, words: Seq<Seq<char>>, word: Seq<char>, label: Seq<char>)
    ensures
        flagged(text, seq![], label).len() == 0,
        has_text(text, word) ==> flagged(text, words.push(word), label) == flagged(text, words, label).push(label + word),
        !has_text(text, word) ==> flagged(text, words.push(word), label) == flagged(text, words, label),
{
    assert(words.push(word).drop_last() =~= words);
}

proof fn url_end_bounds(s: Seq<char>, i: int)
    requires
        0 <= i <= s.len(),
    ensures
        i <= url_end(s, i) <= s.len(),
        forall|j: int| i <= j < url_end(s, i) ==> !ends_url(#[trigger] s[j]),
        url_end(s, i) < s.len() ==> ends_url(s[url_end(s, i)]),
    decreases s.len() - i,
{
    if i < s.len() && !ends_url(s[i]) {
        url_end_bounds(s, i + 1);
    }
}

proof fn starts_within(s: Seq<char>, i: int)
    requires
        url_starts(s, i),
    ensures
        0 <= i < s.len(),
        s[i] == 'h',
        !ends_url(s[i]),
{
    reveal_strlit("http://");
    reveal_strlit("https://");
    if occurs_at(s, "http://"@, i) {
        assert(s.subrange(i, i + 7)[0] == s[i]);
    } else {
        assert(s.subrange(i, i + 8)[0] == s[i]);
    }
}

/// Every address in a text is found: wherever one begins, with anything behind its
/// scheme, it is one of the addresses or lies in one; an address ends before a blank, a
/// quotation mark or a closing bracket.
pub proof fn every_address_is_found(s: Seq<char>, from: int, i: int)
    requires
        0 <= from <= i,
        i + 7 < s.len(),
        url_starts(s, i),
    ensures
        exists|k: int, a: int, b: int|
            0 <= k < urls_from(s, from).len() && from <= a <= i < b <= s.len() && #[trigger] urls_from(s, from)[k]
                == #[trigger] s.subrange(a, b),
    decreases s.len() - from,
{
    url_end_bounds(s, from);
    if url_starts(s, from) && from < url_end(s, from) <= s.len() {
        let e = url_end(s, from);
        let all = urls_from(s, from);
        if i < e {
            assert(all[0] == s.subrange(from, e));
        } else {
            every_address_is_found(s, e, i);
            let rest = urls_from(s, e);
            let (k, a, b) = choose|k: int, a: int, b: int|
                0 <= k < rest.len() && e <= a <= i < b <= s.len() && #[trigger] rest[k] == #[trigger] s.subrange(a, b);
            assert(all[k + 1] == s.subrange(a, b));
        }
    } else {
        if from == i {
            starts_within(s, i);
            assert(false);
        }
        every_address_is_found(s, from + 1, i);
        let rest = urls_from(s, from + 1);
        let (k, a, b) = choose|k: int, a: int, b: int|
            0 <= k < rest.len() && from + 1 <= a <= i < b <= s.len() && #[trigger] rest[k] == #[trigger] s.subrange(a, b);
        assert(urls_from(s, from)[k] == s.subrange(a, b));
    }
}

/// The domain of an address is what stands between its scheme and its path, its port or
/// its query, in lower case.
pub proof fn domains_stand_behind_the_scheme(host: Seq<char>, rest: Seq<char>)
    requires
        host.len() > 0,
        forall|i: int| 0 <= i < host.len() ==> !ends_host(#[trigger] host[i]),
        rest.len() > 0 ==> ends_host(rest[0]),
    ensures
        domain_of("https://"@ + host + rest) == Some(unicode_lower(host)),
        domain_of("http://"@ + host + rest) == Some(unicode_lower(host)),
{
    let w = host + rest;
    host_ends(w, 0, host.len() as int);
    assert(w.take(host.len() as int) =~= host);
    assert("https://"@ + host + rest =~= "https://"@ + w);
    assert("http://"@ + host + rest =~= "http://"@ + w);
    parts_stand_in_the_whole(w, "https://"@, w, w);
    parts_stand_in_the_whole(w, "http://"@, w, w);
    reveal_strlit("http://");
    reveal_strlit("https://");
    let plain = "http://"@ + w;
    if begins_with(plain, "https://"@) {
        assert(plain.take(8)[4] == plain[4]);
        assert(plain[4] == ':');
    }
}

proof fn host_ends(s: Seq<char>, i: int, n: int)
    requires
        0 <= i <= n <= s.len(),
        forall|j: int| i <= j < n ==> !ends_host(#[trigger] s[j]),
        n < s.len() ==> ends_host(s[n]),
    ensures
        host_end(s, i) == n,
    decreases n - i,
{
    if i < n {
        assert(!ends_host(s[i]));
        host_ends(s, i + 1, n);
    }
}

/// An address is a risk if its domain may not be reached, and no risk if it may.
pub proof fn only_allowed_domains_are_no_risk(urls: Seq<Seq<char>>, url: Seq<char>, allowed: Seq<Seq<char>>, d: Seq<char>)
    ensures
        strays(seq![], allowed).len() == 0,
        domain_of(url) == Some(d) && !allowed.contains(d) ==> strays(urls.push(url), allowed).len() == strays(
            urls,
            allowed,
        ).len() + 1 && finishes_with(strays(urls.push(url), allowed).last(), d),
        domain_of(url) == Some(d) && allowed.contains(d) ==> strays(urls.push(url), allowed) == strays(urls, allowed),
{
    assert(urls.push(url).drop_last() =~= urls);
    let t = "域外网络："@ + d;
    assert(t.skip(t.len() - d.len()) =~= d);
}

/// The description of a plugin and its script are both scanned.
pub proof fn both_texts_are_scanned(manifest: Seq<char>, entry: Seq<char>)
    ensures
        begins_with(scanned_text(manifest, Some(entry)), manifest),
        finishes_with(scanned_text(manifest, Some(entry)), entry),
        begins_with(scanned_text(manifest, None), manifest),
{
    let t = scanned_text(manifest, Some(entry));
    assert(t.take(manifest.len() as int) =~= manifest);
    assert(t.skip(t.len() - entry.len()) =~= entry);
    assert(scanned_text(manifest, None).take(manifest.len() as int) =~= manifest);
}

} // verus!

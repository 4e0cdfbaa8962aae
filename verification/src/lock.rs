//! The plugin lock, the plugin manager's decisions and the checksums it
//! records.

use crate::paths::{file_name, join_path, path_file_name, path_join};
use crate::plugin::{
    conversion_error, converts, manifest_of, merge_plugin_configs, merge_spec, PluginConfig, PluginConfigEntry, PluginError, PluginManifest,
    PluginReference, PluginSource,
};
use crate::text::{hex16, hex_digit, hex_digit_exec, hex_fixed, push_char};
use sha2::Digest;
use vstd::prelude::*;
use vstd::string::*;

verus! {

/// One installed plugin as the lock records it.
#[derive(Debug, Clone, PartialEq, Eq)]
pub struct PluginLockEntry {
    pub name: String,
    pub version: String,
    pub checksum: String,
    pub path: String,
}

/// The installed plugins of a project or of the user.
#[derive(Debug, Clone, PartialEq, Eq)]
pub struct PluginLock {
    pub plugin: Vec<PluginLockEntry>,
}

/// A manifest with the locations it installs to.
#[derive(Debug, Clone)]
pub struct ResolvedPlugin {
    pub manifest: PluginManifest,
    pub install_dir: String,
    pub component_path: String,
    pub checksum: String,
}

/// Installs, updates, removes and verifies plugins under one plugin
/// directory, recording them in one lock file.
#[derive(Debug, Clone)]
pub struct PluginManager {
    pub plugin_dir: String,
    pub lock_path: String,
}

/// Where the component of a plugin is taken from.
#[derive(Debug, Clone, PartialEq, Eq)]
pub enum ComponentOrigin {
    /// Copied from a local file or directory.
    Local { path: String },
    /// Downloaded from a URL.
    Download { url: String },
}

/// Index of the first lock entry with the given name, or -1.
pub open spec fn first_name_index(s: Seq<PluginLockEntry>, name: Seq<char>) -> int
    decreases s.len(),
{
    if s.len() == 0 {
        -1
    } else {
        let k = first_name_index(s.drop_last(), name);
        if k >= 0 {
            k
        } else if s.last().name@ == name {
            s.len() - 1
        } else {
            -1
        }
    }
}

pub proof fn lemma_first_name_index(s: Seq<PluginLockEntry>, name: Seq<char>)
    ensures
        -1 <= first_name_index(s, name) < s.len(),
        first_name_index(s, name) >= 0 ==> s[first_name_index(s, name)].name@ == name,
        forall|j: int|
            0 <= j < s.len() && (first_name_index(s, name) < 0 || j < first_name_index(s, name))
                ==> (#[trigger] s[j]).name@ != name,
    decreases s.len(),
{
    if s.len() > 0 {
        lemma_first_name_index(s.drop_last(), name);
        assert forall|j: int| 0 <= j < s.len() - 1 implies s[j] == s.drop_last()[j] by {}
    }
}

/// The lock after recording `entry`: it replaces the first entry of the same
/// name, or is appended.
pub open spec fn upsert_spec(s: Seq<PluginLockEntry>, entry: PluginLockEntry) -> Seq<PluginLockEntry> {
    let i = first_name_index(s, entry.name@);
    if i >= 0 {
        s.update(i, entry)
    } else {
        s.push(entry)
    }
}

/// The lock entries whose name differs from `name`, in order.
pub open spec fn without_name(s: Seq<PluginLockEntry>, name: Seq<char>) -> Seq<PluginLockEntry>
    decreases s.len(),
{
    if s.len() == 0 {
        s
    } else if s.last().name@ == name {
        without_name(s.drop_last(), name)
    } else {
        without_name(s.drop_last(), name).push(s.last())
    }
}

/// FNV-1a (64-bit) of a byte sequence.
pub open spec fn fnv1a(bytes: Seq<u8>) -> u64
    decreases bytes.len(),
{
    if bytes.len() == 0 {
        0xcbf29ce484222325u64
    } else {
        vstd::wrapping::u64_specs::wrapping_mul(fnv1a(bytes.drop_last()) ^ (bytes.last() as u64), 0x100000001b3u64)
    }
}

/// Two lowercase hexadecimal digits per byte.
pub open spec fn hex_bytes(bytes: Seq<u8>) -> Seq<char>
    decreases bytes.len(),
{
    if bytes.len() == 0 {
        Seq::empty()
    } else {
        hex_bytes(bytes.drop_last()) + hex_fixed(bytes.last() as nat, 2)
    }
}

/// What SHA-256 gives for a byte sequence.
pub uninterp spec fn sha256_spec(data: Seq<u8>) -> Seq<u8>;

/// The checksum text recorded for a component: `sha256:` and the hex digest.
pub open spec fn checksum_text(data: Seq<u8>) -> Seq<char> {
    "sha256:"@ + hex_bytes(sha256_spec(data))
}

/// The text that identifies the source of a manifest.
pub open spec fn source_key(s: PluginSource) -> Seq<char> {
    match s {
        PluginSource::Github { owner, repo, version } => "github:"@ + owner@ + "/"@ + repo@ + "@"@
            + version@,
        PluginSource::Gitlab { owner, repo, version } => "gitlab:"@ + owner@ + "/"@ + repo@ + "@"@
            + version@,
        PluginSource::Url { url, version } => "url:"@ + url@ + "@"@ + version@,
        PluginSource::Local { path } => "local:"@ + path@,
    }
}

/// The checksum hint of a manifest: a stable hash of its source.
pub open spec fn checksum_hint_spec(m: PluginManifest) -> Seq<char> {
    "sha256:"@ + hex_fixed(fnv1a(vstd::utf8::encode_utf8(source_key(m.source))) as nat, 16)
}

} // verus!

verus! {

/// SHA-256 of the bytes (`sha2::Sha256::digest`): the contract names the
/// digest `sha256_spec` of the input and states its documented length of 32
/// bytes; nothing more is claimed of it.
#[verifier::external_body]
fn sha256(data: &[u8]) -> (r: Vec<u8>)
    ensures
        r@ == sha256_spec(data@),
        r@.len() == 32,
{
    sha2::Sha256::digest(data).to_vec()
}

/// Two lowercase hexadecimal digits per byte.
pub fn hex_bytes_exec(bytes: &[u8]) -> (r: String)
    ensures
        r@ == hex_bytes(bytes@),
{
    let mut s = String::new();
    let mut i: usize = 0;
    while i < bytes.len()
        invariant
            i <= bytes.len(),
            s@ == hex_bytes(bytes@.take(i as int)),
        decreases bytes.len() - i,
    {
        let b = bytes[i];
        push_char(&mut s, hex_digit_exec((b / 16) as u32));
        push_char(&mut s, hex_digit_exec((b % 16) as u32));
        proof {
            assert(bytes@.take(i + 1).drop_last() =~= bytes@.take(i as int));
            assert(hex_fixed(b as nat, 2) =~= seq![hex_digit((b / 16) as nat), hex_digit((b % 16) as nat)]) by {
                assert(hex_fixed(b as nat, 2) == hex_fixed((b / 16) as nat, 1).push(hex_digit((b % 16) as nat)));
                assert(hex_fixed((b / 16) as nat, 1) == hex_fixed((b / 16 / 16) as nat, 0).push(hex_digit((b / 16 % 16) as nat)));
                assert(b / 16 % 16 == b / 16);
            }
        }
        i = i + 1;
    }
    assert(bytes@.take(bytes.len() as int) =~= bytes@);
    s
}

/// The checksum recorded for component bytes: `sha256:` and the hex digest.
pub fn checksum_bytes(data: &[u8]) -> (r: String)
    ensures
        r@ == checksum_text(data@),
{
    let digest = sha256(data);
    let mut s = String::from_str("sha256:");
    let hex = hex_bytes_exec(digest.as_slice());
    s.append(hex.as_str());
    s
}

/// FNV-1a (64-bit) of the bytes, as 16 hexadecimal digits.
pub fn stable_hex(bytes: &[u8]) -> (r: String)
    ensures
        r@ == hex_fixed(fnv1a(bytes@) as nat, 16),
{
    hex16(crate::render::stable_hash(bytes))
}

/// The checksum hint of a manifest: a stable hash of its source.
pub fn checksum_hint(manifest: &PluginManifest) -> (r: String)
    ensures
        r@ == checksum_hint_spec(*manifest),
{
    let mut source = String::new();
    match &manifest.source {
        PluginSource::Github { owner, repo, version } => {
            source.append("github:");
            source.append(owner.as_str());
            source.append("/");
            source.append(repo.as_str());
            source.append("@");
            source.append(version.as_str());
        },
        PluginSource::Gitlab { owner, repo, version } => {
            source.append("gitlab:");
            source.append(owner.as_str());
            source.append("/");
            source.append(repo.as_str());
            source.append("@");
            source.append(version.as_str());
        },
        PluginSource::Url { url, version } => {
            source.append("url:");
            source.append(url.as_str());
            source.append("@");
            source.append(version.as_str());
        },
        PluginSource::Local { path } => {
            source.append("local:");
            source.append(path.as_str());
        },
    }
    assert(source@ =~= source_key(manifest.source));
    let hex = stable_hex(source.as_str().as_bytes());
    let mut r = String::from_str("sha256:");
    r.append(hex.as_str());
    r
}

/// The file name of a manifest's component: the configured component, or
/// `<name>.wasm`.
pub open spec fn component_path_text(m: PluginManifest) -> Seq<char> {
    match m.component {
        Some(c) => c@,
        None => m.name@ + ".wasm"@,
    }
}

/// The release artifact name of a manifest, if its component path has one.
pub open spec fn artifact_spec(m: PluginManifest) -> Option<Seq<char>> {
    path_file_name(component_path_text(m))
}

/// The URL a manifest's component is downloaded from.
pub open spec fn download_url_spec(m: PluginManifest, artifact: Seq<char>) -> Seq<char> {
    match m.source {
        PluginSource::Github { owner, repo, version } => "https://github.com/"@ + owner@ + "/"@
            + repo@ + "/releases/download/"@ + version@ + "/"@ + artifact,
        PluginSource::Gitlab { owner, repo, version } => "https://gitlab.com/"@ + owner@ + "/"@
            + repo@ + "/-/releases/"@ + version@ + "/downloads/"@ + artifact,
        PluginSource::Url { url, version } => url@,
        PluginSource::Local { path } => path@,
    }
}

fn component_path_exec(manifest: &PluginManifest) -> (r: String)
    ensures
        r@ == component_path_text(*manifest),
{
    match &manifest.component {
        Some(c) => c.clone(),
        None => {
            let mut s = manifest.name.clone();
            s.append(".wasm");
            s
        },
    }
}

/// The file name of the manifest's component.
pub fn component_file_name(manifest: &PluginManifest) -> (r: Result<String, PluginError>)
    ensures
        match artifact_spec(*manifest) {
            Some(a) => r matches Ok(s) && s@ == a,
            None => r matches Err(PluginError::InvalidComponentFileName { path }) && path@
                == component_path_text(*manifest),
        },
{
    let path = component_path_exec(manifest);
    match file_name(path.as_str()) {
        Some(name) => Ok(name),
        None => Err(PluginError::InvalidComponentFileName { path }),
    }
}

/// The URL a manifest's component is downloaded from.
pub fn download_url(manifest: &PluginManifest) -> (r: Result<String, PluginError>)
    ensures
        match artifact_spec(*manifest) {
            Some(a) => r matches Ok(s) && s@ == download_url_spec(*manifest, a),
            None => r matches Err(PluginError::InvalidComponentFileName { path }) && path@
                == component_path_text(*manifest),
        },
{
    let artifact = component_file_name(manifest)?;
    match &manifest.source {
        PluginSource::Github { owner, repo, version } => {
            let mut s = String::from_str("https://github.com/");
            s.append(owner.as_str());
            s.append("/");
            s.append(repo.as_str());
            s.append("/releases/download/");
            s.append(version.as_str());
            s.append("/");
            s.append(artifact.as_str());
            Ok(s)
        },
        PluginSource::Gitlab { owner, repo, version } => {
            let mut s = String::from_str("https://gitlab.com/");
            s.append(owner.as_str());
            s.append("/");
            s.append(repo.as_str());
            s.append("/-/releases/");
            s.append(version.as_str());
            s.append("/downloads/");
            s.append(artifact.as_str());
            Ok(s)
        },
        PluginSource::Url { url, .. } => Ok(url.clone()),
        PluginSource::Local { path } => Ok(path.clone()),
    }
}

} // verus!

verus! {

impl PluginLockEntry {
    /// An exact copy of the entry.
    pub fn duplicate(&self) -> (r: Self)
        ensures
            r == *self,
    {
        PluginLockEntry {
            name: self.name.clone(),
            version: self.version.clone(),
            checksum: self.checksum.clone(),
            path: self.path.clone(),
        }
    }
}

impl PluginLock {
    /// Index of the first entry with the given name.
    pub fn find(&self, name: &str) -> (r: Option<usize>)
        ensures
            match r {
                Some(i) => i < self.plugin.len() && first_name_index(self.plugin@, name@) == i,
                None => first_name_index(self.plugin@, name@) == -1,
            },
    {
        proof {
            lemma_first_name_index(self.plugin@, name@);
        }
        let mut i: usize = 0;
        while i < self.plugin.len()
            invariant
                i <= self.plugin.len(),
                -1 <= first_name_index(self.plugin@, name@) < self.plugin.len(),
                first_name_index(self.plugin@, name@) >= 0 ==> self.plugin@[first_name_index(
                    self.plugin@,
                    name@,
                )].name@ == name@,
                forall|j: int|
                    0 <= j < self.plugin.len() && (first_name_index(self.plugin@, name@) < 0 || j
                        < first_name_index(self.plugin@, name@)) ==> (#[trigger] self.plugin@[j]).name@
                        != name@,
                forall|j: int| 0 <= j < i ==> (#[trigger] self.plugin@[j]).name@ != name@,
            decreases self.plugin.len() - i,
        {
            if str_eq(self.plugin[i].name.as_str(), name) {
                return Some(i);
            }
            i = i + 1;
        }
        None
    }

    /// Marks the first entry with the given name as updated in place.
    pub fn mark_updated(&mut self, name: &str)
        ensures
            ({
                let i = first_name_index(old(self).plugin@, name@);
                if i >= 0 {
                    final(self).plugin@ == old(self).plugin@.update(
                        i,
                        PluginLockEntry { checksum: final(self).plugin@[i].checksum, ..old(self).plugin@[i] },
                    ) && final(self).plugin@[i].checksum@ == "sha256:updated"@
                } else {
                    final(self).plugin@ == old(self).plugin@
                }
            }),
    {
        match self.find(name) {
            Some(i) => {
                let mut entry = self.plugin[i].duplicate();
                entry.checksum = String::from_str("sha256:updated");
                self.plugin.set(i, entry);
            },
            None => {},
        }
    }
}

/// Whether two texts are equal.
pub fn str_eq(a: &str, b: &str) -> (r: bool)
    ensures
        r == (a@ == b@),
{
    let la = a.unicode_len();
    let lb = b.unicode_len();
    if la != lb {
        return false;
    }
    let mut i: usize = 0;
    while i < la
        invariant
            la == a@.len(),
            lb == b@.len(),
            la == lb,
            i <= la,
            forall|j: int| 0 <= j < i ==> a@[j] == b@[j],
        decreases la - i,
    {
        if a.get_char(i) != b.get_char(i) {
            return false;
        }
        i = i + 1;
    }
    assert(a@ =~= b@);
    true
}

/// Records `entry` in the lock: it replaces the first entry of the same name,
/// or is appended.
pub fn upsert_lock(lock: &mut PluginLock, entry: PluginLockEntry)
    ensures
        final(lock).plugin@ == upsert_spec(old(lock).plugin@, entry),
{
    match lock.find(entry.name.as_str()) {
        Some(i) => lock.plugin.set(i, entry),
        None => lock.plugin.push(entry),
    }
}

/// After recording an entry, looking its name up finds that entry, and every
/// entry of another name keeps its position and value.
pub proof fn law_upsert_then_find(s: Seq<PluginLockEntry>, entry: PluginLockEntry)
    ensures
        first_name_index(upsert_spec(s, entry), entry.name@) >= 0,
        upsert_spec(s, entry)[first_name_index(upsert_spec(s, entry), entry.name@)] == entry,
        forall|j: int|
            0 <= j < s.len() && s[j].name@ != entry.name@ ==> #[trigger] upsert_spec(s, entry)[j]
                == s[j],
        upsert_spec(s, entry).len() == s.len() + (if first_name_index(s, entry.name@) >= 0 {
            0int
        } else {
            1int
        }),
{
    let t = upsert_spec(s, entry);
    let n = entry.name@;
    lemma_first_name_index(s, n);
    lemma_first_name_index(t, n);
    let i = first_name_index(s, n);
    let k = first_name_index(t, n);
    if i >= 0 {
        if k < 0 || k > i {
            assert(t[i].name@ == n);
        } else if k < i {
            assert(t[k] == s[k]);
        }
    } else {
        assert(t[s.len() as int].name@ == n);
        if k >= 0 && k < s.len() {
            assert(t[k] == s[k]);
        }
        if k < 0 || k > s.len() {
            assert(t[s.len() as int].name@ == n);
        }
    }
}

proof fn lemma_without_name_facts(s: Seq<PluginLockEntry>, name: Seq<char>)
    ensures
        forall|j: int| 0 <= j < without_name(s, name).len() ==> (#[trigger] without_name(s, name)[j]).name@ != name,
        without_name(s, name).len() <= s.len(),
    decreases s.len(),
{
    if s.len() > 0 {
        lemma_without_name_facts(s.drop_last(), name);
    }
}

/// After removing a name from the lock no entry of that name remains, and
/// the entries of other names stay in their order.
pub proof fn law_remove_drops_name(s: Seq<PluginLockEntry>, name: Seq<char>)
    ensures
        first_name_index(without_name(s, name), name) == -1,
        forall|e: PluginLockEntry| e.name@ != name ==> (without_name(s, name).contains(e) <==> s.contains(e)),
    decreases s.len(),
{
    lemma_without_name_facts(s, name);
    let t = without_name(s, name);
    lemma_first_name_index(t, name);
    if first_name_index(t, name) >= 0 {
        let k = first_name_index(t, name);
        assert(t[k].name@ != name);
    }
    if s.len() > 0 {
        law_remove_drops_name(s.drop_last(), name);
        assert forall|e: PluginLockEntry| e.name@ != name implies (without_name(s, name).contains(e)
            <==> s.contains(e)) by {
            let p = s.drop_last();
            if s.contains(e) {
                let j = choose|j: int| 0 <= j < s.len() && s[j] == e;
                if j < s.len() - 1 {
                    assert(p[j] == e);
                    assert(p.contains(e));
                    let q = without_name(p, name);
                    let jj = choose|jj: int| 0 <= jj < q.len() && q[jj] == e;
                    if s.last().name@ != name {
                        assert(t[jj] == e);
                    } else {
                        assert(t[jj] == e);
                    }
                } else {
                    assert(t[t.len() - 1] == e);
                }
            }
            if t.contains(e) {
                let j = choose|j: int| 0 <= j < t.len() && t[j] == e;
                let q = without_name(p, name);
                if s.last().name@ == name || j < q.len() {
                    assert(q[j] == e);
                    assert(q.contains(e));
                    assert(p.contains(e));
                    let jj = choose|jj: int| 0 <= jj < p.len() && p[jj] == e;
                    assert(s[jj] == p[jj]);
                    assert(s.contains(e));
                } else {
                    assert(s[s.len() - 1] == e);
                }
            }
        }
    }
}

/// Removes every entry with the given name, keeping the others in order.
pub fn remove_from_lock(lock: &mut PluginLock, name: &str)
    ensures
        final(lock).plugin@ == without_name(old(lock).plugin@, name@),
{
    let mut kept: Vec<PluginLockEntry> = Vec::new();
    let mut i: usize = 0;
    while i < lock.plugin.len()
        invariant
            i <= lock.plugin.len(),
            lock.plugin@ == old(lock).plugin@,
            kept@ == without_name(lock.plugin@.take(i as int), name@),
        decreases lock.plugin.len() - i,
    {
        proof {
            assert(lock.plugin@.take(i + 1).drop_last() =~= lock.plugin@.take(i as int));
        }
        if !str_eq(lock.plugin[i].name.as_str(), name) {
            kept.push(lock.plugin[i].duplicate());
        }
        i = i + 1;
    }
    assert(lock.plugin@.take(lock.plugin.len() as int) =~= lock.plugin@);
    lock.plugin = kept;
}

} // verus!

verus! {

/// The message of a plugin error.
pub open spec fn plugin_error_message(e: PluginError) -> Seq<char> {
    match e {
        PluginError::MissingField { field } => field@ + " が必要です"@,
        PluginError::MissingLocalPath => "local plugin path が必要です"@,
        PluginError::UpdateTargetMissing { name } => "更新対象 plugin が lock に存在しません: "@ + name@,
        PluginError::VerifyTargetMissing { name } => "verify 対象 plugin が lock に存在しません: "@
            + name@,
        PluginError::ComponentMissing { path } => "plugin component が存在しません: "@ + path@,
        PluginError::ChecksumMismatch { expected, actual } => "plugin checksum が一致しません: expected="@
            + expected@ + ", actual="@ + actual@,
        PluginError::InvalidComponentFileName { path } => "plugin component file name が不正です: "@
            + path@,
    }
}

impl PluginError {
    /// The message of the error.
    pub fn to_string(&self) -> (r: String)
        ensures
            r@ == plugin_error_message(*self),
    {
        match self {
            PluginError::MissingField { field } => {
                let mut s = field.clone();
                s.append(" が必要です");
                s
            },
            PluginError::MissingLocalPath => String::from_str("local plugin path が必要です"),
            PluginError::UpdateTargetMissing { name } => {
                let mut s = String::from_str("更新対象 plugin が lock に存在しません: ");
                s.append(name.as_str());
                s
            },
            PluginError::VerifyTargetMissing { name } => {
                let mut s = String::from_str("verify 対象 plugin が lock に存在しません: ");
                s.append(name.as_str());
                s
            },
            PluginError::ComponentMissing { path } => {
                let mut s = String::from_str("plugin component が存在しません: ");
                s.append(path.as_str());
                s
            },
            PluginError::ChecksumMismatch { expected, actual } => {
                let mut s = String::from_str("plugin checksum が一致しません: expected=");
                s.append(expected.as_str());
                s.append(", actual=");
                s.append(actual.as_str());
                s
            },
            PluginError::InvalidComponentFileName { path } => {
                let mut s = String::from_str("plugin component file name が不正です: ");
                s.append(path.as_str());
                s
            },
        }
    }
}

/// The install directory of a plugin under a plugin directory.
pub open spec fn install_dir_spec(plugin_dir: Seq<char>, name: Seq<char>) -> Seq<char> {
    path_join(plugin_dir, name)
}

/// The manifest file inside an installed plugin's directory.
pub open spec fn manifest_path_spec(dir: Seq<char>) -> Seq<char> {
    path_join(dir, "manifest.toml"@)
}

/// The locations a manifest resolves to under a plugin directory.
pub open spec fn resolved_spec(plugin_dir: Seq<char>, m: PluginManifest, r: ResolvedPlugin) -> bool {
    &&& r.manifest == m
    &&& r.install_dir@ == install_dir_spec(plugin_dir, m.name@)
    &&& r.component_path@ == path_join(install_dir_spec(plugin_dir, m.name@), component_path_text(m))
    &&& r.checksum@ == checksum_hint_spec(m)
}

/// The manifest file of an installed plugin.
pub fn manifest_path(entry: &PluginLockEntry) -> (r: String)
    ensures
        r@ == manifest_path_spec(entry.path@),
{
    join_path(entry.path.as_str(), "manifest.toml")
}

impl ResolvedPlugin {
    /// The lock entry recording this plugin as installed with `checksum`.
    pub fn lock_entry(&self, checksum: String) -> (r: PluginLockEntry)
        ensures
            r.name == self.manifest.name,
            r.version == self.manifest.version,
            r.checksum == checksum,
            r.path == self.install_dir,
    {
        PluginLockEntry {
            name: self.manifest.name.clone(),
            version: self.manifest.version.clone(),
            checksum,
            path: self.install_dir.clone(),
        }
    }

    /// Where the component is taken from: the local source, or the URL to
    /// download.
    pub fn component_origin(&self) -> (r: Result<ComponentOrigin, PluginError>)
        ensures
            match self.manifest.source {
                PluginSource::Local { path } => r == Ok::<ComponentOrigin, PluginError>(
                    ComponentOrigin::Local { path },
                ),
                PluginSource::Url { url, .. } => r == Ok::<ComponentOrigin, PluginError>(
                    ComponentOrigin::Download { url },
                ),
                _ => match artifact_spec(self.manifest) {
                    Some(a) => r matches Ok(ComponentOrigin::Download { url }) && url@
                        == download_url_spec(self.manifest, a),
                    None => r is Err,
                },
            },
    {
        match &self.manifest.source {
            PluginSource::Local { path } => Ok(ComponentOrigin::Local { path: path.clone() }),
            PluginSource::Url { url, .. } => Ok(ComponentOrigin::Download { url: url.clone() }),
            PluginSource::Github { .. } | PluginSource::Gitlab { .. } => {
                let url = download_url(&self.manifest)?;
                Ok(ComponentOrigin::Download { url })
            },
        }
    }
}

impl PluginManager {
    pub fn new(plugin_dir: &str, lock_path: &str) -> (r: Self)
        ensures
            r.plugin_dir@ == plugin_dir@,
            r.lock_path@ == lock_path@,
    {
        PluginManager { plugin_dir: plugin_dir.to_owned(), lock_path: lock_path.to_owned() }
    }

    /// Records a plugin known only by name: its directory under the plugin
    /// directory, version `local` and an unverified checksum. Returns the
    /// directory, which the caller creates.
    pub fn install(&self, lock: &mut PluginLock, plugin: PluginReference) -> (install_dir: String)
        ensures
            install_dir@ == install_dir_spec(self.plugin_dir@, plugin.name@),
            ({
                let i = first_name_index(final(lock).plugin@, plugin.name@);
                let e = final(lock).plugin@[i];
                &&& i >= 0
                &&& final(lock).plugin@ == upsert_spec(old(lock).plugin@, e)
                &&& e.name == plugin.name
                &&& e.version@ == "local"@
                &&& e.checksum@ == "sha256:unverified"@
                &&& e.path == install_dir
            }),
    {
        let install_dir = join_path(self.plugin_dir.as_str(), plugin.name.as_str());
        let entry = PluginLockEntry {
            name: plugin.name,
            version: String::from_str("local"),
            checksum: String::from_str("sha256:unverified"),
            path: install_dir.clone(),
        };
        let ghost e = entry;
        upsert_lock(lock, entry);
        proof {
            law_upsert_then_find(old(lock).plugin@, e);
        }
        install_dir
    }

    /// The manifest file of the plugin to update; refused when the lock does
    /// not hold the plugin.
    pub fn update(&self, lock: &PluginLock, plugin: &PluginReference) -> (r: Result<String, PluginError>)
        ensures
            ({
                let i = first_name_index(lock.plugin@, plugin.name@);
                if i >= 0 {
                    r matches Ok(p) && p@ == manifest_path_spec(lock.plugin@[i].path@)
                } else {
                    r matches Err(PluginError::UpdateTargetMissing { name }) && name == plugin.name
                }
            }),
    {
        match lock.find(plugin.name.as_str()) {
            Some(i) => Ok(manifest_path(&lock.plugin[i])),
            None => Err(PluginError::UpdateTargetMissing { name: plugin.name.clone() }),
        }
    }

    /// Drops the plugin from the lock and returns its directory, which the
    /// caller deletes.
    pub fn remove(&self, lock: &mut PluginLock, plugin: &PluginReference) -> (install_dir: String)
        ensures
            install_dir@ == install_dir_spec(self.plugin_dir@, plugin.name@),
            final(lock).plugin@ == without_name(old(lock).plugin@, plugin.name@),
    {
        remove_from_lock(lock, plugin.name.as_str());
        join_path(self.plugin_dir.as_str(), plugin.name.as_str())
    }

    /// The manifests to install for a global and a project configuration, in
    /// order: those of the project entries merged over the global ones, up to
    /// the first entry that does not convert, with that entry's error. The
    /// manifests before it are installed before the error is reported.
    pub fn install_configured_plugins(&self, global: &PluginConfig, project: &PluginConfig) -> (r: (
        Vec<PluginManifest>,
        Option<PluginError>,
    ))
        ensures
            ({
                let merged = merge_spec(global.plugin@, project.plugin@);
                let (manifests, error) = r;
                &&& manifests@.len() <= merged.len()
                &&& forall|i: int|
                    0 <= i < manifests@.len() ==> converts(#[trigger] merged[i]) && manifest_of(
                        merged[i],
                        manifests@[i],
                    )
                &&& error is None ==> manifests@.len() == merged.len()
                &&& error matches Some(e) ==> manifests@.len() < merged.len() && !converts(
                    merged[manifests@.len() as int],
                ) && conversion_error(merged[manifests@.len() as int], e)
            }),
    {
        let merged = merge_plugin_configs(global, project).plugin;
        let mut manifests: Vec<PluginManifest> = Vec::new();
        let mut i: usize = 0;
        while i < merged.len()
            invariant
                merged@ == merge_spec(global.plugin@, project.plugin@),
                i <= merged.len(),
                manifests@.len() == i,
                forall|j: int|
                    0 <= j < i ==> converts(#[trigger] merged@[j]) && manifest_of(merged@[j], manifests@[j]),
            decreases merged.len() - i,
        {
            match merged[i].to_manifest() {
                Ok(manifest) => {
                    manifests.push(manifest);
                },
                Err(error) => {
                    return (manifests, Some(error));
                },
            }
            i = i + 1;
        }
        (manifests, None)
    }

    /// The locations a manifest installs to.
    pub fn resolve(&self, manifest: PluginManifest) -> (r: Result<ResolvedPlugin, PluginError>)
        ensures
            r matches Ok(res) && resolved_spec(self.plugin_dir@, manifest, res),
    {
        let install_dir = join_path(self.plugin_dir.as_str(), manifest.name.as_str());
        let component = component_path_exec(&manifest);
        let component_path = join_path(install_dir.as_str(), component.as_str());
        let checksum = checksum_hint(&manifest);
        Ok(ResolvedPlugin { checksum, manifest, install_dir, component_path })
    }

    /// The lock entry of the plugin to verify; refused when the lock does not
    /// hold it.
    pub fn verify_target(&self, lock: &PluginLock, name: &str) -> (r: Result<usize, PluginError>)
        ensures
            ({
                let i = first_name_index(lock.plugin@, name@);
                if i >= 0 {
                    r == Ok::<usize, PluginError>(i as usize) && i < lock.plugin.len()
                } else {
                    r matches Err(PluginError::VerifyTargetMissing { name: n }) && n@ == name@
                }
            }),
    {
        proof {
            lemma_first_name_index(lock.plugin@, name@);
        }
        match lock.find(name) {
            Some(i) => Ok(i),
            None => Err(PluginError::VerifyTargetMissing { name: name.to_owned() }),
        }
    }

    /// Checks an installed component against its lock entry: it must exist
    /// (`component` holds its bytes) and have the recorded checksum.
    pub fn verify(&self, entry: &PluginLockEntry, resolved: &ResolvedPlugin, component: Option<&[u8]>) -> (r:
        Result<(), PluginError>)
        ensures
            match component {
                None => r == Err::<(), PluginError>(
                    PluginError::ComponentMissing { path: resolved.component_path },
                ),
                Some(bytes) => if checksum_text(bytes@) == entry.checksum@ {
                    r is Ok
                } else {
                    r matches Err(PluginError::ChecksumMismatch { expected, actual }) && expected
                        == entry.checksum && actual@ == checksum_text(bytes@)
                },
            },
    {
        match component {
            None => Err(PluginError::ComponentMissing { path: resolved.component_path.clone() }),
            Some(bytes) => {
                let checksum = checksum_bytes(bytes);
                if checksum == entry.checksum {
                    Ok(())
                } else {
                    Err(PluginError::ChecksumMismatch { expected: entry.checksum.clone(), actual: checksum })
                }
            },
        }
    }
}

/// The first of the given directories that is set, joined with the
/// matching relative path; `fallback` when none is set.
pub open spec fn first_base(
    first: Option<Seq<char>>,
    first_rel: Seq<char>,
    second: Option<Seq<char>>,
    second_rel: Seq<char>,
    third: Option<Seq<char>>,
    third_rel: Seq<char>,
    fallback: Seq<char>,
) -> Seq<char> {
    match first {
        Some(b) => path_join(b, first_rel),
        None => match second {
            Some(b) => path_join(b, second_rel),
            None => match third {
                Some(b) => path_join(b, third_rel),
                None => fallback,
            },
        },
    }
}

/// The view of an optional text.
pub open spec fn opt_view(o: Option<&str>) -> Option<Seq<char>> {
    match o {
        Some(v) => Some(v@),
        None => None,
    }
}

/// The user's plugin directory, from the values of `XDG_DATA_HOME`,
/// `APPDATA` and `HOME`: the first that is set, joined with `mm/plugins`
/// (`.local/share/mm/plugins` under `HOME`); `.mm/plugins` when none is.
pub fn default_plugin_dir(xdg_data_home: Option<&str>, appdata: Option<&str>, home: Option<&str>) -> (r: String)
    ensures
        r@ == first_base(
            opt_view(xdg_data_home),
            "mm/plugins"@,
            opt_view(appdata),
            "mm/plugins"@,
            opt_view(home),
            ".local/share/mm/plugins"@,
            ".mm/plugins"@,
        ),
{
    match xdg_data_home {
        Some(b) => join_path(b, "mm/plugins"),
        None => match appdata {
            Some(b) => join_path(b, "mm/plugins"),
            None => match home {
                Some(b) => join_path(b, ".local/share/mm/plugins"),
                None => String::from_str(".mm/plugins"),
            },
        },
    }
}

/// The user's global configuration file, from the values of
/// `XDG_CONFIG_HOME`, `APPDATA` and `HOME`: the first that is set, joined
/// with `mm/mm.toml` (`.config/mm/mm.toml` under `HOME`);
/// `.config/mm/mm.toml` when none is.
pub fn default_global_config_path(xdg_config_home: Option<&str>, appdata: Option<&str>, home: Option<&str>) -> (r:
    String)
    ensures
        r@ == first_base(
            opt_view(xdg_config_home),
            "mm/mm.toml"@,
            opt_view(appdata),
            "mm/mm.toml"@,
            opt_view(home),
            ".config/mm/mm.toml"@,
            ".config/mm/mm.toml"@,
        ),
{
    match xdg_config_home {
        Some(b) => join_path(b, "mm/mm.toml"),
        None => match appdata {
            Some(b) => join_path(b, "mm/mm.toml"),
            None => match home {
                Some(b) => join_path(b, ".config/mm/mm.toml"),
                None => String::from_str(".config/mm/mm.toml"),
            },
        },
    }
}

} // verus!

//! Plugin manifests, plugin configuration entries and their merging.

use crate::paths::{file_name, file_stem, join_path, path_file_name, path_file_stem, path_join};
use crate::text::{
    hex16, hex_fixed, is_blank, is_blank_str, last_segment, last_segment_str, strip_suffix_str,
    without_suffix,
};
use vstd::prelude::*;
use vstd::string::*;

verus! {

/// A plugin named by the user.
#[derive(Debug, Clone, PartialEq, Eq)]
pub struct PluginReference {
    pub name: String,
}

impl PluginReference {
    pub fn named(name: &str) -> (r: Self)
        ensures
            r.name@ == name@,
    {
        PluginReference { name: name.to_owned() }
    }
}

/// What kind of functionality a plugin adds.
#[derive(Debug, Clone, Copy, PartialEq, Eq, Structural)]
pub enum PluginCategory {
    Ai,
    Subtitle,
    Tts,
    Template,
    Export,
    Utility,
}

/// Descriptive data of an installed plugin.
#[derive(Debug, Clone, PartialEq, Eq)]
pub struct PluginMetadata {
    pub display_name: String,
    pub category: PluginCategory,
    pub description: String,
}

/// Where a plugin component comes from.
#[derive(Debug, Clone, PartialEq, Eq)]
pub enum PluginSource {
    Github { owner: String, repo: String, version: String },
    Gitlab { owner: String, repo: String, version: String },
    Url { url: String, version: String },
    Local { path: String },
}

/// A plugin to install: its name, version, metadata and source.
#[derive(Debug, Clone, PartialEq, Eq)]
pub struct PluginManifest {
    pub name: String,
    pub version: String,
    pub metadata: PluginMetadata,
    pub source: PluginSource,
    pub component: Option<String>,
}

/// The repository kind of a configured plugin.
#[derive(Debug, Clone, Copy, PartialEq, Eq, Structural)]
pub enum PluginConfigRepository {
    Github,
    Gitlab,
    Url,
    Local,
}

/// One `[[plugin]]` entry of a global or project configuration.
#[derive(Debug, Clone, PartialEq, Eq)]
pub struct PluginConfigEntry {
    pub repository: PluginConfigRepository,
    pub name: Option<String>,
    pub owner: Option<String>,
    pub repo: Option<String>,
    pub version: Option<String>,
    pub url: Option<String>,
    pub path: Option<String>,
    pub component: Option<String>,
}

/// A plugin configuration: the list of configured plugins.
#[derive(Debug, Clone, PartialEq, Eq)]
pub struct PluginConfig {
    pub plugin: Vec<PluginConfigEntry>,
}

/// Why a plugin operation was refused.
#[derive(Debug, Clone, PartialEq, Eq)]
pub enum PluginError {
    /// A configuration field that the repository kind needs is missing or blank.
    MissingField { field: String },
    /// A local plugin entry has no path.
    MissingLocalPath,
    /// The plugin to update is not in the lock.
    UpdateTargetMissing { name: String },
    /// The plugin to verify is not in the lock.
    VerifyTargetMissing { name: String },
    /// The component file of the plugin does not exist.
    ComponentMissing { path: String },
    /// The component's checksum differs from the one in the lock.
    ChecksumMismatch { expected: String, actual: String },
    /// The component path has no usable file name.
    InvalidComponentFileName { path: String },
}

/// The text of an optional value, empty when absent.
pub open spec fn opt_text(o: Option<String>) -> Seq<char> {
    match o {
        Some(s) => s@,
        None => Seq::empty(),
    }
}

/// The key that identifies a configured plugin across configurations.
pub open spec fn identity_spec(e: PluginConfigEntry) -> Seq<char> {
    match e.name {
        Some(n) => n@,
        None => match e.repository {
            PluginConfigRepository::Github | PluginConfigRepository::Gitlab => opt_text(e.owner)
                + ":"@ + opt_text(e.repo),
            PluginConfigRepository::Url => opt_text(e.url),
            PluginConfigRepository::Local => opt_text(e.path),
        },
    }
}

/// A required text: present and not blank.
pub open spec fn required_ok(o: Option<String>) -> bool {
    o matches Some(s) && !is_blank(s@)
}

/// The name given to an unnamed plugin, from its repository, url or path.
pub open spec fn derived_name_spec(e: PluginConfigEntry) -> Seq<char> {
    match e.repository {
        PluginConfigRepository::Github | PluginConfigRepository::Gitlab => match e.repo {
            Some(r) => if is_blank(r@) {
                "plugin"@
            } else {
                r@
            },
            None => "plugin"@,
        },
        PluginConfigRepository::Url => match e.url {
            Some(u) => {
                let seg = last_segment(u@);
                let n = match without_suffix(seg, ".wasm"@) {
                    Some(t) => t,
                    None => seg,
                };
                if is_blank(n) {
                    "plugin"@
                } else {
                    n
                }
            },
            None => "plugin"@,
        },
        PluginConfigRepository::Local => match e.path {
            Some(p) => match path_file_stem(p@) {
                Some(s) => if is_blank(s) {
                    "plugin"@
                } else {
                    s
                },
                None => "plugin"@,
            },
            None => "plugin"@,
        },
    }
}

/// The version a configured source is pinned to: the given one or `latest`.
pub open spec fn source_version(e: PluginConfigEntry) -> Seq<char> {
    match e.version {
        Some(v) => v@,
        None => "latest"@,
    }
}

/// The first missing field that `to_manifest` reports, if any.
pub open spec fn manifest_missing_field(e: PluginConfigEntry) -> Option<Seq<char>> {
    match e.repository {
        PluginConfigRepository::Github => if !required_ok(e.owner) {
            Some("github plugin owner"@)
        } else if !required_ok(e.repo) {
            Some("github plugin repo"@)
        } else {
            None
        },
        PluginConfigRepository::Gitlab => if !required_ok(e.owner) {
            Some("gitlab plugin owner"@)
        } else if !required_ok(e.repo) {
            Some("gitlab plugin repo"@)
        } else {
            None
        },
        PluginConfigRepository::Url => if !required_ok(e.url) {
            Some("url plugin url"@)
        } else {
            None
        },
        PluginConfigRepository::Local => None,
    }
}

/// The manifest source that a configuration entry denotes.
pub open spec fn source_matches(e: PluginConfigEntry, s: PluginSource) -> bool {
    match e.repository {
        PluginConfigRepository::Github => s matches PluginSource::Github { owner, repo, version }
            && Some(owner) == e.owner && Some(repo) == e.repo && version@ == source_version(e),
        PluginConfigRepository::Gitlab => s matches PluginSource::Gitlab { owner, repo, version }
            && Some(owner) == e.owner && Some(repo) == e.repo && version@ == source_version(e),
        PluginConfigRepository::Url => s matches PluginSource::Url { url, version } && Some(url)
            == e.url && version@ == source_version(e),
        PluginConfigRepository::Local => s matches PluginSource::Local { path } && Some(path)
            == e.path,
    }
}

/// Whether `to_manifest` succeeds on a configuration entry.
pub open spec fn converts(e: PluginConfigEntry) -> bool {
    manifest_missing_field(e) is None && !(e.repository == PluginConfigRepository::Local && e.path is None)
}

/// The error that `to_manifest` reports for an entry that does not convert.
pub open spec fn conversion_error(e: PluginConfigEntry, err: PluginError) -> bool {
    match manifest_missing_field(e) {
        Some(field) => err matches PluginError::MissingField { field: f } && f@ == field,
        None => err == PluginError::MissingLocalPath,
    }
}

/// The manifest built from a configuration entry.
pub open spec fn manifest_of(e: PluginConfigEntry, m: PluginManifest) -> bool {
    let name = match e.name {
        Some(n) => n@,
        None => derived_name_spec(e),
    };
    &&& m.name@ == name
    &&& m.version@ == (match e.version {
        Some(v) => v@,
        None => "local"@,
    })
    &&& m.metadata.display_name@ == name
    &&& m.metadata.category == PluginCategory::Utility
    &&& m.metadata.description@ == Seq::<char>::empty()
    &&& source_matches(e, m.source)
    &&& m.component == e.component
}

/// An exact copy of an optional text.
pub fn clone_opt(o: &Option<String>) -> (r: Option<String>)
    ensures
        r == *o,
{
    match o {
        Some(s) => Some(s.clone()),
        None => None,
    }
}

/// The text of an optional value, empty when absent.
fn opt_text_exec(o: &Option<String>) -> (r: String)
    ensures
        r@ == opt_text(*o),
{
    match o {
        Some(s) => s.clone(),
        None => String::new(),
    }
}

fn required_string(value: &Option<String>, field: &str) -> (r: Result<String, PluginError>)
    ensures
        required_ok(*value) ==> r == Ok::<String, PluginError>(value->0),
        !required_ok(*value) ==> (r matches Err(PluginError::MissingField { field: f }) && f@
            == field@),
{
    match value {
        Some(v) => {
            if is_blank_str(v.as_str()) {
                Err(PluginError::MissingField { field: field.to_owned() })
            } else {
                Ok(v.clone())
            }
        },
        None => Err(PluginError::MissingField { field: field.to_owned() }),
    }
}

fn version_or(value: &Option<String>, default: &str) -> (r: String)
    ensures
        r@ == (match *value {
            Some(v) => v@,
            None => default@,
        }),
{
    match value {
        Some(v) => v.clone(),
        None => default.to_owned(),
    }
}

/// The name of an unnamed configured plugin.
pub fn derived_plugin_name(entry: &PluginConfigEntry) -> (r: String)
    ensures
        r@ == derived_name_spec(*entry),
{
    proof {
        reveal_strlit("plugin");
    }
    match entry.repository {
        PluginConfigRepository::Github | PluginConfigRepository::Gitlab => match &entry.repo {
            Some(r) => if is_blank_str(r.as_str()) {
                "plugin".to_owned()
            } else {
                r.clone()
            },
            None => "plugin".to_owned(),
        },
        PluginConfigRepository::Url => match &entry.url {
            Some(u) => {
                let seg = last_segment_str(u.as_str());
                let n = match strip_suffix_str(seg.as_str(), ".wasm") {
                    Some(t) => t,
                    None => seg,
                };
                if is_blank_str(n.as_str()) {
                    "plugin".to_owned()
                } else {
                    n
                }
            },
            None => "plugin".to_owned(),
        },
        PluginConfigRepository::Local => match &entry.path {
            Some(p) => match file_stem(p.as_str()) {
                Some(s) => if is_blank_str(s.as_str()) {
                    "plugin".to_owned()
                } else {
                    s
                },
                None => "plugin".to_owned(),
            },
            None => "plugin".to_owned(),
        },
    }
}

impl PluginConfigEntry {
    /// An exact copy of the entry.
    pub fn duplicate(&self) -> (r: Self)
        ensures
            r == *self,
    {
        PluginConfigEntry {
            repository: self.repository,
            name: clone_opt(&self.name),
            owner: clone_opt(&self.owner),
            repo: clone_opt(&self.repo),
            version: clone_opt(&self.version),
            url: clone_opt(&self.url),
            path: clone_opt(&self.path),
            component: clone_opt(&self.component),
        }
    }

    /// The key by which entries of two configurations are matched.
    pub fn identity(&self) -> (r: String)
        ensures
            r@ == identity_spec(*self),
    {
        if let Some(name) = &self.name {
            return name.clone();
        }
        match self.repository {
            PluginConfigRepository::Github | PluginConfigRepository::Gitlab => {
                let mut s = opt_text_exec(&self.owner);
                s.append(":");
                let r = opt_text_exec(&self.repo);
                s.append(r.as_str());
                s
            },
            PluginConfigRepository::Url => opt_text_exec(&self.url),
            PluginConfigRepository::Local => opt_text_exec(&self.path),
        }
    }

    /// The manifest to install for this entry.
    pub fn to_manifest(&self) -> (r: Result<PluginManifest, PluginError>)
        ensures
            match manifest_missing_field(*self) {
                Some(field) => r matches Err(PluginError::MissingField { field: f }) && f@ == field,
                None => if self.repository == PluginConfigRepository::Local && self.path is None {
                    r == Err::<PluginManifest, PluginError>(PluginError::MissingLocalPath)
                } else {
                    r matches Ok(m) && manifest_of(*self, m)
                },
            },
    {
        let source = match self.repository {
            PluginConfigRepository::Github => PluginSource::Github {
                owner: required_string(&self.owner, "github plugin owner")?,
                repo: required_string(&self.repo, "github plugin repo")?,
                version: version_or(&self.version, "latest"),
            },
            PluginConfigRepository::Gitlab => PluginSource::Gitlab {
                owner: required_string(&self.owner, "gitlab plugin owner")?,
                repo: required_string(&self.repo, "gitlab plugin repo")?,
                version: version_or(&self.version, "latest"),
            },
            PluginConfigRepository::Url => PluginSource::Url {
                url: required_string(&self.url, "url plugin url")?,
                version: version_or(&self.version, "latest"),
            },
            PluginConfigRepository::Local => match &self.path {
                Some(p) => PluginSource::Local { path: p.clone() },
                None => {
                    return Err(PluginError::MissingLocalPath);
                },
            },
        };
        let name = match &self.name {
            Some(n) => n.clone(),
            None => derived_plugin_name(self),
        };
        Ok(
            PluginManifest {
                name: name.clone(),
                version: version_or(&self.version, "local"),
                metadata: PluginMetadata {
                    display_name: name,
                    category: PluginCategory::Utility,
                    description: String::new(),
                },
                source,
                component: clone_opt(&self.component),
            },
        )
    }
}

} // verus!

verus! {

/// Index of the first entry with the given identity, or -1.
pub open spec fn first_identity_index(s: Seq<PluginConfigEntry>, id: Seq<char>) -> int
    decreases s.len(),
{
    if s.len() == 0 {
        -1
    } else {
        let k = first_identity_index(s.drop_last(), id);
        if k >= 0 {
            k
        } else if identity_spec(s.last()) == id {
            s.len() - 1
        } else {
            -1
        }
    }
}

/// Merging one project entry: it replaces the first entry with its identity,
/// or is appended when there is none.
pub open spec fn merge_step(acc: Seq<PluginConfigEntry>, e: PluginConfigEntry) -> Seq<
    PluginConfigEntry,
> {
    let i = first_identity_index(acc, identity_spec(e));
    if i >= 0 {
        acc.update(i, e)
    } else {
        acc.push(e)
    }
}

/// The global entries with the project entries merged over them, in order.
pub open spec fn merge_spec(global: Seq<PluginConfigEntry>, project: Seq<PluginConfigEntry>) -> Seq<
    PluginConfigEntry,
>
    decreases project.len(),
{
    if project.len() == 0 {
        global
    } else {
        merge_step(merge_spec(global, project.drop_last()), project.last())
    }
}

pub proof fn lemma_first_identity_index(s: Seq<PluginConfigEntry>, id: Seq<char>)
    ensures
        -1 <= first_identity_index(s, id) < s.len(),
        first_identity_index(s, id) >= 0 ==> identity_spec(s[first_identity_index(s, id)]) == id,
        forall|j: int|
            0 <= j < s.len() && (first_identity_index(s, id) < 0 || j < first_identity_index(s, id))
                ==> identity_spec(#[trigger] s[j]) != id,
    decreases s.len(),
{
    if s.len() > 0 {
        lemma_first_identity_index(s.drop_last(), id);
        assert forall|j: int| 0 <= j < s.len() - 1 implies s[j] == s.drop_last()[j] by {}
    }
}

/// Two sequences whose entries have the same identities position by position
/// agree on where an identity first occurs, when it occurs in the shorter one.
proof fn lemma_first_index_same_ids(s: Seq<PluginConfigEntry>, t: Seq<PluginConfigEntry>, id: Seq<char>)
    requires
        s.len() <= t.len(),
        forall|j: int| 0 <= j < s.len() ==> identity_spec(#[trigger] t[j]) == identity_spec(s[j]),
        first_identity_index(s, id) >= 0,
    ensures
        first_identity_index(t, id) == first_identity_index(s, id),
{
    lemma_first_identity_index(s, id);
    lemma_first_identity_index(t, id);
    let k = first_identity_index(s, id);
    let k2 = first_identity_index(t, id);
    if k2 < 0 || k2 > k {
        assert(identity_spec(t[k]) == identity_spec(s[k]));
    } else if k2 < k {
        assert(identity_spec(t[k2]) == identity_spec(s[k2]));
    }
}

/// A merge step keeps the identity found at every earlier position.
proof fn lemma_merge_step_ids(acc: Seq<PluginConfigEntry>, e: PluginConfigEntry)
    ensures
        merge_step(acc, e).len() >= acc.len(),
        forall|j: int|
            0 <= j < acc.len() ==> identity_spec(#[trigger] merge_step(acc, e)[j]) == identity_spec(
                acc[j],
            ),
        merge_step(acc, e).len() > acc.len() ==> merge_step(acc, e) == acc.push(e),
{
    lemma_first_identity_index(acc, identity_spec(e));
}

/// Merging never drops or reorders the global entries: position by position
/// the merged list starts with entries of the same identities.
pub proof fn law_merge_keeps_global_positions(
    global: Seq<PluginConfigEntry>,
    project: Seq<PluginConfigEntry>,
)
    ensures
        merge_spec(global, project).len() >= global.len(),
        forall|j: int|
            0 <= j < global.len() ==> identity_spec(#[trigger] merge_spec(global, project)[j])
                == identity_spec(global[j]),
    decreases project.len(),
{
    if project.len() > 0 {
        law_merge_keeps_global_positions(global, project.drop_last());
        lemma_merge_step_ids(merge_spec(global, project.drop_last()), project.last());
    }
}

/// A global entry whose identity no project entry has stays where it was,
/// unchanged.
pub proof fn law_merge_keeps_unmatched_global(
    global: Seq<PluginConfigEntry>,
    project: Seq<PluginConfigEntry>,
    i: int,
)
    requires
        0 <= i < global.len(),
        forall|j: int| 0 <= j < project.len() ==> identity_spec(#[trigger] project[j]) != identity_spec(global[i]),
    ensures
        merge_spec(global, project)[i] == global[i],
    decreases project.len(),
{
    if project.len() > 0 {
        let prev = merge_spec(global, project.drop_last());
        assert forall|j: int| 0 <= j < project.drop_last().len() implies identity_spec(
            #[trigger] project.drop_last()[j],
        ) != identity_spec(global[i]) by {
            assert(project.drop_last()[j] == project[j]);
        }
        law_merge_keeps_unmatched_global(global, project.drop_last(), i);
        law_merge_keeps_global_positions(global, project.drop_last());
        let e = project.last();
        lemma_first_identity_index(prev, identity_spec(e));
        assert(identity_spec(e) != identity_spec(global[i]));
    }
}

/// The project entry wins: the last project entry with a given identity is
/// the entry that the merged configuration holds for it.
pub proof fn law_merge_project_wins(
    global: Seq<PluginConfigEntry>,
    project: Seq<PluginConfigEntry>,
    k: int,
)
    requires
        0 <= k < project.len(),
        forall|j: int|
            k < j < project.len() ==> identity_spec(#[trigger] project[j]) != identity_spec(project[k]),
    ensures
        first_identity_index(merge_spec(global, project), identity_spec(project[k])) >= 0,
        merge_spec(global, project)[first_identity_index(
            merge_spec(global, project),
            identity_spec(project[k]),
        )] == project[k],
    decreases project.len(),
{
    let id = identity_spec(project[k]);
    let prev = merge_spec(global, project.drop_last());
    let m = merge_spec(global, project);
    let e = project.last();
    lemma_first_identity_index(prev, identity_spec(e));
    lemma_merge_step_ids(prev, e);
    if k == project.len() - 1 {
        let i = first_identity_index(prev, id);
        lemma_first_identity_index(m, id);
        if i >= 0 {
            lemma_first_index_same_ids(prev, m, id);
        } else {
            lemma_first_identity_index(prev, id);
            assert(identity_spec(m[prev.len() as int]) == id);
            assert forall|j: int| 0 <= j < prev.len() implies identity_spec(#[trigger] m[j]) != id by {
                assert(identity_spec(m[j]) == identity_spec(prev[j]));
            }
            if first_identity_index(m, id) < prev.len() {
                let f = first_identity_index(m, id);
                assert(identity_spec(m[f]) == id);
            }
        }
    } else {
        assert forall|j: int| k < j < project.drop_last().len() implies identity_spec(
            #[trigger] project.drop_last()[j],
        ) != identity_spec(project.drop_last()[k]) by {
            assert(project.drop_last()[j] == project[j]);
        }
        law_merge_project_wins(global, project.drop_last(), k);
        assert(project.drop_last()[k] == project[k]);
        let f = first_identity_index(prev, id);
        lemma_first_index_same_ids(prev, m, id);
        assert(identity_spec(e) != id);
        lemma_first_identity_index(prev, id);
    }
}

/// Index of the last entry with the given identity, or -1.
pub open spec fn last_identity_index(s: Seq<PluginConfigEntry>, id: Seq<char>) -> int
    decreases s.len(),
{
    if s.len() == 0 {
        -1
    } else if identity_spec(s.last()) == id {
        s.len() - 1
    } else {
        last_identity_index(s.drop_last(), id)
    }
}

proof fn lemma_last_identity_index(s: Seq<PluginConfigEntry>, id: Seq<char>)
    ensures
        -1 <= last_identity_index(s, id) < s.len(),
        last_identity_index(s, id) >= 0 ==> identity_spec(s[last_identity_index(s, id)]) == id,
        forall|j: int|
            last_identity_index(s, id) < j < s.len() ==> identity_spec(#[trigger] s[j]) != id,
    decreases s.len(),
{
    if s.len() > 0 {
        lemma_last_identity_index(s.drop_last(), id);
        assert forall|j: int| 0 <= j < s.len() - 1 implies s[j] == s.drop_last()[j] by {}
    }
}

/// Merging project entries over a list that already holds every identity
/// they have: nothing is appended, and each position that is the first of its
/// identity takes the last project entry with that identity, when there is
/// one; every other position is unchanged.
proof fn lemma_merge_over_present(acc: Seq<PluginConfigEntry>, project: Seq<PluginConfigEntry>)
    requires
        forall|j: int| 0 <= j < project.len() ==> first_identity_index(acc, identity_spec(#[trigger] project[j])) >= 0,
    ensures
        merge_spec(acc, project).len() == acc.len(),
        forall|i: int|
            0 <= i < acc.len() ==> #[trigger] merge_spec(acc, project)[i] == (if first_identity_index(
                acc,
                identity_spec(acc[i]),
            ) == i && last_identity_index(project, identity_spec(acc[i])) >= 0 {
                project[last_identity_index(project, identity_spec(acc[i]))]
            } else {
                acc[i]
            }),
    decreases project.len(),
{
    if project.len() > 0 {
        let q = project.drop_last();
        let e = project.last();
        assert forall|j: int| 0 <= j < q.len() implies first_identity_index(acc, identity_spec(#[trigger] q[j])) >= 0 by {
            assert(q[j] == project[j]);
        }
        lemma_merge_over_present(acc, q);
        let prev = merge_spec(acc, q);
        law_merge_keeps_global_positions(acc, q);
        assert(first_identity_index(acc, identity_spec(project[project.len() - 1])) >= 0);
        lemma_first_index_same_ids(acc, prev, identity_spec(e));
        let t = first_identity_index(acc, identity_spec(e));
        lemma_first_identity_index(acc, identity_spec(e));
        assert(merge_spec(acc, project) == prev.update(t, e));
        assert forall|i: int| 0 <= i < acc.len() implies #[trigger] merge_spec(acc, project)[i] == (
        if first_identity_index(acc, identity_spec(acc[i])) == i && last_identity_index(
            project,
            identity_spec(acc[i]),
        ) >= 0 {
            project[last_identity_index(project, identity_spec(acc[i]))]
        } else {
            acc[i]
        }) by {
            let id = identity_spec(acc[i]);
            if i == t {
                assert(id == identity_spec(e));
                assert(last_identity_index(project, id) == project.len() - 1);
            } else if id == identity_spec(e) {
                lemma_first_identity_index(acc, id);
                assert(first_identity_index(acc, id) != i);
                assert(prev[i] == acc[i]);
            } else {
                assert(last_identity_index(project, id) == last_identity_index(q, id));
                lemma_last_identity_index(q, id);
                if last_identity_index(q, id) >= 0 {
                    assert(project[last_identity_index(q, id)] == q[last_identity_index(q, id)]);
                }
            }
        }
    }
}

/// Merging the same project configuration a second time changes nothing.
pub proof fn law_merge_idempotent(global: Seq<PluginConfigEntry>, project: Seq<PluginConfigEntry>)
    ensures
        merge_spec(merge_spec(global, project), project) == merge_spec(global, project),
{
    let m = merge_spec(global, project);
    assert forall|j: int| 0 <= j < project.len() implies first_identity_index(m, identity_spec(#[trigger] project[j])) >= 0 by {
        let id = identity_spec(project[j]);
        lemma_last_identity_index(project, id);
        let k = last_identity_index(project, id);
        law_merge_project_wins(global, project, k);
    }
    lemma_merge_over_present(m, project);
    assert forall|i: int| 0 <= i < m.len() implies #[trigger] merge_spec(m, project)[i] == m[i] by {
        let id = identity_spec(m[i]);
        let k = last_identity_index(project, id);
        if first_identity_index(m, id) == i && k >= 0 {
            lemma_last_identity_index(project, id);
            law_merge_project_wins(global, project, k);
        }
    }
    assert(merge_spec(m, project) =~= m);
}

/// Index of the first entry of `entries` whose identity is `id`.
fn find_identity(entries: &Vec<PluginConfigEntry>, id: &String) -> (r: Option<usize>)
    ensures
        match r {
            Some(i) => i < entries.len() && first_identity_index(entries@, id@) == i,
            None => first_identity_index(entries@, id@) == -1,
        },
{
    proof {
        lemma_first_identity_index(entries@, id@);
    }
    let mut i: usize = 0;
    while i < entries.len()
        invariant
            i <= entries.len(),
            -1 <= first_identity_index(entries@, id@) < entries.len(),
            first_identity_index(entries@, id@) >= 0 ==> identity_spec(
                entries@[first_identity_index(entries@, id@)],
            ) == id@,
            forall|j: int|
                0 <= j < entries.len() && (first_identity_index(entries@, id@) < 0 || j
                    < first_identity_index(entries@, id@)) ==> identity_spec(#[trigger] entries@[j])
                    != id@,
            forall|j: int| 0 <= j < i ==> identity_spec(#[trigger] entries@[j]) != id@,
        decreases entries.len() - i,
    {
        let candidate = entries[i].identity();
        if candidate == *id {
            return Some(i);
        }
        i = i + 1;
    }
    None
}

/// Merges the project configuration over the global one: a project entry
/// replaces the first entry with the same identity, or is appended.
pub fn merge_plugin_configs(global: &PluginConfig, project: &PluginConfig) -> (r: PluginConfig)
    ensures
        r.plugin@ == merge_spec(global.plugin@, project.plugin@),
{
    let mut merged: Vec<PluginConfigEntry> = Vec::new();
    let mut g: usize = 0;
    while g < global.plugin.len()
        invariant
            g <= global.plugin.len(),
            merged@ == global.plugin@.take(g as int),
        decreases global.plugin.len() - g,
    {
        merged.push(global.plugin[g].duplicate());
        assert(global.plugin@.take(g + 1) =~= global.plugin@.take(g as int).push(global.plugin@[g as int]));
        g = g + 1;
    }
    assert(global.plugin@.take(global.plugin.len() as int) =~= global.plugin@);
    let mut p: usize = 0;
    while p < project.plugin.len()
        invariant
            p <= project.plugin.len(),
            merged@ == merge_spec(global.plugin@, project.plugin@.take(p as int)),
        decreases project.plugin.len() - p,
    {
        let entry = &project.plugin[p];
        let identity = entry.identity();
        proof {
            assert(project.plugin@.take(p + 1).drop_last() =~= project.plugin@.take(p as int));
        }
        match find_identity(&merged, &identity) {
            Some(i) => {
                merged.set(i, entry.duplicate());
            },
            None => {
                merged.push(entry.duplicate());
            },
        }
        p = p + 1;
    }
    assert(project.plugin@.take(project.plugin.len() as int) =~= project.plugin@);
    PluginConfig { plugin: merged }
}

} // verus!

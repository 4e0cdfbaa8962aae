//! The rules a project must satisfy before it is rendered.

use crate::paths::{join_path, path_join};
use crate::project::{
    f64_le_zero, f64_lt_zero, Asset, F64Bits, Layer, LayerContent, Project, Scene, TimelineGroup,
    Track,
};
use crate::text::{is_blank, is_blank_str};
use vstd::prelude::*;
use vstd::string::*;

verus! {

/// Why a project is not valid.
#[derive(Debug, Clone, PartialEq, Eq)]
pub enum ValidationError {
    /// `settings.title` is blank.
    TitleRequired,
    /// `settings.width` or `settings.height` is zero.
    InvalidDimensions,
    /// `settings.fps` is zero.
    InvalidFps,
    /// `settings.sample_rate` is zero.
    InvalidSampleRate,
    /// `settings.duration` is not greater than zero.
    InvalidDuration,
    /// A scene or layer starts before zero.
    NegativeStart { id: String },
    /// A scene or layer does not last longer than zero.
    NonPositiveDuration { id: String },
    /// A layer names a group the project does not have.
    UnknownGroup { layer: String, group: String },
    /// A layer names an asset the project does not have.
    UnknownAsset { layer: String, asset: String },
    /// An asset's file does not exist.
    AssetFileMissing { asset: String, path: String },
}

/// The verdict on a time range: the start must not be negative and the
/// duration must be positive.
pub open spec fn time_range_spec(id: String, start: F64Bits, duration: F64Bits) -> Result<(), ValidationError> {
    if f64_lt_zero(start) {
        Err(ValidationError::NegativeStart { id })
    } else if f64_le_zero(duration) {
        Err(ValidationError::NonPositiveDuration { id })
    } else {
        Ok(())
    }
}

/// The first error of a sequence of verdicts.
pub open spec fn then(first: Result<(), ValidationError>, second: Result<(), ValidationError>) -> Result<(), ValidationError> {
    match first {
        Err(e) => Err(e),
        Ok(()) => second,
    }
}

/// The scenes' verdicts, in order.
pub open spec fn scenes_spec(s: Seq<Scene>) -> Result<(), ValidationError>
    decreases s.len(),
{
    if s.len() == 0 {
        Ok(())
    } else {
        then(scenes_spec(s.drop_last()), time_range_spec(s.last().id, s.last().start, s.last().duration))
    }
}

/// Some group has this id.
pub open spec fn has_group(groups: Seq<TimelineGroup>, id: Seq<char>) -> bool {
    exists|i: int| 0 <= i < groups.len() && (#[trigger] groups[i]).id@ == id
}

/// Some asset has this id.
pub open spec fn has_asset(assets: Seq<Asset>, id: Seq<char>) -> bool {
    exists|i: int| 0 <= i < assets.len() && (#[trigger] assets[i]).id@ == id
}

/// The asset a layer's content refers to, if its kind refers to one.
pub open spec fn content_asset(c: LayerContent) -> Option<String> {
    match c {
        LayerContent::Video(v) => Some(v.asset_id),
        LayerContent::Image(v) => Some(v.asset_id),
        LayerContent::Audio(v) => Some(v.asset_id),
        LayerContent::Subtitle(v) => Some(v.asset_id),
        LayerContent::Text(_) => None,
        LayerContent::Voice(_) => None,
    }
}

/// The check of one layer: its time range, then its group, then the asset it names.
pub open spec fn layer_spec(p: Project, l: Layer) -> Result<(), ValidationError> {
    then(
        time_range_spec(l.id, l.start, l.duration),
        then(
            match l.group_id {
                Some(g) => if has_group(p.groups@, g@) {
                    Ok(())
                } else {
                    Err(ValidationError::UnknownGroup { layer: l.id, group: g })
                },
                None => Ok(()),
            },
            match content_asset(l.content) {
                Some(a) => if has_asset(p.assets@, a@) {
                    Ok(())
                } else {
                    Err(ValidationError::UnknownAsset { layer: l.id, asset: a })
                },
                None => Ok(()),
            },
        ),
    )
}

/// The layers' verdicts, in order.
pub open spec fn layers_spec(p: Project, ls: Seq<Layer>) -> Result<(), ValidationError>
    decreases ls.len(),
{
    if ls.len() == 0 {
        Ok(())
    } else {
        then(layers_spec(p, ls.drop_last()), layer_spec(p, ls.last()))
    }
}

/// The tracks' verdicts, track by track.
pub open spec fn tracks_spec(p: Project, ts: Seq<Track>) -> Result<(), ValidationError>
    decreases ts.len(),
{
    if ts.len() == 0 {
        Ok(())
    } else {
        then(tracks_spec(p, ts.drop_last()), layers_spec(p, ts.last().layers@))
    }
}

/// The assets' verdicts: each file must exist (`exists[i]` for asset `i`).
pub open spec fn assets_spec(assets: Seq<Asset>, exists: Seq<bool>) -> Result<(), ValidationError>
    decreases assets.len(),
{
    if assets.len() == 0 {
        Ok(())
    } else {
        then(
            assets_spec(assets.drop_last(), exists),
            if exists[assets.len() - 1] {
                Ok(())
            } else {
                Err(ValidationError::AssetFileMissing { asset: assets.last().id, path: assets.last().path })
            },
        )
    }
}

/// The verdict on a project, rule by rule in order: the settings, the
/// scenes, the layers track by track, then the asset files.
pub open spec fn validate_spec(p: Project, exists: Seq<bool>) -> Result<(), ValidationError> {
    if is_blank(p.settings.title@) {
        Err(ValidationError::TitleRequired)
    } else if p.settings.width == 0 || p.settings.height == 0 {
        Err(ValidationError::InvalidDimensions)
    } else if p.settings.fps == 0 {
        Err(ValidationError::InvalidFps)
    } else if p.settings.sample_rate == 0 {
        Err(ValidationError::InvalidSampleRate)
    } else if f64_le_zero(p.settings.duration) {
        Err(ValidationError::InvalidDuration)
    } else {
        then(scenes_spec(p.scenes@), then(tracks_spec(p, p.tracks@), assets_spec(p.assets@, exists)))
    }
}

/// The error names an unknown group.
pub open spec fn is_unknown_group(r: Result<(), ValidationError>) -> bool {
    r matches Err(ValidationError::UnknownGroup { .. })
}

/// Every layer of `ls` that names a group names one that stands somewhere
/// in `groups`.
pub open spec fn groups_known(groups: Seq<TimelineGroup>, ls: Seq<Layer>) -> bool {
    forall|j: int|
        0 <= j < ls.len() ==> ((#[trigger] ls[j]).group_id matches Some(g) ==> exists|i: int|
            0 <= i < groups.len() && groups[i].id@ == g@)
}

proof fn lemma_scenes_no_group_error(s: Seq<Scene>)
    ensures
        !is_unknown_group(scenes_spec(s)),
    decreases s.len(),
{
    if s.len() > 0 {
        lemma_scenes_no_group_error(s.drop_last());
    }
}

proof fn lemma_assets_no_group_error(assets: Seq<Asset>, exists: Seq<bool>)
    ensures
        !is_unknown_group(assets_spec(assets, exists)),
    decreases assets.len(),
{
    if assets.len() > 0 {
        lemma_assets_no_group_error(assets.drop_last(), exists);
    }
}

proof fn lemma_layers_no_group_error(p: Project, ls: Seq<Layer>)
    requires
        groups_known(p.groups@, ls),
    ensures
        !is_unknown_group(layers_spec(p, ls)),
    decreases ls.len(),
{
    if ls.len() > 0 {
        assert(groups_known(p.groups@, ls.drop_last())) by {
            assert forall|j: int| 0 <= j < ls.drop_last().len() implies ((#[trigger] ls.drop_last()[j]).group_id
                matches Some(g) ==> exists|i: int| 0 <= i < p.groups@.len() && p.groups@[i].id@ == g@) by {
                assert(ls.drop_last()[j] == ls[j]);
            }
        }
        lemma_layers_no_group_error(p, ls.drop_last());
        let l = ls.last();
        assert(ls[ls.len() - 1] == l);
        if let Some(g) = l.group_id {
            let i = choose|i: int| 0 <= i < p.groups@.len() && p.groups@[i].id@ == g@;
            assert(has_group(p.groups@, g@));
        }
    }
}

proof fn lemma_tracks_no_group_error(p: Project, ts: Seq<Track>)
    requires
        forall|t: int| 0 <= t < ts.len() ==> groups_known(p.groups@, (#[trigger] ts[t]).layers@),
    ensures
        !is_unknown_group(tracks_spec(p, ts)),
    decreases ts.len(),
{
    if ts.len() > 0 {
        assert forall|t: int| 0 <= t < ts.drop_last().len() implies groups_known(
            p.groups@,
            (#[trigger] ts.drop_last()[t]).layers@,
        ) by {
            assert(ts.drop_last()[t] == ts[t]);
        }
        lemma_tracks_no_group_error(p, ts.drop_last());
        assert(groups_known(p.groups@, ts[ts.len() - 1].layers@));
        lemma_layers_no_group_error(p, ts.last().layers@);
    }
}

/// The group check looks at every group: a project whose layers each name,
/// if any group, one that the project has at some position in its group list
/// is never refused for an unknown group.
pub proof fn law_known_groups_pass(p: Project, exists: Seq<bool>)
    requires
        forall|t: int| 0 <= t < p.tracks@.len() ==> groups_known(p.groups@, (#[trigger] p.tracks@[t]).layers@),
    ensures
        !is_unknown_group(validate_spec(p, exists)),
{
    lemma_scenes_no_group_error(p.scenes@);
    lemma_tracks_no_group_error(p, p.tracks@);
    lemma_assets_no_group_error(p.assets@, exists);
}

fn validate_time_range(id: &String, start: F64Bits, duration: F64Bits) -> (r: Result<(), ValidationError>)
    ensures
        r == time_range_spec(*id, start, duration),
{
    if start.lt_zero() {
        return Err(ValidationError::NegativeStart { id: id.clone() });
    }
    if duration.le_zero() {
        return Err(ValidationError::NonPositiveDuration { id: id.clone() });
    }
    Ok(())
}

fn group_exists(groups: &Vec<TimelineGroup>, id: &String) -> (r: bool)
    ensures
        r == has_group(groups@, id@),
{
    let mut i: usize = 0;
    while i < groups.len()
        invariant
            i <= groups.len(),
            forall|j: int| 0 <= j < i ==> (#[trigger] groups@[j]).id@ != id@,
        decreases groups.len() - i,
    {
        if groups[i].id == *id {
            return true;
        }
        i = i + 1;
    }
    false
}

fn asset_exists(assets: &Vec<Asset>, id: &String) -> (r: bool)
    ensures
        r == has_asset(assets@, id@),
{
    let mut i: usize = 0;
    while i < assets.len()
        invariant
            i <= assets.len(),
            forall|j: int| 0 <= j < i ==> (#[trigger] assets@[j]).id@ != id@,
        decreases assets.len() - i,
    {
        if assets[i].id == *id {
            return true;
        }
        i = i + 1;
    }
    false
}

fn validate_layer_group(project: &Project, layer: &Layer) -> (r: Result<(), ValidationError>)
    ensures
        r == (match layer.group_id {
            Some(g) => if has_group(project.groups@, g@) {
                Ok(())
            } else {
                Err(ValidationError::UnknownGroup { layer: layer.id, group: g })
            },
            None => Ok(()),
        }),
{
    match &layer.group_id {
        Some(g) => {
            if group_exists(&project.groups, g) {
                Ok(())
            } else {
                Err(ValidationError::UnknownGroup { layer: layer.id.clone(), group: g.clone() })
            }
        },
        None => Ok(()),
    }
}

fn validate_layer_content(project: &Project, layer: &Layer) -> (r: Result<(), ValidationError>)
    ensures
        r == (match content_asset(layer.content) {
            Some(a) => if has_asset(project.assets@, a@) {
                Ok(())
            } else {
                Err(ValidationError::UnknownAsset { layer: layer.id, asset: a })
            },
            None => Ok(()),
        }),
{
    let asset_id = match &layer.content {
        LayerContent::Video(c) => Some(&c.asset_id),
        LayerContent::Image(c) => Some(&c.asset_id),
        LayerContent::Audio(c) => Some(&c.asset_id),
        LayerContent::Subtitle(c) => Some(&c.asset_id),
        LayerContent::Text(_) | LayerContent::Voice(_) => None,
    };
    match asset_id {
        Some(a) => {
            if asset_exists(&project.assets, a) {
                Ok(())
            } else {
                Err(ValidationError::UnknownAsset { layer: layer.id.clone(), asset: a.clone() })
            }
        },
        None => Ok(()),
    }
}

/// Checks a project: the settings, every scene, every layer, and that every
/// asset's file exists (`asset_exists[i]` tells whether the file of asset
/// `i` exists).
pub fn validate_project(project: &Project, asset_exists: &[bool]) -> (r: Result<(), ValidationError>)
    requires
        asset_exists@.len() == project.assets@.len(),
    ensures
        r == validate_spec(*project, asset_exists@),
{
    if is_blank_str(project.settings.title.as_str()) {
        return Err(ValidationError::TitleRequired);
    }
    if project.settings.width == 0 || project.settings.height == 0 {
        return Err(ValidationError::InvalidDimensions);
    }
    if project.settings.fps == 0 {
        return Err(ValidationError::InvalidFps);
    }
    if project.settings.sample_rate == 0 {
        return Err(ValidationError::InvalidSampleRate);
    }
    if project.settings.duration.le_zero() {
        return Err(ValidationError::InvalidDuration);
    }
    let mut s: usize = 0;
    while s < project.scenes.len()
        invariant
            s <= project.scenes.len(),
            validate_spec(*project, asset_exists@) == then(
                scenes_spec(project.scenes@),
                then(tracks_spec(*project, project.tracks@), assets_spec(project.assets@, asset_exists@)),
            ),
            scenes_spec(project.scenes@.take(s as int)) == Ok::<(), ValidationError>(()),
        decreases project.scenes.len() - s,
    {
        let scene = &project.scenes[s];
        proof {
            assert(project.scenes@.take(s + 1).drop_last() =~= project.scenes@.take(s as int));
            assert(project.scenes@.take(s + 1).last() == project.scenes@[s as int]);
        }
        match validate_time_range(&scene.id, scene.start, scene.duration) {
            Ok(()) => {},
            Err(e) => {
                proof {
                    lemma_scenes_prefix_err(project.scenes@, (s + 1) as int);
                }
                return Err(e);
            },
        }
        s = s + 1;
    }
    assert(project.scenes@.take(project.scenes.len() as int) =~= project.scenes@);
    let mut t: usize = 0;
    while t < project.tracks.len()
        invariant
            t <= project.tracks.len(),
            scenes_spec(project.scenes@) == Ok::<(), ValidationError>(()),
            validate_spec(*project, asset_exists@) == then(
                scenes_spec(project.scenes@),
                then(tracks_spec(*project, project.tracks@), assets_spec(project.assets@, asset_exists@)),
            ),
            tracks_spec(*project, project.tracks@.take(t as int)) == Ok::<(), ValidationError>(()),
        decreases project.tracks.len() - t,
    {
        let track = &project.tracks[t];
        proof {
            assert(project.tracks@.take(t + 1).drop_last() =~= project.tracks@.take(t as int));
            assert(project.tracks@.take(t + 1).last() == project.tracks@[t as int]);
        }
        let mut l: usize = 0;
        while l < track.layers.len()
            invariant
                l <= track.layers.len(),
                t < project.tracks.len(),
                *track == project.tracks@[t as int],
                tracks_spec(*project, project.tracks@.take(t as int)) == Ok::<(), ValidationError>(()),
                project.tracks@.take(t + 1).drop_last() == project.tracks@.take(t as int),
                project.tracks@.take(t + 1).last() == project.tracks@[t as int],
                scenes_spec(project.scenes@) == Ok::<(), ValidationError>(()),
                validate_spec(*project, asset_exists@) == then(
                    scenes_spec(project.scenes@),
                    then(tracks_spec(*project, project.tracks@), assets_spec(project.assets@, asset_exists@)),
                ),
                layers_spec(*project, track.layers@.take(l as int)) == Ok::<(), ValidationError>(()),
            decreases track.layers.len() - l,
        {
            let layer = &track.layers[l];
            proof {
                assert(track.layers@.take(l + 1).drop_last() =~= track.layers@.take(l as int));
                assert(track.layers@.take(l + 1).last() == track.layers@[l as int]);
            }
            let r1 = validate_time_range(&layer.id, layer.start, layer.duration);
            let r2 = validate_layer_group(project, layer);
            let r3 = validate_layer_content(project, layer);
            let r = match r1 {
                Err(e) => Err(e),
                Ok(()) => match r2 {
                    Err(e) => Err(e),
                    Ok(()) => r3,
                },
            };
            match r {
                Ok(()) => {},
                Err(e) => {
                    proof {
                        lemma_layers_prefix_err(*project, track.layers@, (l + 1) as int);
                        lemma_tracks_prefix_err(*project, project.tracks@, (t + 1) as int);
                    }
                    return Err(e);
                },
            }
            l = l + 1;
        }
        assert(track.layers@.take(track.layers.len() as int) =~= track.layers@);
        t = t + 1;
    }
    assert(project.tracks@.take(project.tracks.len() as int) =~= project.tracks@);
    let mut a: usize = 0;
    while a < project.assets.len()
        invariant
            a <= project.assets.len(),
            scenes_spec(project.scenes@) == Ok::<(), ValidationError>(()),
            tracks_spec(*project, project.tracks@) == Ok::<(), ValidationError>(()),
            validate_spec(*project, asset_exists@) == then(
                scenes_spec(project.scenes@),
                then(tracks_spec(*project, project.tracks@), assets_spec(project.assets@, asset_exists@)),
            ),
            asset_exists@.len() == project.assets@.len(),
            assets_spec(project.assets@.take(a as int), asset_exists@) == Ok::<(), ValidationError>(()),
        decreases project.assets.len() - a,
    {
        proof {
            assert(project.assets@.take(a + 1).drop_last() =~= project.assets@.take(a as int));
            assert(project.assets@.take(a + 1).last() == project.assets@[a as int]);
            assert(project.assets@.take(a + 1).len() == a + 1);
        }
        if !asset_exists[a] {
            let asset = &project.assets[a];
            proof {
                lemma_assets_prefix_err(project.assets@, asset_exists@, (a + 1) as int);
            }
            return Err(ValidationError::AssetFileMissing { asset: asset.id.clone(), path: asset.path.clone() });
        }
        a = a + 1;
    }
    assert(project.assets@.take(project.assets.len() as int) =~= project.assets@);
    Ok(())
}

proof fn lemma_scenes_prefix_err(s: Seq<Scene>, k: int)
    requires
        0 <= k <= s.len(),
        scenes_spec(s.take(k)) is Err,
    ensures
        scenes_spec(s) == scenes_spec(s.take(k)),
    decreases s.len() - k,
{
    if k < s.len() {
        assert(s.take(k + 1).drop_last() =~= s.take(k));
        lemma_scenes_prefix_err(s, k + 1);
    } else {
        assert(s.take(k) =~= s);
    }
}

proof fn lemma_layers_prefix_err(p: Project, s: Seq<Layer>, k: int)
    requires
        0 <= k <= s.len(),
        layers_spec(p, s.take(k)) is Err,
    ensures
        layers_spec(p, s) == layers_spec(p, s.take(k)),
    decreases s.len() - k,
{
    if k < s.len() {
        assert(s.take(k + 1).drop_last() =~= s.take(k));
        lemma_layers_prefix_err(p, s, k + 1);
    } else {
        assert(s.take(k) =~= s);
    }
}

proof fn lemma_tracks_prefix_err(p: Project, s: Seq<Track>, k: int)
    requires
        0 <= k <= s.len(),
        tracks_spec(p, s.take(k)) is Err,
    ensures
        tracks_spec(p, s) == tracks_spec(p, s.take(k)),
    decreases s.len() - k,
{
    if k < s.len() {
        assert(s.take(k + 1).drop_last() =~= s.take(k));
        lemma_tracks_prefix_err(p, s, k + 1);
    } else {
        assert(s.take(k) =~= s);
    }
}

proof fn lemma_assets_prefix_err(s: Seq<Asset>, exists: Seq<bool>, k: int)
    requires
        0 <= k <= s.len(),
        assets_spec(s.take(k), exists) is Err,
    ensures
        assets_spec(s, exists) == assets_spec(s.take(k), exists),
    decreases s.len() - k,
{
    if k < s.len() {
        assert(s.take(k + 1).drop_last() =~= s.take(k));
        lemma_assets_prefix_err(s, exists, k + 1);
    } else {
        assert(s.take(k) =~= s);
    }
}

} // verus!

verus! {

/// The message of a validation error; a missing asset file is shown joined
/// to the project root.
pub open spec fn validation_message(e: ValidationError, project_root: Seq<char>) -> Seq<char> {
    match e {
        ValidationError::TitleRequired => "settings.title は必須です"@,
        ValidationError::InvalidDimensions => "settings.width と settings.height は 1 以上である必要があります"@,
        ValidationError::InvalidFps => "settings.fps は 1 以上である必要があります"@,
        ValidationError::InvalidSampleRate => "settings.sample_rate は 1 以上である必要があります"@,
        ValidationError::InvalidDuration => "settings.duration は 0 より大きい必要があります"@,
        ValidationError::NegativeStart { id } => "'"@ + id@ + "' の start は 0 以上である必要があります"@,
        ValidationError::NonPositiveDuration { id } => "'"@ + id@ + "' の duration は 0 より大きい必要があります"@,
        ValidationError::UnknownGroup { layer, group } => "layer '"@ + layer@ + "' の group_id '"@ + group@
            + "' が groups に存在しません"@,
        ValidationError::UnknownAsset { layer, asset } => "layer '"@ + layer@ + "' が未知の asset '"@ + asset@
            + "' を参照しています"@,
        ValidationError::AssetFileMissing { asset, path } => "asset '"@ + asset@ + "' のファイルが存在しません: "@
            + path_join(project_root, path@),
    }
}

impl ValidationError {
    /// The message of the error, with asset paths joined to `project_root`.
    pub fn message(&self, project_root: &str) -> (r: String)
        ensures
            r@ == validation_message(*self, project_root@),
    {
        match self {
            ValidationError::TitleRequired => String::from_str("settings.title は必須です"),
            ValidationError::InvalidDimensions => String::from_str(
                "settings.width と settings.height は 1 以上である必要があります",
            ),
            ValidationError::InvalidFps => String::from_str("settings.fps は 1 以上である必要があります"),
            ValidationError::InvalidSampleRate => String::from_str(
                "settings.sample_rate は 1 以上である必要があります",
            ),
            ValidationError::InvalidDuration => String::from_str(
                "settings.duration は 0 より大きい必要があります",
            ),
            ValidationError::NegativeStart { id } => {
                let mut s = String::from_str("'");
                s.append(id.as_str());
                s.append("' の start は 0 以上である必要があります");
                s
            },
            ValidationError::NonPositiveDuration { id } => {
                let mut s = String::from_str("'");
                s.append(id.as_str());
                s.append("' の duration は 0 より大きい必要があります");
                s
            },
            ValidationError::UnknownGroup { layer, group } => {
                let mut s = String::from_str("layer '");
                s.append(layer.as_str());
                s.append("' の group_id '");
                s.append(group.as_str());
                s.append("' が groups に存在しません");
                s
            },
            ValidationError::UnknownAsset { layer, asset } => {
                let mut s = String::from_str("layer '");
                s.append(layer.as_str());
                s.append("' が未知の asset '");
                s.append(asset.as_str());
                s.append("' を参照しています");
                s
            },
            ValidationError::AssetFileMissing { asset, path } => {
                let mut s = String::from_str("asset '");
                s.append(asset.as_str());
                s.append("' のファイルが存在しません: ");
                let full = join_path(project_root, path.as_str());
                s.append(full.as_str());
                s
            },
        }
    }
}

} // verus!

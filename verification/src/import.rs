//! Importing a media file into a project: naming the asset, placing it on
//! a track as a new layer.

use crate::ids::{fresh_id, normalize, normalized, unique_id};
use crate::paths::{file_name, file_stem, join_path, path_file_name, path_file_stem, path_join};
use crate::project::{
    f64_is_nan, f64_sign, media_dir_spec, Asset, AssetKind, AudioLayer, F64Bits, FitMode,
    ImageLayer, Layer, LayerContent, Project, SubtitleLayer, Track, TrackKind, Transform,
    VideoLayer,
};
use vstd::prelude::*;
use vstd::string::*;

verus! {

/// The identifiers of the assets.
pub open spec fn asset_ids(assets: Seq<Asset>) -> Seq<Seq<char>> {
    assets.map_values(|a: Asset| a.id@)
}

/// The identifiers of the tracks.
pub open spec fn track_ids(tracks: Seq<Track>) -> Seq<Seq<char>> {
    tracks.map_values(|t: Track| t.id@)
}

/// All layers of all tracks, track by track.
pub open spec fn all_layers(tracks: Seq<Track>) -> Seq<Layer>
    decreases tracks.len(),
{
    if tracks.len() == 0 {
        Seq::empty()
    } else {
        all_layers(tracks.drop_last()) + tracks.last().layers@
    }
}

/// The identifiers of all layers.
pub open spec fn layer_ids(tracks: Seq<Track>) -> Seq<Seq<char>> {
    all_layers(tracks).map_values(|l: Layer| l.id@)
}

/// The largest z-index of the layers, if there is a layer.
pub open spec fn max_z(layers: Seq<Layer>) -> Option<i32>
    decreases layers.len(),
{
    if layers.len() == 0 {
        None
    } else {
        match max_z(layers.drop_last()) {
            None => Some(layers.last().z_index),
            Some(m) => Some(if m >= layers.last().z_index { m } else { layers.last().z_index }),
        }
    }
}

/// The z-index of an imported layer: one above every layer, or 1.
pub open spec fn import_z(tracks: Seq<Track>) -> int {
    match max_z(all_layers(tracks)) {
        Some(m) => m + 1,
        None => 1,
    }
}

/// The bits of `0.001`.
pub open spec fn min_duration_bits() -> u64 {
    0x3f50_624d_d2f1_a9fcu64
}

/// `duration.max(0.001)`: the duration when it is a number above 0.001,
/// else 0.001.
pub open spec fn import_duration(d: F64Bits) -> F64Bits {
    if !f64_sign(d) && !f64_is_nan(d) && d.bits > min_duration_bits() {
        d
    } else {
        F64Bits { bits: min_duration_bits() }
    }
}

/// The track kind that holds imports of an asset kind.
pub open spec fn import_track_kind(k: AssetKind) -> TrackKind {
    match k {
        AssetKind::Audio => TrackKind::Audio,
        _ => TrackKind::Video,
    }
}

/// Fonts and masks are assets only; other kinds get a layer.
pub open spec fn gets_layer(k: AssetKind) -> bool {
    !(k == AssetKind::Font || k == AssetKind::Mask)
}

/// Index of the first track of a kind, or -1.
pub open spec fn first_track_of_kind(tracks: Seq<Track>, kind: TrackKind) -> int
    decreases tracks.len(),
{
    if tracks.len() == 0 {
        -1
    } else {
        let k = first_track_of_kind(tracks.drop_last(), kind);
        if k >= 0 {
            k
        } else if tracks.last().kind == kind {
            tracks.len() - 1
        } else {
            -1
        }
    }
}

/// The content of the layer that shows an imported asset.
pub open spec fn content_for(kind: AssetKind, id: String) -> LayerContent {
    match kind {
        AssetKind::Video => LayerContent::Video(
            VideoLayer { asset_id: id, crop: None, trim_start: None, trim_end: None, fit: None },
        ),
        AssetKind::Image => LayerContent::Image(
            ImageLayer { asset_id: id, crop: None, mask: None, fit: Some(FitMode::Contain) },
        ),
        AssetKind::Audio => LayerContent::Audio(AudioLayer { asset_id: id, trim_start: None, trim_end: None }),
        _ => LayerContent::Subtitle(SubtitleLayer { asset_id: id }),
    }
}

/// `l` is the layer placed for `asset` in `p`: a fresh id, at time zero,
/// lasting the project (at least 0.001 s), above every other layer, showing
/// the asset with `transform`.
pub open spec fn imported_layer(p: Project, asset: Asset, transform: Transform, l: Layer) -> bool {
    &&& fresh_id(layer_ids(p.tracks@), normalized(asset.id@ + "-layer"@, "layer"@), l.id@)
    &&& l.group_id is None
    &&& l.start == F64Bits { bits: 0 }
    &&& l.duration == import_duration(p.settings.duration)
    &&& l.z_index == import_z(p.tracks@)
    &&& l.content == content_for(asset.kind, asset.id)
    &&& l.transform == transform
    &&& l.effects@.len() == 0
    &&& l.animations@.len() == 0
    &&& l.transition is None
}

/// The asset a source file becomes: named after the file's stem (or
/// `asset`), stored under `media/<kind>/<file name>`.
pub open spec fn imported_asset_spec(source: Seq<char>, kind: AssetKind, a: Asset) -> bool {
    &&& path_file_name(source) matches Some(name)
    &&& a.kind == kind
    &&& a.path@ == path_join(path_join("media"@, media_dir_spec(kind)), name)
    &&& a.id@ == (match path_file_stem(source) {
        Some(stem) => stem,
        None => "asset"@,
    })
}

/// Why a file cannot be imported.
#[derive(Debug, Clone, PartialEq, Eq)]
pub enum ImportError {
    /// The source path has no file name.
    NoFileName { source: String },
}

/// The asset that a source file is imported as.
pub fn imported_asset(source_path: &str, kind: AssetKind) -> (r: Result<Asset, ImportError>)
    ensures
        path_file_name(source_path@) is None ==> (r matches Err(ImportError::NoFileName { source })
            && source@ == source_path@),
        path_file_name(source_path@) is Some ==> (r matches Ok(a) && imported_asset_spec(
            source_path@,
            kind,
            a,
        )),
{
    let name = match file_name(source_path) {
        Some(n) => n,
        None => {
            return Err(ImportError::NoFileName { source: source_path.to_owned() });
        },
    };
    let dir = join_path("media", kind.media_dir());
    let path = join_path(dir.as_str(), name.as_str());
    let id = match file_stem(source_path) {
        Some(stem) => stem,
        None => "asset".to_owned(),
    };
    Ok(Asset { id, kind, path })
}

fn collect_asset_ids(assets: &Vec<Asset>) -> (r: Vec<String>)
    ensures
        r@.map_values(|s: String| s@) == asset_ids(assets@),
{
    let mut ids: Vec<String> = Vec::new();
    let mut i: usize = 0;
    while i < assets.len()
        invariant
            i <= assets.len(),
            ids@.len() == i,
            ids@.map_values(|s: String| s@) == asset_ids(assets@.take(i as int)),
        decreases assets.len() - i,
    {
        let ghost prev = ids@;
        let id = assets[i].id.clone();
        ids.push(id);
        proof {
            let lhs = ids@.map_values(|s: String| s@);
            let rhs = asset_ids(assets@.take(i + 1));
            assert forall|k: int| 0 <= k < i + 1 implies lhs[k] == rhs[k] by {
                if k < i {
                    assert(prev.map_values(|s: String| s@)[k] == asset_ids(assets@.take(i as int))[k]);
                }
            }
            assert(lhs =~= rhs);
        }
        i = i + 1;
    }
    assert(assets@.take(assets.len() as int) =~= assets@);
    ids
}

fn collect_track_ids(tracks: &Vec<Track>) -> (r: Vec<String>)
    ensures
        r@.map_values(|s: String| s@) == track_ids(tracks@),
{
    let mut ids: Vec<String> = Vec::new();
    let mut i: usize = 0;
    while i < tracks.len()
        invariant
            i <= tracks.len(),
            ids@.len() == i,
            ids@.map_values(|s: String| s@) == track_ids(tracks@.take(i as int)),
        decreases tracks.len() - i,
    {
        let ghost prev = ids@;
        let id = tracks[i].id.clone();
        ids.push(id);
        proof {
            let lhs = ids@.map_values(|s: String| s@);
            let rhs = track_ids(tracks@.take(i + 1));
            assert forall|k: int| 0 <= k < i + 1 implies lhs[k] == rhs[k] by {
                if k < i {
                    assert(prev.map_values(|s: String| s@)[k] == track_ids(tracks@.take(i as int))[k]);
                }
            }
            assert(lhs =~= rhs);
        }
        i = i + 1;
    }
    assert(tracks@.take(tracks.len() as int) =~= tracks@);
    ids
}

fn collect_layer_ids(tracks: &Vec<Track>) -> (r: Vec<String>)
    ensures
        r@.map_values(|s: String| s@) == layer_ids(tracks@),
{
    let mut ids: Vec<String> = Vec::new();
    let mut t: usize = 0;
    while t < tracks.len()
        invariant
            t <= tracks.len(),
            ids@.len() == layer_ids(tracks@.take(t as int)).len(),
            ids@.map_values(|s: String| s@) == layer_ids(tracks@.take(t as int)),
        decreases tracks.len() - t,
    {
        let layers = &tracks[t].layers;
        let ghost before = ids@.map_values(|s: String| s@);
        proof {
            assert(tracks@.take(t + 1).drop_last() =~= tracks@.take(t as int));
        }
        let mut l: usize = 0;
        while l < layers.len()
            invariant
                l <= layers.len(),
                ids@.len() == before.len() + l,
                ids@.map_values(|s: String| s@) == before + layers@.take(l as int).map_values(
                    |x: Layer| x.id@,
                ),
            decreases layers.len() - l,
        {
            let ghost prev = ids@;
            let id = layers[l].id.clone();
            ids.push(id);
            proof {
                let lhs = ids@.map_values(|s: String| s@);
                let rhs = before + layers@.take(l + 1).map_values(|x: Layer| x.id@);
                let old_rhs = before + layers@.take(l as int).map_values(|x: Layer| x.id@);
                assert(lhs.len() == rhs.len());
                assert forall|k: int| 0 <= k < lhs.len() implies lhs[k] == rhs[k] by {
                    if k < lhs.len() - 1 {
                        assert(prev.map_values(|s: String| s@)[k] == old_rhs[k]);
                    }
                }
                assert(lhs =~= rhs);
            }
            l = l + 1;
        }
        assert(layers@.take(layers.len() as int) =~= layers@);
        assert(ids@.map_values(|s: String| s@) =~= layer_ids(tracks@.take(t + 1)));
        t = t + 1;
    }
    assert(tracks@.take(tracks.len() as int) =~= tracks@);
    ids
}

/// A fresh asset identifier for `base` (blank bases become `asset`).
pub fn unique_asset_id(project: &Project, base: &str) -> (r: String)
    ensures
        fresh_id(asset_ids(project.assets@), normalized(base@, "asset"@), r@),
{
    let ids = collect_asset_ids(&project.assets);
    let normalized_base = normalize(base, "asset");
    unique_id(&ids, normalized_base.as_str())
}

/// A fresh layer identifier for `base` (blank bases become `layer`).
pub fn unique_layer_id(project: &Project, base: &str) -> (r: String)
    ensures
        fresh_id(layer_ids(project.tracks@), normalized(base@, "layer"@), r@),
{
    let ids = collect_layer_ids(&project.tracks);
    let normalized_base = normalize(base, "layer");
    unique_id(&ids, normalized_base.as_str())
}

/// A fresh track identifier for `base`.
pub fn unique_track_id(project: &Project, base: &str) -> (r: String)
    ensures
        fresh_id(track_ids(project.tracks@), base@, r@),
{
    let ids = collect_track_ids(&project.tracks);
    unique_id(&ids, base)
}

} // verus!

verus! {

proof fn lemma_first_track_of_kind(tracks: Seq<Track>, kind: TrackKind)
    ensures
        -1 <= first_track_of_kind(tracks, kind) < tracks.len(),
        first_track_of_kind(tracks, kind) >= 0 ==> tracks[first_track_of_kind(tracks, kind)].kind == kind,
        forall|j: int|
            0 <= j < tracks.len() && (first_track_of_kind(tracks, kind) < 0 || j < first_track_of_kind(
                tracks,
                kind,
            )) ==> (#[trigger] tracks[j]).kind != kind,
    decreases tracks.len(),
{
    if tracks.len() > 0 {
        lemma_first_track_of_kind(tracks.drop_last(), kind);
        assert forall|j: int| 0 <= j < tracks.len() - 1 implies tracks[j] == tracks.drop_last()[j] by {}
    }
}

/// The track that holds imports of `kind`: the first track of the matching
/// kind, or a new one (`v1` "V1 Main Video" or `a1` "A1 Voice", with a fresh
/// id) appended to the project.
pub fn ensure_import_track(project: &mut Project, kind: AssetKind) -> (r: usize)
    ensures
        final(project).settings == old(project).settings,
        final(project).assets == old(project).assets,
        final(project).scenes == old(project).scenes,
        final(project).groups == old(project).groups,
        final(project).plugins == old(project).plugins,
        r < final(project).tracks@.len(),
        ({
            let k = first_track_of_kind(old(project).tracks@, import_track_kind(kind));
            if k >= 0 {
                r == k && final(project).tracks == old(project).tracks
            } else {
                let t = final(project).tracks@.last();
                &&& r == old(project).tracks@.len()
                &&& final(project).tracks@.drop_last() == old(project).tracks@
                &&& fresh_id(
                    track_ids(old(project).tracks@),
                    if import_track_kind(kind) == TrackKind::Video { "v1"@ } else { "a1"@ },
                    t.id@,
                )
                &&& t.name@ == (if import_track_kind(kind) == TrackKind::Video {
                    "V1 Main Video"@
                } else {
                    "A1 Voice"@
                })
                &&& t.kind == import_track_kind(kind)
                &&& t.layers@.len() == 0
            }
        }),
{
    let target = match kind {
        AssetKind::Audio => TrackKind::Audio,
        _ => TrackKind::Video,
    };
    proof {
        lemma_first_track_of_kind(project.tracks@, target);
    }
    let mut i: usize = 0;
    while i < project.tracks.len()
        invariant
            i <= project.tracks.len(),
            project == old(project),
            target == import_track_kind(kind),
            forall|j: int| 0 <= j < i ==> (#[trigger] project.tracks@[j]).kind != target,
        decreases project.tracks.len() - i,
    {
        if project.tracks[i].kind == target {
            proof {
                lemma_first_track_of_kind(project.tracks@, target);
            }
            return i;
        }
        i = i + 1;
    }
    let (id, name) = match target {
        TrackKind::Video => ("v1", "V1 Main Video"),
        TrackKind::Audio => ("a1", "A1 Voice"),
    };
    let track_id = unique_track_id(project, id);
    let ghost before = project.tracks@;
    project.tracks.push(Track { id: track_id, name: name.to_owned(), kind: target, layers: Vec::new() });
    assert(project.tracks@.drop_last() =~= before);
    project.tracks.len() - 1
}

fn max_z_exec(tracks: &Vec<Track>) -> (r: Option<i32>)
    ensures
        r == max_z(all_layers(tracks@)),
{
    let mut best: Option<i32> = None;
    let mut t: usize = 0;
    while t < tracks.len()
        invariant
            t <= tracks.len(),
            best == max_z(all_layers(tracks@.take(t as int))),
        decreases tracks.len() - t,
    {
        let layers = &tracks[t].layers;
        let ghost base = all_layers(tracks@.take(t as int));
        proof {
            assert(tracks@.take(t + 1).drop_last() =~= tracks@.take(t as int));
        }
        let mut l: usize = 0;
        while l < layers.len()
            invariant
                l <= layers.len(),
                best == max_z(base + layers@.take(l as int)),
            decreases layers.len() - l,
        {
            let z = layers[l].z_index;
            proof {
                assert((base + layers@.take(l + 1)).drop_last() =~= base + layers@.take(l as int));
            }
            best = match best {
                None => Some(z),
                Some(m) => Some(if m >= z { m } else { z }),
            };
            l = l + 1;
        }
        assert(layers@.take(layers.len() as int) =~= layers@);
        assert(all_layers(tracks@.take(t + 1)) =~= base + layers@);
        t = t + 1;
    }
    assert(tracks@.take(tracks.len() as int) =~= tracks@);
    best
}

fn import_duration_exec(d: F64Bits) -> (r: F64Bits)
    ensures
        r == import_duration(d),
{
    let mag = d.bits % 0x8000_0000_0000_0000;
    if d.bits < 0x8000_0000_0000_0000 && mag <= 0x7ff0_0000_0000_0000 && d.bits > 0x3f50_624d_d2f1_a9fcu64 {
        d
    } else {
        F64Bits { bits: 0x3f50_624d_d2f1_a9fcu64 }
    }
}

fn imported_layer_content(asset: &Asset) -> (r: LayerContent)
    requires
        gets_layer(asset.kind),
    ensures
        r == content_for(asset.kind, asset.id),
{
    match asset.kind {
        AssetKind::Video => LayerContent::Video(
            VideoLayer { asset_id: asset.id.clone(), crop: None, trim_start: None, trim_end: None, fit: None },
        ),
        AssetKind::Image => LayerContent::Image(
            ImageLayer { asset_id: asset.id.clone(), crop: None, mask: None, fit: Some(FitMode::Contain) },
        ),
        AssetKind::Audio => LayerContent::Audio(
            AudioLayer { asset_id: asset.id.clone(), trim_start: None, trim_end: None },
        ),
        _ => LayerContent::Subtitle(SubtitleLayer { asset_id: asset.id.clone() }),
    }
}

/// The layer that places an imported asset, when its kind gets one.
pub fn imported_asset_layer(project: &Project, asset: &Asset, transform: Transform) -> (r: Option<Layer>)
    requires
        import_z(project.tracks@) <= i32::MAX,
    ensures
        !gets_layer(asset.kind) ==> r is None,
        gets_layer(asset.kind) ==> (r matches Some(l) && imported_layer(*project, *asset, transform, l)),
{
    if asset.kind == AssetKind::Font || asset.kind == AssetKind::Mask {
        return None;
    }
    let mut base = asset.id.clone();
    base.append("-layer");
    let layer_id = unique_layer_id(project, base.as_str());
    let duration = import_duration_exec(project.settings.duration);
    let z_index = match max_z_exec(&project.tracks) {
        Some(m) => m + 1,
        None => 1,
    };
    Some(
        Layer {
            id: layer_id,
            group_id: None,
            start: F64Bits { bits: 0 },
            duration,
            z_index,
            content: imported_layer_content(asset),
            transform,
            effects: Vec::new(),
            animations: Vec::new(),
            transition: None,
        },
    )
}

/// Adds an imported asset to the project under a fresh id and, unless it
/// is a font or a mask, places it as a new layer on the matching track.
pub fn register_imported_asset(project: &mut Project, asset: Asset, transform: Transform)
    requires
        import_z(old(project).tracks@) <= i32::MAX,
    ensures
        final(project).settings == old(project).settings,
        final(project).scenes == old(project).scenes,
        final(project).groups == old(project).groups,
        final(project).plugins == old(project).plugins,
        ({
            let a = final(project).assets@.last();
            &&& final(project).assets@.len() == old(project).assets@.len() + 1
            &&& final(project).assets@.drop_last() == old(project).assets@
            &&& fresh_id(asset_ids(old(project).assets@), normalized(asset.id@, "asset"@), a.id@)
            &&& a.kind == asset.kind
            &&& a.path == asset.path
        }),
        !gets_layer(asset.kind) ==> final(project).tracks == old(project).tracks,
        gets_layer(asset.kind) ==> ({
            let old_tracks = old(project).tracks@;
            let new_tracks = final(project).tracks@;
            let k = first_track_of_kind(old_tracks, import_track_kind(asset.kind));
            let t = if k >= 0 { k } else { old_tracks.len() as int };
            let placed = new_tracks[t].layers@.last();
            &&& 0 <= t < new_tracks.len()
            &&& imported_layer(*old(project), final(project).assets@.last(), transform, placed)
            &&& new_tracks[t].layers@.drop_last() == (if k >= 0 {
                old_tracks[k].layers@
            } else {
                Seq::empty()
            })
            &&& new_tracks[t].id == (if k >= 0 { old_tracks[k].id } else { new_tracks[t].id })
            &&& new_tracks[t].kind == import_track_kind(asset.kind)
            &&& k >= 0 ==> new_tracks[t].name == old_tracks[k].name
            &&& forall|j: int| 0 <= j < old_tracks.len() && j != t ==> new_tracks[j] == old_tracks[j]
            &&& new_tracks.len() == old_tracks.len() + (if k >= 0 { 0int } else { 1int })
        }),
{
    let id = unique_asset_id(project, asset.id.as_str());
    let kind = asset.kind;
    let asset = Asset { id, kind, path: asset.path };
    let layer = imported_asset_layer(project, &asset, transform);
    let ghost before = *project;
    project.assets.push(asset);
    assert(project.assets@.drop_last() =~= before.assets@);
    if let Some(layer) = layer {
        let index = ensure_import_track(project, kind);
        let ghost tracks_before = project.tracks@;
        project.tracks[index].layers.push(layer);
        proof {
            lemma_first_track_of_kind(before.tracks@, import_track_kind(kind));
            assert(project.tracks@[index as int].layers@.drop_last() =~= tracks_before[index as int].layers@);
        }
    }
}

} // verus!

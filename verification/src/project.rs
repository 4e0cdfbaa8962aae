//! The project model: settings, assets, the timeline and its layers.
//!
//! Decimal quantities (seconds, pixels, factors) are held as the bit
//! patterns of their IEEE-754 values, so that the rules that compare them can
//! be stated over integers.

use vstd::prelude::*;
use vstd::string::*;

verus! {

/// An IEEE-754 binary64 value, held as its bit pattern.
#[derive(Debug, Clone, Copy, PartialEq, Eq, Structural)]
pub struct F64Bits {
    pub bits: u64,
}

/// An IEEE-754 binary32 value, held as its bit pattern.
#[derive(Debug, Clone, Copy, PartialEq, Eq, Structural)]
pub struct F32Bits {
    pub bits: u32,
}

/// Milliseconds.
pub type Millis = u64;

/// A whole project, as `mm.toml` describes it.
#[derive(Debug, Clone, PartialEq)]
pub struct Project {
    pub settings: ProjectSettings,
    pub assets: Vec<Asset>,
    pub tracks: Vec<Track>,
    pub scenes: Vec<Scene>,
    pub groups: Vec<TimelineGroup>,
    pub plugins: Vec<PluginDeclaration>,
}

/// Output settings of a project.
#[derive(Debug, Clone, PartialEq)]
pub struct ProjectSettings {
    pub title: String,
    pub width: u32,
    pub height: u32,
    pub fps: u32,
    pub sample_rate: u32,
    pub duration: F64Bits,
    pub output: String,
    pub asset_mode: AssetMode,
    pub ffmpeg: Option<String>,
}

/// Whether imported assets are copied into the project or linked.
#[derive(Debug, Clone, Copy, PartialEq, Eq, Structural)]
pub enum AssetMode {
    Copy,
    Link,
}

/// A media file of the project.
#[derive(Debug, Clone, PartialEq, Eq)]
pub struct Asset {
    pub id: String,
    pub kind: AssetKind,
    pub path: String,
}

/// The kind of a media file.
#[derive(Debug, Clone, Copy, PartialEq, Eq, Structural)]
pub enum AssetKind {
    Video,
    Image,
    Audio,
    Subtitle,
    Font,
    Mask,
}

/// The directory under `media/` that holds assets of a kind.
pub open spec fn media_dir_spec(k: AssetKind) -> Seq<char> {
    match k {
        AssetKind::Video => "video"@,
        AssetKind::Image => "image"@,
        AssetKind::Audio => "audio"@,
        AssetKind::Subtitle => "subtitle"@,
        AssetKind::Font => "font"@,
        AssetKind::Mask => "mask"@,
    }
}

impl AssetKind {
    pub fn media_dir(self) -> (r: &'static str)
        ensures
            r@ == media_dir_spec(self),
    {
        match self {
            AssetKind::Video => "video",
            AssetKind::Image => "image",
            AssetKind::Audio => "audio",
            AssetKind::Subtitle => "subtitle",
            AssetKind::Font => "font",
            AssetKind::Mask => "mask",
        }
    }
}

/// A named span of the timeline.
#[derive(Debug, Clone, PartialEq)]
pub struct Scene {
    pub id: String,
    pub name: String,
    pub start: F64Bits,
    pub duration: F64Bits,
}

/// A named group that layers may belong to.
#[derive(Debug, Clone, PartialEq, Eq)]
pub struct TimelineGroup {
    pub id: String,
    pub name: String,
}

/// A track of layers.
#[derive(Debug, Clone, PartialEq)]
pub struct Track {
    pub id: String,
    pub name: String,
    pub kind: TrackKind,
    pub layers: Vec<Layer>,
}

/// Whether a track carries picture or sound.
#[derive(Debug, Clone, Copy, PartialEq, Eq, Structural)]
pub enum TrackKind {
    Video,
    Audio,
}

/// A timed element of a track.
#[derive(Debug, Clone, PartialEq)]
pub struct Layer {
    pub id: String,
    pub group_id: Option<String>,
    pub start: F64Bits,
    pub duration: F64Bits,
    pub z_index: i32,
    pub content: LayerContent,
    pub transform: Transform,
    pub effects: Vec<Effect>,
    pub animations: Vec<Animation>,
    pub transition: Option<Transition>,
}

/// What a layer shows or plays.
#[derive(Debug, Clone, PartialEq)]
pub enum LayerContent {
    Video(VideoLayer),
    Image(ImageLayer),
    Audio(AudioLayer),
    Text(TextLayer),
    Subtitle(SubtitleLayer),
    Voice(VoiceLayer),
}

#[derive(Debug, Clone, PartialEq)]
pub struct VideoLayer {
    pub asset_id: String,
    pub crop: Option<Crop>,
    pub trim_start: Option<F64Bits>,
    pub trim_end: Option<F64Bits>,
    pub fit: Option<FitMode>,
}

#[derive(Debug, Clone, PartialEq)]
pub struct ImageLayer {
    pub asset_id: String,
    pub crop: Option<Crop>,
    pub mask: Option<Mask>,
    pub fit: Option<FitMode>,
}

#[derive(Debug, Clone, PartialEq, Eq)]
pub struct AudioLayer {
    pub asset_id: String,
    pub trim_start: Option<Millis>,
    pub trim_end: Option<Millis>,
}

#[derive(Debug, Clone, PartialEq)]
pub struct TextLayer {
    pub text: String,
    pub font_asset_id: Option<String>,
    pub font_family: Option<String>,
    pub font_size: F32Bits,
    pub color: String,
    pub letter_spacing: F32Bits,
    pub line_spacing: F32Bits,
    pub stroke: Option<TextStroke>,
    pub shadow: Option<TextShadow>,
    pub gradient: Option<TextGradient>,
    pub align: TextAlign,
}

#[derive(Debug, Clone, PartialEq)]
pub struct TextStroke {
    pub color: String,
    pub width: F32Bits,
}

#[derive(Debug, Clone, PartialEq)]
pub struct TextShadow {
    pub color: String,
    pub offset_x: F32Bits,
    pub offset_y: F32Bits,
    pub blur: F32Bits,
}

#[derive(Debug, Clone, PartialEq, Eq)]
pub struct TextGradient {
    pub start_color: String,
    pub end_color: String,
    pub direction: GradientDirection,
}

#[derive(Debug, Clone, Copy, PartialEq, Eq, Structural)]
pub enum GradientDirection {
    Vertical,
    Horizontal,
}

#[derive(Debug, Clone, Copy, PartialEq, Eq, Structural)]
pub enum TextAlign {
    Left,
    Center,
    Right,
}

#[derive(Debug, Clone, PartialEq, Eq)]
pub struct SubtitleLayer {
    pub asset_id: String,
}

#[derive(Debug, Clone, PartialEq)]
pub struct VoiceLayer {
    pub provider: TtsProviderKind,
    pub speaker: String,
    pub text: String,
    pub speed: F32Bits,
    pub pitch: F32Bits,
    pub emotion: Option<String>,
}

#[derive(Debug, Clone, Copy, PartialEq, Eq, Structural)]
pub enum TtsProviderKind {
    Voicevox,
    AivisSpeech,
    CoeiroInk,
}

#[derive(Debug, Clone, Copy, PartialEq, Eq, Structural)]
pub enum FitMode {
    Contain,
    Cover,
    Stretch,
    BlurBackground,
}

#[derive(Debug, Clone, Copy, PartialEq, Eq, Structural)]
pub struct Crop {
    pub x: u32,
    pub y: u32,
    pub width: u32,
    pub height: u32,
}

#[derive(Debug, Clone, PartialEq)]
pub enum Mask {
    Circle,
    RoundedRect { radius: F32Bits },
    Ellipse,
    Svg { path: String },
}

#[derive(Debug, Clone, Copy, PartialEq, Eq, Structural)]
pub struct Transform {
    pub x: F32Bits,
    pub y: F32Bits,
    pub width: F32Bits,
    pub height: F32Bits,
    pub scale: F32Bits,
    pub rotation: F32Bits,
    pub opacity: F32Bits,
}

#[derive(Debug, Clone, PartialEq)]
pub struct Animation {
    pub property: AnimatedProperty,
    pub easing: Easing,
    pub keyframes: Vec<Keyframe>,
}

#[derive(Debug, Clone, Copy, PartialEq, Eq, Structural)]
pub enum AnimatedProperty {
    X,
    Y,
    Scale,
    Rotation,
    Opacity,
    Width,
    Height,
    CropX,
    CropY,
    CropWidth,
    CropHeight,
}

#[derive(Debug, Clone, Copy, PartialEq, Eq, Structural)]
pub struct Keyframe {
    pub time: F64Bits,
    pub value: F32Bits,
}

#[derive(Debug, Clone, Copy, PartialEq, Eq, Structural)]
pub enum Easing {
    Linear,
    EaseIn,
    EaseOut,
    EaseInOut,
    EaseOutBack,
    Bounce,
    Elastic,
}

#[derive(Debug, Clone, Copy, PartialEq, Eq, Structural)]
pub enum Effect {
    FadeIn { duration: F64Bits },
    FadeOut { duration: F64Bits },
    Blur { radius: F32Bits },
    Zoom { amount: F32Bits },
    Slide { x: F32Bits, y: F32Bits },
    Brightness { amount: F32Bits },
    Contrast { amount: F32Bits },
    Saturation { amount: F32Bits },
    Pixelate { size: u32 },
    MotionBlur { amount: F32Bits },
}

#[derive(Debug, Clone, PartialEq)]
pub enum Transition {
    CrossFade { duration: F64Bits },
    Wipe { duration: F64Bits, shape: WipeShape },
    Push { duration: F64Bits },
    Zoom { duration: F64Bits },
    Blur { duration: F64Bits },
    Flash { duration: F64Bits },
}

#[derive(Debug, Clone, PartialEq)]
pub enum WipeShape {
    Circle,
    RoundedRect { radius: F32Bits, border: Option<WipeBorder>, shadow: Option<TextShadow> },
}

#[derive(Debug, Clone, PartialEq)]
pub struct WipeBorder {
    pub color: String,
    pub width: F32Bits,
}

/// A plugin the project declares.
#[derive(Debug, Clone, PartialEq, Eq)]
pub struct PluginDeclaration {
    pub repository: PluginRepository,
    pub owner: Option<String>,
    pub repo: Option<String>,
    pub version: Option<String>,
    pub url: Option<String>,
    pub path: Option<String>,
}

#[derive(Debug, Clone, Copy, PartialEq, Eq, Structural)]
pub enum PluginRepository {
    Github,
    Gitlab,
    Url,
    Local,
}

/// The magnitude bits (all but the sign) of a binary64 value.
pub open spec fn f64_magnitude(x: F64Bits) -> nat {
    (x.bits % 0x8000_0000_0000_0000) as nat
}

/// The sign bit of a binary64 value is set.
pub open spec fn f64_sign(x: F64Bits) -> bool {
    x.bits >= 0x8000_0000_0000_0000
}

/// A binary64 value is a NaN: all exponent bits set and a non-zero fraction.
pub open spec fn f64_is_nan(x: F64Bits) -> bool {
    f64_magnitude(x) > 0x7ff0_0000_0000_0000
}

/// `x < 0.0` under IEEE-754 comparison.
pub open spec fn f64_lt_zero(x: F64Bits) -> bool {
    f64_sign(x) && f64_magnitude(x) != 0 && !f64_is_nan(x)
}

/// `x <= 0.0` under IEEE-754 comparison.
pub open spec fn f64_le_zero(x: F64Bits) -> bool {
    f64_magnitude(x) == 0 || (f64_sign(x) && !f64_is_nan(x))
}

impl F64Bits {
    /// `x < 0.0`.
    pub fn lt_zero(self) -> (r: bool)
        ensures
            r == f64_lt_zero(self),
    {
        let mag = self.bits % 0x8000_0000_0000_0000;
        self.bits >= 0x8000_0000_0000_0000 && mag != 0 && mag <= 0x7ff0_0000_0000_0000
    }

    /// `x <= 0.0`.
    pub fn le_zero(self) -> (r: bool)
        ensures
            r == f64_le_zero(self),
    {
        let mag = self.bits % 0x8000_0000_0000_0000;
        mag == 0 || (self.bits >= 0x8000_0000_0000_0000 && mag <= 0x7ff0_0000_0000_0000)
    }
}

/// The asset mode of a project that names none: copying.
pub fn default_asset_mode() -> (r: AssetMode)
    ensures
        r == AssetMode::Copy,
{
    AssetMode::Copy
}

/// The text color of a text layer that names none: white.
pub fn default_color() -> (r: String)
    ensures
        r@ == "#ffffff"@,
{
    String::from_str("#ffffff")
}

/// The bit pattern of the binary32 value 1.0.
pub const F32_ONE_BITS: u32 = 0x3f80_0000u32;

impl Default for Transform {
    /// At the origin, unsized, unscaled, unrotated and opaque: every field 0.0
    /// but `scale` and `opacity`, which are 1.0.
    fn default() -> (r: Self)
        ensures
            r.x.bits == 0,
            r.y.bits == 0,
            r.width.bits == 0,
            r.height.bits == 0,
            r.scale.bits == F32_ONE_BITS,
            r.rotation.bits == 0,
            r.opacity.bits == F32_ONE_BITS,
    {
        Transform {
            x: F32Bits { bits: 0 },
            y: F32Bits { bits: 0 },
            width: F32Bits { bits: 0 },
            height: F32Bits { bits: 0 },
            scale: F32Bits { bits: F32_ONE_BITS },
            rotation: F32Bits { bits: 0 },
            opacity: F32Bits { bits: F32_ONE_BITS },
        }
    }
}

} // verus!

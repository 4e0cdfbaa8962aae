//! The renderer's decisions that do not draw: which backend and ffmpeg to
//! use, the ffmpeg command line and filter graph, colors, cache names and
//! the GPU readback layout.

use crate::paths::{join_path, path_join};
use crate::project::{AssetKind, Crop, Project};
use crate::text::{decimal, decimal_string, hex_fixed, hex16, push_char};
use vstd::prelude::*;
use vstd::string::*;

verus! {

/// Which renderer draws the frames.
#[derive(Debug, Clone, Copy, PartialEq, Eq, Structural)]
pub enum RenderBackend {
    Auto,
    Cpu,
    Skia,
    Gpu,
}

/// Whether a GPU adapter was found, and its name.
#[derive(Debug, Clone, PartialEq, Eq)]
pub struct GpuProbe {
    pub available: bool,
    pub adapter_name: Option<String>,
}

/// An RGBA color with 8 bits per channel.
#[derive(Debug, Clone, Copy, PartialEq, Eq, Structural)]
pub struct Color {
    pub r: u8,
    pub g: u8,
    pub b: u8,
    pub a: u8,
}

/// Where a render reads the project from and writes the movie to, and how.
#[derive(Debug, Clone)]
pub struct RenderOptions {
    pub project_root: String,
    pub output_path: String,
    pub ffmpeg_path: Option<String>,
    pub background: Color,
    pub backend: RenderBackend,
}

/// The background of a frame that nothing covers: a dark grey.
pub open spec fn default_background() -> Color {
    Color { r: 20, g: 20, b: 24, a: 255 }
}

impl RenderOptions {
    /// Options for a project directory and an output file: ffmpeg looked up
    /// on the system, the default background and the automatic backend.
    pub fn new(project_root: &str, output_path: &str) -> (r: Self)
        ensures
            r.project_root@ == project_root@,
            r.output_path@ == output_path@,
            r.ffmpeg_path is None,
            r.background == default_background(),
            r.backend == RenderBackend::Auto,
    {
        RenderOptions {
            project_root: project_root.to_owned(),
            output_path: output_path.to_owned(),
            ffmpeg_path: None,
            background: Color { r: 20, g: 20, b: 24, a: 255 },
            backend: RenderBackend::Auto,
        }
    }
}

/// Why no ffmpeg or ffprobe could be used.
#[derive(Debug, Clone, Copy, PartialEq, Eq, Structural)]
pub enum LocatorError {
    FfmpegNotFound,
    FfprobeNotFound,
}

/// The message of a lookup error.
pub open spec fn locator_message(e: LocatorError) -> Seq<char> {
    match e {
        LocatorError::FfmpegNotFound => "ffmpeg が見つかりません。MM_FFMPEG または PATH を確認してください"@,
        LocatorError::FfprobeNotFound => "ffprobe が見つかりません。PATH を確認してください"@,
    }
}

impl LocatorError {
    /// The message of the error.
    pub fn message(&self) -> (r: &'static str)
        ensures
            r@ == locator_message(*self),
    {
        match self {
            LocatorError::FfmpegNotFound => "ffmpeg が見つかりません。MM_FFMPEG または PATH を確認してください",
            LocatorError::FfprobeNotFound => "ffprobe が見つかりません。PATH を確認してください",
        }
    }
}

/// Finds ffmpeg and ffprobe on the system.
#[derive(Debug, Clone, Copy, Default)]
pub struct SystemFfmpegLocator;

impl SystemFfmpegLocator {
    /// The ffmpeg to run: the project's own setting, else the value of
    /// `MM_FFMPEG` (`env_ffmpeg`), else the `ffmpeg` found on `PATH`
    /// (`on_path`).
    pub fn ffmpeg_path(&self, project: &Project, env_ffmpeg: Option<&str>, on_path: Option<String>) -> (r:
        Result<String, LocatorError>)
        ensures
            match project.settings.ffmpeg {
                Some(p) => r == Ok::<String, LocatorError>(p),
                None => match env_ffmpeg {
                    Some(v) => r matches Ok(s) && s@ == v@,
                    None => match on_path {
                        Some(p) => r == Ok::<String, LocatorError>(p),
                        None => r == Err::<String, LocatorError>(LocatorError::FfmpegNotFound),
                    },
                },
            },
    {
        if let Some(p) = &project.settings.ffmpeg {
            return Ok(p.clone());
        }
        if let Some(v) = env_ffmpeg {
            return Ok(v.to_owned());
        }
        match on_path {
            Some(p) => Ok(p),
            None => Err(LocatorError::FfmpegNotFound),
        }
    }

    /// The ffprobe to run: the `ffprobe` found on `PATH` (`on_path`).
    pub fn ffprobe_path(&self, on_path: Option<String>) -> (r: Result<String, LocatorError>)
        ensures
            match on_path {
                Some(p) => r == Ok::<String, LocatorError>(p),
                None => r == Err::<String, LocatorError>(LocatorError::FfprobeNotFound),
            },
    {
        match on_path {
            Some(p) => Ok(p),
            None => Err(LocatorError::FfprobeNotFound),
        }
    }
}

/// The ffmpeg that an application bundle ships: `ffmpeg` in the bundle's
/// directory.
pub fn bundled_ffmpeg_candidate(bundle_dir: &str) -> (r: String)
    ensures
        r@ == path_join(bundle_dir@, "ffmpeg"@),
{
    join_path(bundle_dir, "ffmpeg")
}

/// The bundled ffmpeg, when the candidate file exists (`candidate_exists`).
pub fn bundled_ffmpeg_path(bundle_dir: &str, candidate_exists: bool) -> (r: Option<String>)
    ensures
        candidate_exists ==> (r matches Some(p) && p@ == path_join(bundle_dir@, "ffmpeg"@)),
        !candidate_exists ==> r is None,
{
    if candidate_exists {
        Some(bundled_ffmpeg_candidate(bundle_dir))
    } else {
        None
    }
}

/// The options the desktop application renders a project with: the
/// project file's directory as root, the project's output, and the bundled
/// ffmpeg when there is one.
pub fn gui_render_options(project_path: &str, project: &Project, bundled_ffmpeg: Option<String>) -> (r:
    RenderOptions)
    ensures
        r.project_root@ == crate::cli::project_root_of(project_path@),
        r.output_path@ == project.settings.output@,
        r.ffmpeg_path == bundled_ffmpeg,
        r.background == default_background(),
        r.backend == RenderBackend::Auto,
{
    let root = crate::cli::project_root(project_path);
    let mut options = RenderOptions::new(root.as_str(), project.settings.output.as_str());
    options.ffmpeg_path = bundled_ffmpeg;
    options
}

/// The row alignment, in bytes, that wgpu requires of texture-to-buffer
/// copies (`wgpu::COPY_BYTES_PER_ROW_ALIGNMENT`).
pub const GPU_COPY_ALIGNMENT: u32 = 256u32;

/// `value` rounded up to a multiple of `alignment`.
pub open spec fn aligned(value: nat, alignment: nat) -> nat {
    if value % alignment == 0 {
        value
    } else {
        (value / alignment + 1) * alignment
    }
}

/// `value.div_ceil(alignment) * alignment`: the least multiple of
/// `alignment` that is at least `value`.
pub fn align_to(value: u32, alignment: u32) -> (r: u32)
    requires
        alignment > 0,
        aligned(value as nat, alignment as nat) <= u32::MAX,
    ensures
        r == aligned(value as nat, alignment as nat),
        r % alignment == 0,
        value <= r < value + alignment,
{
    let q = value / alignment;
    let rem = value % alignment;
    proof {
        assert(value == q * alignment + rem) by (nonlinear_arith)
            requires
                alignment > 0,
                q == value / alignment,
                rem == value % alignment,
        ;
    }
    if rem == 0 {
        proof {
            assert((q * alignment) % (alignment as int) == 0) by (nonlinear_arith)
                requires
                    alignment > 0,
            ;
        }
        value
    } else {
        proof {
            assert((q + 1) * alignment == q * alignment + alignment) by (nonlinear_arith);
            assert(((q + 1) * alignment) % (alignment as int) == 0) by (nonlinear_arith)
                requires
                    alignment > 0,
            ;
        }
        (q + 1) * alignment
    }
}

/// The tightly packed pixels of a frame read back from a buffer whose rows
/// are `padded_bytes_per_row` apart: row `y` of the result is the first
/// `width * 4` bytes of row `y` of the buffer.
pub open spec fn unpadded(mapped: Seq<u8>, width: nat, height: nat, padded: nat) -> Seq<u8> {
    Seq::new(
        width * 4 * height,
        |i: int| mapped[(i / (width * 4) as int) * padded + i % (width * 4) as int],
    )
}

/// The tightly packed RGBA pixels of a `width` by `height` frame that the
/// GPU copied out with rows `padded_bytes_per_row` bytes apart.
pub fn readback_pixels(mapped: &[u8], width: u32, height: u32, padded_bytes_per_row: u32) -> (r: Vec<u8>)
    requires
        width > 0,
        width * 4 <= padded_bytes_per_row,
        padded_bytes_per_row * height <= mapped@.len(),
        width * 4 * height <= usize::MAX,
    ensures
        r@ == unpadded(mapped@, width as nat, height as nat, padded_bytes_per_row as nat),
{
    let row_bytes: usize = width as usize * 4;
    let padded: usize = padded_bytes_per_row as usize;
    let total: usize = row_bytes * height as usize;
    let mapped_len = mapped.len();
    let ghost target = unpadded(mapped@, width as nat, height as nat, padded as nat);
    let mut pixels: Vec<u8> = Vec::new();
    let mut row: usize = 0;
    while row < height as usize
        invariant
            row_bytes == width * 4,
            row_bytes > 0,
            padded == padded_bytes_per_row,
            total == row_bytes * height,
            row_bytes <= padded,
            padded * height <= mapped@.len(),
            mapped_len == mapped@.len(),
            row <= height,
            pixels@.len() == row * row_bytes,
            target == unpadded(mapped@, width as nat, height as nat, padded as nat),
            target.len() == total,
            forall|i: int| 0 <= i < pixels@.len() ==> pixels@[i] == target[i],
        decreases height - row,
    {
        proof {
            assert(row * padded + row_bytes <= padded * height) by (nonlinear_arith)
                requires
                    row < height,
                    row_bytes <= padded,
            ;
            assert((row + 1) * row_bytes <= total) by (nonlinear_arith)
                requires
                    row < height,
                    total == row_bytes * height,
            ;
        }
        let source: usize = row * padded;
        let mut col: usize = 0;
        while col < row_bytes
            invariant
                row_bytes == width * 4,
                row_bytes > 0,
                padded == padded_bytes_per_row,
                total == row_bytes * height,
                row < height,
                source == row * padded,
                source + row_bytes <= mapped@.len(),
                mapped_len == mapped@.len(),
                (row + 1) * row_bytes <= total,
                col <= row_bytes,
                pixels@.len() == row * row_bytes + col,
                target == unpadded(mapped@, width as nat, height as nat, padded as nat),
                target.len() == total,
                forall|i: int| 0 <= i < pixels@.len() ==> pixels@[i] == target[i],
            decreases row_bytes - col,
        {
            let i: usize = pixels.len();
            proof {
                assert((i as int) / (row_bytes as int) == row && (i as int) % (row_bytes as int) == col) by (nonlinear_arith)
                    requires
                        i == row * row_bytes + col,
                        col < row_bytes,
                        row_bytes > 0,
                ;
                assert(i < total) by (nonlinear_arith)
                    requires
                        i == row * row_bytes + col,
                        col < row_bytes,
                        (row + 1) * row_bytes <= total,
                ;
            }
            pixels.push(mapped[source + col]);
            col = col + 1;
        }
        proof {
            assert((row + 1) * row_bytes == row * row_bytes + row_bytes) by (nonlinear_arith);
        }
        row = row + 1;
    }
    proof {
        assert(pixels@.len() == total) by (nonlinear_arith)
            requires
                pixels@.len() == row * row_bytes,
                row == height,
                total == row_bytes * height,
        ;
    }
    assert(pixels@ =~= target);
    pixels
}

/// Why a GPU frame cannot be cleared and read back.
#[derive(Debug, Clone, Copy, PartialEq, Eq, Structural)]
pub enum GpuFrameError {
    /// The frame has no pixels.
    Empty,
    /// A row of the readback buffer does not fit its 32-bit pitch.
    TooLarge,
}

impl GpuFrameError {
    /// The message of the error.
    pub fn message(&self) -> (r: &'static str)
        ensures
            r@ == (match *self {
                GpuFrameError::Empty => "GPU frame size は 1px 以上である必要があります"@,
                GpuFrameError::TooLarge => "GPU frame が大きすぎます"@,
            }),
    {
        match self {
            GpuFrameError::Empty => "GPU frame size は 1px 以上である必要があります",
            GpuFrameError::TooLarge => "GPU frame が大きすぎます",
        }
    }
}

/// The bytes between the rows of the buffer a `width` by `height` frame is
/// copied into: a row of `width * 4` bytes rounded up to the copy alignment.
/// A frame without pixels, or one whose padded row does not fit 32 bits, is
/// refused.
pub fn readback_row_pitch(width: u32, height: u32) -> (r: Result<u32, GpuFrameError>)
    ensures
        width == 0 || height == 0 ==> r == Err::<u32, GpuFrameError>(GpuFrameError::Empty),
        width > 0 && height > 0 && aligned(width as nat * 4, GPU_COPY_ALIGNMENT as nat) <= u32::MAX ==> r
            == Ok::<u32, GpuFrameError>(aligned(width as nat * 4, GPU_COPY_ALIGNMENT as nat) as u32),
        width > 0 && height > 0 && aligned(width as nat * 4, GPU_COPY_ALIGNMENT as nat) > u32::MAX ==> r
            == Err::<u32, GpuFrameError>(GpuFrameError::TooLarge),
{
    if width == 0 || height == 0 {
        return Err(GpuFrameError::Empty);
    }
    if width > 1073741760 {
        proof {
            let v: int = width * 4;
            assert(aligned(v as nat, 256) > u32::MAX) by (nonlinear_arith)
                requires
                    v > 4294967040,
                    v % 256 == 0 ==> aligned(v as nat, 256) == v,
                    v % 256 != 0 ==> aligned(v as nat, 256) == (v / 256 + 1) * 256,
            ;
        }
        return Err(GpuFrameError::TooLarge);
    }
    let v: u32 = width * 4;
    proof {
        assert(aligned(v as nat, 256) <= 4294967040) by (nonlinear_arith)
            requires
                v <= 4294967040,
                v % 256 == 0 ==> aligned(v as nat, 256) == v,
                v % 256 != 0 ==> aligned(v as nat, 256) == (v / 256 + 1) * 256,
        ;
    }
    Ok(align_to(v, GPU_COPY_ALIGNMENT))
}

/// The arguments that start an ffmpeg reading raw RGBA frames of the given
/// size and rate from its standard input.
pub open spec fn base_args(width: nat, height: nat, fps: nat) -> Seq<Seq<char>> {
    seq![
        "-y"@,
        "-f"@,
        "rawvideo"@,
        "-pix_fmt"@,
        "rgba"@,
        "-s"@,
        decimal(width) + "x"@ + decimal(height),
        "-r"@,
        decimal(fps),
        "-i"@,
        "-"@,
    ]
}

/// The views of a sequence of texts.
pub open spec fn string_views(v: Seq<String>) -> Seq<Seq<char>> {
    v.map_values(|s: String| s@)
}

/// The arguments that start an ffmpeg reading raw RGBA frames of the given
/// size and rate from its standard input.
pub fn base_ffmpeg_args(width: u32, height: u32, fps: u32) -> (r: Vec<String>)
    ensures
        string_views(r@) == base_args(width as nat, height as nat, fps as nat),
{
    let mut size = decimal_string(width as u128);
    size.append("x");
    let h = decimal_string(height as u128);
    size.append(h.as_str());
    let r = vec![
        String::from_str("-y"),
        String::from_str("-f"),
        String::from_str("rawvideo"),
        String::from_str("-pix_fmt"),
        String::from_str("rgba"),
        String::from_str("-s"),
        size,
        String::from_str("-r"),
        decimal_string(fps as u128),
        String::from_str("-i"),
        String::from_str("-"),
    ];
    assert(string_views(r@) =~= base_args(width as nat, height as nat, fps as nat));
    r
}

/// FNV-1a (64-bit) of the bytes.
pub fn stable_hash(bytes: &[u8]) -> (r: u64)
    ensures
        r == crate::lock::fnv1a(bytes@),
{
    let mut hash: u64 = 0xcbf29ce484222325u64;
    let mut i: usize = 0;
    while i < bytes.len()
        invariant
            i <= bytes.len(),
            hash == crate::lock::fnv1a(bytes@.take(i as int)),
        decreases bytes.len() - i,
    {
        proof {
            assert(bytes@.take(i + 1).drop_last() =~= bytes@.take(i as int));
        }
        hash = hash ^ (bytes[i] as u64);
        hash = hash.wrapping_mul(0x100000001b3u64);
        i = i + 1;
    }
    assert(bytes@.take(bytes.len() as int) =~= bytes@);
    hash
}

/// The cached audio of a voice layer: `cache/tts/voice-<hash>.wav` under the
/// project, named by the stable hash of the layer's synthesis key.
pub open spec fn voice_cache_spec(project_root: Seq<char>, key: Seq<u8>) -> Seq<char> {
    path_join(
        path_join(project_root, "cache/tts"@),
        "voice-"@ + hex_fixed(crate::lock::fnv1a(key) as nat, 16) + ".wav"@,
    )
}

/// The cached audio of a voice layer whose synthesis key is `key`.
pub fn voice_cache_path(project_root: &str, key: &[u8]) -> (r: String)
    ensures
        r@ == voice_cache_spec(project_root@, key@),
{
    let dir = join_path(project_root, "cache/tts");
    let mut name = String::from_str("voice-");
    let hex = hex16(stable_hash(key));
    name.append(hex.as_str());
    name.append(".wav");
    join_path(dir.as_str(), name.as_str())
}

/// The value of a hexadecimal digit of either case.
pub open spec fn hex_value(c: char) -> Option<u8> {
    if '0' <= c <= '9' {
        Some(((c as u32) - 48) as u8)
    } else if 'a' <= c <= 'f' {
        Some(((c as u32) - 87) as u8)
    } else if 'A' <= c <= 'F' {
        Some(((c as u32) - 55) as u8)
    } else {
        None
    }
}

/// What `u8::from_str_radix` gives in base 16 for the two characters `a`,
/// `b`: two digits, or a `+` sign and one digit.
pub open spec fn hex_pair(a: char, b: char) -> Option<u8> {
    match hex_value(b) {
        None => None,
        Some(y) => if a == '+' {
            Some(y)
        } else {
            match hex_value(a) {
                Some(x) => Some((16 * x + y) as u8),
                None => None,
            }
        },
    }
}

/// Every character is ASCII.
pub open spec fn is_ascii_seq(s: Seq<char>) -> bool {
    forall|i: int| 0 <= i < s.len() ==> (#[trigger] s[i] as u32) < 128
}

/// The color that `#rrggbb` or `#rrggbbaa` names (opaque when the alpha
/// pair is absent); none for any other text.
pub open spec fn parsed_color(v: Seq<char>) -> Option<Color> {
    let h = v.skip(1);
    if v.len() == 0 || v[0] != '#' || !is_ascii_seq(h) {
        None
    } else if h.len() == 6 {
        match (hex_pair(h[0], h[1]), hex_pair(h[2], h[3]), hex_pair(h[4], h[5])) {
            (Some(r), Some(g), Some(b)) => Some(Color { r, g, b, a: 255 }),
            _ => None,
        }
    } else if h.len() == 8 {
        match (hex_pair(h[0], h[1]), hex_pair(h[2], h[3]), hex_pair(h[4], h[5]), hex_pair(h[6], h[7])) {
            (Some(r), Some(g), Some(b), Some(a)) => Some(Color { r, g, b, a }),
            _ => None,
        }
    } else {
        None
    }
}

fn hex_value_exec(c: char) -> (r: Option<u8>)
    ensures
        r == hex_value(c),
{
    if '0' <= c && c <= '9' {
        Some(((c as u32) - 48) as u8)
    } else if 'a' <= c && c <= 'f' {
        Some(((c as u32) - 87) as u8)
    } else if 'A' <= c && c <= 'F' {
        Some(((c as u32) - 55) as u8)
    } else {
        None
    }
}

fn hex_pair_exec(a: char, b: char) -> (r: Option<u8>)
    ensures
        r == hex_pair(a, b),
{
    match hex_value_exec(b) {
        None => None,
        Some(y) => if a == '+' {
            Some(y)
        } else {
            match hex_value_exec(a) {
                Some(x) => Some(16 * x + y),
                None => None,
            }
        },
    }
}

/// The color a `#rrggbb` or `#rrggbbaa` text names.
pub fn parse_color(value: &str) -> (r: Option<Color>)
    ensures
        r == parsed_color(value@),
{
    let n = value.unicode_len();
    if n == 0 || value.get_char(0) != '#' {
        return None;
    }
    let ghost h = value@.skip(1);
    let mut k: usize = 1;
    while k < n
        invariant
            n == value@.len(),
            1 <= k <= n,
            h == value@.skip(1),
            forall|i: int| 0 <= i < k - 1 ==> (#[trigger] h[i] as u32) < 128,
        decreases n - k,
    {
        if (value.get_char(k) as u32) >= 128 {
            assert(!((h[k - 1] as u32) < 128));
            return None;
        }
        k = k + 1;
    }
    let len = n - 1;
    if len == 6 {
        let r = hex_pair_exec(value.get_char(1), value.get_char(2));
        let g = hex_pair_exec(value.get_char(3), value.get_char(4));
        let b = hex_pair_exec(value.get_char(5), value.get_char(6));
        match (r, g, b) {
            (Some(r), Some(g), Some(b)) => Some(Color { r, g, b, a: 255 }),
            _ => None,
        }
    } else if len == 8 {
        let r = hex_pair_exec(value.get_char(1), value.get_char(2));
        let g = hex_pair_exec(value.get_char(3), value.get_char(4));
        let b = hex_pair_exec(value.get_char(5), value.get_char(6));
        let a = hex_pair_exec(value.get_char(7), value.get_char(8));
        match (r, g, b, a) {
            (Some(r), Some(g), Some(b), Some(a)) => Some(Color { r, g, b, a }),
            _ => None,
        }
    } else {
        None
    }
}

/// The font files tried, in order, when a text names no font asset.
pub open spec fn font_candidates() -> Seq<Seq<char>> {
    seq![
        "/usr/share/fonts/Adwaita/AdwaitaSans-Regular.ttf"@,
        "/usr/share/fonts/gnu-free/FreeSans.otf"@,
        "/System/Library/Fonts/Supplemental/Arial Unicode.ttf"@,
        "C:/Windows/Fonts/arial.ttf"@,
    ]
}

/// The font files tried, in order, when a text names no font asset.
pub fn system_font_candidates() -> (r: Vec<&'static str>)
    ensures
        r@.map_values(|c: &str| c@) == font_candidates(),
{
    let r = vec![
        "/usr/share/fonts/Adwaita/AdwaitaSans-Regular.ttf",
        "/usr/share/fonts/gnu-free/FreeSans.otf",
        "/System/Library/Fonts/Supplemental/Arial Unicode.ttf",
        "C:/Windows/Fonts/arial.ttf",
    ];
    assert(r@.map_values(|c: &str| c@) =~= font_candidates());
    r
}

/// The position of the first `true`, if any.
pub open spec fn first_true(flags: Seq<bool>) -> int
    decreases flags.len(),
{
    if flags.len() == 0 {
        -1
    } else if flags[0] {
        0
    } else {
        let rest = first_true(flags.skip(1));
        if rest < 0 {
            -1
        } else {
            rest + 1
        }
    }
}

/// The first font file that exists; `exists` tells, for each of
/// `system_font_candidates()` in order, whether it does.
pub fn system_font_path(exists: &[bool]) -> (r: Option<String>)
    requires
        exists@.len() == 4,
    ensures
        first_true(exists@) >= 0 ==> (r matches Some(p) && p@ == font_candidates()[first_true(exists@)]),
        first_true(exists@) < 0 ==> r is None,
{
    let candidates = system_font_candidates();
    assert(candidates@.len() == candidates@.map_values(|c: &str| c@).len());
    let mut k: usize = 0;
    assert(exists@.skip(0) =~= exists@);
    while k < 4
        invariant
            k <= 4,
            exists@.len() == 4,
            candidates@.map_values(|c: &str| c@) == font_candidates(),
            candidates@.len() == 4,
            forall|j: int| 0 <= j < k ==> !exists@[j],
            first_true(exists@) == (if first_true(exists@.skip(k as int)) < 0 {
                -1
            } else {
                first_true(exists@.skip(k as int)) + k
            }),
        decreases 4 - k,
    {
        assert(exists@.skip(k as int)[0] == exists@[k as int]);
        assert(exists@.skip(k as int).skip(1) =~= exists@.skip(k + 1));
        if exists[k] {
            assert(candidates@.map_values(|c: &str| c@)[k as int] == candidates@[k as int]@);
            return Some(String::from_str(candidates[k]));
        }
        k = k + 1;
    }
    assert(exists@.skip(4) =~= Seq::<bool>::empty());
    None
}

/// The position of the first asset with this id and kind, if any.
pub open spec fn find_asset(assets: Seq<crate::project::Asset>, id: Seq<char>, kind: AssetKind) -> int
    decreases assets.len(),
{
    if assets.len() == 0 {
        -1
    } else if assets[0].id@ == id && assets[0].kind == kind {
        0
    } else {
        let rest = find_asset(assets.skip(1), id, kind);
        if rest < 0 {
            -1
        } else {
            rest + 1
        }
    }
}

/// A media layer names an asset that the project does not have with the
/// layer's kind.
#[derive(Debug, Clone, PartialEq, Eq)]
pub struct MissingAsset {
    pub kind: AssetKind,
    pub asset_id: String,
}

/// The `Debug` name of an asset kind.
pub open spec fn kind_name(kind: AssetKind) -> Seq<char> {
    match kind {
        AssetKind::Video => "Video"@,
        AssetKind::Image => "Image"@,
        AssetKind::Audio => "Audio"@,
        AssetKind::Subtitle => "Subtitle"@,
        AssetKind::Font => "Font"@,
        AssetKind::Mask => "Mask"@,
    }
}

impl MissingAsset {
    /// The message of the error: `<Kind> asset が見つかりません: <id>`.
    pub fn message(&self) -> (r: String)
        ensures
            r@ == kind_name(self.kind) + " asset が見つかりません: "@ + self.asset_id@,
    {
        let mut s = String::from_str(match self.kind {
            AssetKind::Video => "Video",
            AssetKind::Image => "Image",
            AssetKind::Audio => "Audio",
            AssetKind::Subtitle => "Subtitle",
            AssetKind::Font => "Font",
            AssetKind::Mask => "Mask",
        });
        s.append(" asset が見つかりません: ");
        s.append(self.asset_id.as_str());
        s
    }
}

/// The file of the first asset with this id and kind, under the project
/// root; an error when the project has none.
pub fn asset_path(project: &Project, project_root: &str, asset_id: &str, kind: AssetKind) -> (r: Result<
    String,
    MissingAsset,
>)
    ensures
        ({
            let i = find_asset(project.assets@, asset_id@, kind);
            if i >= 0 {
                i < project.assets@.len() && (r matches Ok(p) && p@ == path_join(
                    project_root@,
                    project.assets@[i].path@,
                ))
            } else {
                r matches Err(e) && e.kind == kind && e.asset_id@ == asset_id@
            }
        }),
{
    let ghost assets = project.assets@;
    let mut k: usize = 0;
    assert(assets.skip(0) =~= assets);
    while k < project.assets.len()
        invariant
            k <= assets.len(),
            assets == project.assets@,
            find_asset(assets, asset_id@, kind) == (if find_asset(assets.skip(k as int), asset_id@, kind) < 0 {
                -1
            } else {
                find_asset(assets.skip(k as int), asset_id@, kind) + k
            }),
        decreases assets.len() - k,
    {
        let asset = &project.assets[k];
        assert(assets.skip(k as int)[0] == assets[k as int]);
        assert(assets.skip(k as int).skip(1) =~= assets.skip(k + 1));
        if crate::lock::str_eq(asset.id.as_str(), asset_id) && asset.kind == kind {
            return Ok(join_path(project_root, asset.path.as_str()));
        }
        k = k + 1;
    }
    assert(assets.skip(k as int) =~= Seq::<crate::project::Asset>::empty());
    Err(MissingAsset { kind, asset_id: asset_id.to_owned() })
}

/// Index of the first asset with this id, whatever its kind, or -1.
pub open spec fn find_asset_id(assets: Seq<crate::project::Asset>, id: Seq<char>) -> int
    decreases assets.len(),
{
    if assets.len() == 0 {
        -1
    } else if assets[0].id@ == id {
        0
    } else {
        let rest = find_asset_id(assets.skip(1), id);
        if rest < 0 {
            -1
        } else {
            rest + 1
        }
    }
}

/// An image layer names an asset id that the project does not have.
#[derive(Debug, Clone, PartialEq, Eq)]
pub struct MissingImageAsset {
    pub asset_id: String,
}

impl MissingImageAsset {
    /// The message of the error: `画像 asset が見つかりません: <id>`.
    pub fn message(&self) -> (r: String)
        ensures
            r@ == "画像 asset が見つかりません: "@ + self.asset_id@,
    {
        let mut s = String::from_str("画像 asset が見つかりません: ");
        s.append(self.asset_id.as_str());
        s
    }
}

/// The file of an image layer's asset: that of the first asset with this
/// id, whatever its kind, under the project root; an error when the project
/// has none.
pub fn image_asset_path(project: &Project, project_root: &str, asset_id: &str) -> (r: Result<
    String,
    MissingImageAsset,
>)
    ensures
        ({
            let i = find_asset_id(project.assets@, asset_id@);
            if i >= 0 {
                i < project.assets@.len() && (r matches Ok(p) && p@ == path_join(
                    project_root@,
                    project.assets@[i].path@,
                ))
            } else {
                r matches Err(e) && e.asset_id@ == asset_id@
            }
        }),
{
    let ghost assets = project.assets@;
    let mut k: usize = 0;
    assert(assets.skip(0) =~= assets);
    while k < project.assets.len()
        invariant
            k <= assets.len(),
            assets == project.assets@,
            find_asset_id(assets, asset_id@) == (if find_asset_id(assets.skip(k as int), asset_id@) < 0 {
                -1
            } else {
                find_asset_id(assets.skip(k as int), asset_id@) + k
            }),
        decreases assets.len() - k,
    {
        let asset = &project.assets[k];
        assert(assets.skip(k as int)[0] == assets[k as int]);
        assert(assets.skip(k as int).skip(1) =~= assets.skip(k + 1));
        if crate::lock::str_eq(asset.id.as_str(), asset_id) {
            return Ok(join_path(project_root, asset.path.as_str()));
        }
        k = k + 1;
    }
    assert(assets.skip(k as int) =~= Seq::<crate::project::Asset>::empty());
    Err(MissingImageAsset { asset_id: asset_id.to_owned() })
}

/// The font file a text is drawn with: the project's font asset named
/// `font_asset_id`, under the project root, else the system font
/// (`system_font`).
pub fn font_path(project: &Project, project_root: &str, font_asset_id: Option<&str>, system_font: Option<String>) -> (r:
    Option<String>)
    ensures
        match font_asset_id {
            Some(id) => {
                let i = find_asset(project.assets@, id@, AssetKind::Font);
                if i >= 0 {
                    r matches Some(p) && p@ == path_join(project_root@, project.assets@[i].path@)
                } else {
                    r == system_font
                }
            },
            None => r == system_font,
        },
{
    match font_asset_id {
        Some(id) => match asset_path(project, project_root, id, AssetKind::Font) {
            Ok(p) => Some(p),
            Err(_) => system_font,
        },
        None => system_font,
    }
}

/// Decimal text of a signed integer, as `Display` writes it.
pub open spec fn signed_decimal(n: int) -> Seq<char> {
    if n < 0 {
        "-"@ + decimal((-n) as nat)
    } else {
        decimal(n as nat)
    }
}

/// Decimal text of a signed integer, as `Display` writes it.
pub fn signed_decimal_string(n: i32) -> (r: String)
    ensures
        r@ == signed_decimal(n as int),
{
    if n < 0 {
        let magnitude: i64 = -(n as i64);
        let mut s = String::from_str("-");
        let digits = decimal_string(magnitude as u128);
        s.append(digits.as_str());
        s
    } else {
        decimal_string(n as u128)
    }
}

/// Whether raw frames cover the whole picture or are an overlay that ffmpeg
/// lays over the video layers.
#[derive(Debug, Clone, Copy, PartialEq, Eq, Structural)]
pub enum RawFrameMode {
    FullFrame,
    TransparentOverlay,
}

/// A video layer as ffmpeg overlays it. `trim_start`, `trim_end`, `start`
/// (seconds) and `opacity` hold the decimal texts of those quantities as
/// `Display` writes them.
#[derive(Debug, Clone)]
pub struct PlannedVideoLayer {
    pub path: String,
    pub z_index: i32,
    pub x: i32,
    pub y: i32,
    pub width: u32,
    pub height: u32,
    pub trim_start: String,
    pub trim_end: String,
    pub start: String,
    pub opacity: String,
    pub crop: Option<Crop>,
}

/// An audio layer as ffmpeg mixes it. `trim_start` and `trim_end` hold the
/// decimal texts of those seconds as `Display` writes them.
#[derive(Debug, Clone)]
pub struct PlannedAudioLayer {
    pub path: String,
    pub trim_start: String,
    pub trim_end: String,
    pub delay_ms: u64,
}

/// The media that ffmpeg composes with the rendered frames: video layers in
/// stacking order, audio layers in start order.
#[derive(Debug, Clone)]
pub struct MediaPlan {
    pub video_layers: Vec<PlannedVideoLayer>,
    pub audio_layers: Vec<PlannedAudioLayer>,
}

/// The crop step of a video filter, if the layer is cropped.
pub open spec fn crop_text(crop: Option<Crop>) -> Seq<char> {
    match crop {
        Some(c) => "crop="@ + decimal(c.width as nat) + ":"@ + decimal(c.height as nat) + ":"@ + decimal(
            c.x as nat,
        ) + ":"@ + decimal(c.y as nat) + ","@,
        None => Seq::empty(),
    }
}

/// The filter that trims, places, crops, scales and fades the video of
/// input `input`, naming its output `label`.
pub open spec fn video_filter_text(l: PlannedVideoLayer, input: nat, label: Seq<char>) -> Seq<char> {
    "["@ + decimal(input) + ":v]trim=start="@ + l.trim_start@ + ":end="@ + l.trim_end@
        + ",setpts=PTS-STARTPTS+"@ + l.start@ + "/TB,"@ + crop_text(l.crop) + "scale="@ + decimal(
        l.width as nat,
    ) + ":"@ + decimal(l.height as nat) + ",format=rgba,colorchannelmixer=aa="@ + l.opacity@ + "["@
        + label + "]"@
}

/// The filter that trims and delays the audio of input `input`, naming its
/// output `label`.
pub open spec fn audio_filter_text(l: PlannedAudioLayer, input: nat, label: Seq<char>) -> Seq<char> {
    "["@ + decimal(input) + ":a]atrim=start="@ + l.trim_start@ + ":end="@ + l.trim_end@
        + ",asetpts=PTS-STARTPTS,adelay="@ + decimal(l.delay_ms as nat) + ":all=1["@ + label + "]"@
}

impl PlannedVideoLayer {
    /// The filter for this layer read from input `input_index`, naming its
    /// output `label`.
    #[verifier::spinoff_prover]
    pub fn video_filter(&self, input_index: usize, label: &str) -> (r: String)
        ensures
            r@ == video_filter_text(*self, input_index as nat, label@),
    {
        let mut s = String::from_str("[");
        let index = decimal_string(input_index as u128);
        s.append(index.as_str());
        s.append(":v]trim=start=");
        s.append(self.trim_start.as_str());
        s.append(":end=");
        s.append(self.trim_end.as_str());
        s.append(",setpts=PTS-STARTPTS+");
        s.append(self.start.as_str());
        s.append("/TB,");
        if let Some(c) = self.crop {
            s.append("crop=");
            let w = decimal_string(c.width as u128);
            s.append(w.as_str());
            s.append(":");
            let h = decimal_string(c.height as u128);
            s.append(h.as_str());
            s.append(":");
            let x = decimal_string(c.x as u128);
            s.append(x.as_str());
            s.append(":");
            let y = decimal_string(c.y as u128);
            s.append(y.as_str());
            s.append(",");
        }
        s.append("scale=");
        let w = decimal_string(self.width as u128);
        s.append(w.as_str());
        s.append(":");
        let h = decimal_string(self.height as u128);
        s.append(h.as_str());
        s.append(",format=rgba,colorchannelmixer=aa=");
        s.append(self.opacity.as_str());
        s.append("[");
        s.append(label);
        s.append("]");
        assert(s@ =~= video_filter_text(*self, input_index as nat, label@));
        s
    }
}

impl PlannedAudioLayer {
    /// The filter for this layer read from input `input_index`, naming its
    /// output `label`.
    pub fn audio_filter(&self, input_index: usize, label: &str) -> (r: String)
        ensures
            r@ == audio_filter_text(*self, input_index as nat, label@),
    {
        let mut s = String::from_str("[");
        let index = decimal_string(input_index as u128);
        s.append(index.as_str());
        s.append(":a]atrim=start=");
        s.append(self.trim_start.as_str());
        s.append(":end=");
        s.append(self.trim_end.as_str());
        s.append(",asetpts=PTS-STARTPTS,adelay=");
        let delay = decimal_string(self.delay_ms as u128);
        s.append(delay.as_str());
        s.append(":all=1[");
        s.append(label);
        s.append("]");
        assert(s@ =~= audio_filter_text(*self, input_index as nat, label@));
        s
    }
}

/// The texts joined with `sep` between consecutive ones.
pub open spec fn joined(parts: Seq<Seq<char>>, sep: Seq<char>) -> Seq<char>
    decreases parts.len(),
{
    if parts.len() == 0 {
        Seq::empty()
    } else if parts.len() == 1 {
        parts[0]
    } else {
        joined(parts.drop_last(), sep) + sep + parts.last()
    }
}

/// `parts.join(sep)`.
pub fn join_strings(parts: &Vec<String>, sep: &str) -> (r: String)
    ensures
        r@ == joined(string_views(parts@), sep@),
{
    let ghost views = string_views(parts@);
    let mut out = String::new();
    let mut k: usize = 0;
    while k < parts.len()
        invariant
            k <= parts@.len(),
            views == string_views(parts@),
            out@ == joined(views.take(k as int), sep@),
        decreases parts.len() - k,
    {
        assert(views.take(k + 1).drop_last() =~= views.take(k as int));
        assert(views.take(k + 1).last() == parts@[k as int]@);
        if k > 0 {
            out.append(sep);
        }
        out.append(parts[k].as_str());
        k = k + 1;
    }
    assert(views.take(parts.len() as int) =~= views);
    out
}

/// The overlay of video `k` on the picture composed so far.
pub open spec fn overlay_text(k: nat, l: PlannedVideoLayer) -> Seq<char> {
    "[base"@ + decimal(k) + "][video"@ + decimal(k) + "]overlay=x="@ + signed_decimal(l.x as int)
        + ":y="@ + signed_decimal(l.y as int) + ":eof_action=pass[base"@ + decimal(k + 1) + "]"@
}

/// The filters of the video layers: each layer's own filter (its video is
/// input `k + 1`), then its overlay.
pub open spec fn video_chain(layers: Seq<PlannedVideoLayer>) -> Seq<Seq<char>>
    decreases layers.len(),
{
    if layers.len() == 0 {
        Seq::empty()
    } else {
        let k = (layers.len() - 1) as nat;
        video_chain(layers.drop_last()) + seq![
            video_filter_text(layers.last(), k + 1, "video"@ + decimal(k)),
            overlay_text(k, layers.last()),
        ]
    }
}

/// The filters of the audio layers, whose inputs start at `offset`.
pub open spec fn audio_chain(layers: Seq<PlannedAudioLayer>, offset: nat) -> Seq<Seq<char>>
    decreases layers.len(),
{
    if layers.len() == 0 {
        Seq::empty()
    } else {
        let k = (layers.len() - 1) as nat;
        audio_chain(layers.drop_last(), offset).push(
            audio_filter_text(layers.last(), offset + k, "audio"@ + decimal(k)),
        )
    }
}

/// The labels of the first `n` audio outputs, concatenated.
pub open spec fn audio_labels(n: nat) -> Seq<char>
    decreases n,
{
    if n == 0 {
        Seq::empty()
    } else {
        audio_labels((n - 1) as nat) + "[audio"@ + decimal((n - 1) as nat) + "]"@
    }
}

/// `{:02x}` of each of the red, green and blue channels.
pub open spec fn color_hex(c: Color) -> Seq<char> {
    hex_fixed(c.r as nat, 2) + hex_fixed(c.g as nat, 2) + hex_fixed(c.b as nat, 2)
}

/// The filters of a media plan, in order. Input 0 is the rendered frames,
/// the video files follow, then the audio files.
pub open spec fn graph_parts(
    video: Seq<PlannedVideoLayer>,
    audio: Seq<PlannedAudioLayer>,
    width: nat,
    height: nat,
    fps: nat,
    duration: Seq<char>,
    background: Color,
) -> Seq<Seq<char>> {
    let nv = video.len();
    let na = audio.len();
    let video_part = if nv == 0 {
        seq!["[0:v]format=rgba[vout]"@]
    } else {
        seq![
            "color=c=0x"@ + color_hex(background) + ":s="@ + decimal(width) + "x"@ + decimal(height)
                + ":r="@ + decimal(fps) + ":d="@ + duration + "[base0]"@,
        ] + video_chain(video) + seq![
            "[0:v]format=rgba[overlay]"@,
            "[base"@ + decimal(nv) + "][overlay]overlay=x=0:y=0:format=auto:eof_action=pass[vout]"@,
        ]
    };
    let mix = if na == 0 {
        Seq::empty()
    } else {
        seq![
            audio_labels(na) + "amix=inputs="@ + decimal(na) + ":duration=longest:normalize=0,atrim=0:"@
                + duration + "[aout]"@,
        ]
    };
    video_part + audio_chain(audio, 1 + nv) + mix
}

proof fn lemma_audio_chain(layers: Seq<PlannedAudioLayer>, offset: nat)
    ensures
        audio_chain(layers, offset).len() == layers.len(),
        forall|k: int|
            0 <= k < layers.len() ==> #[trigger] audio_chain(layers, offset)[k] == audio_filter_text(
                layers[k],
                offset + k as nat,
                "audio"@ + decimal(k as nat),
            ),
    decreases layers.len(),
{
    if layers.len() > 0 {
        lemma_audio_chain(layers.drop_last(), offset);
        assert forall|k: int| 0 <= k < layers.len() - 1 implies layers.drop_last()[k] == layers[k] by {}
    }
}

proof fn lemma_input_list(paths: Seq<Seq<char>>)
    ensures
        input_list(paths).len() == 2 * paths.len(),
        forall|j: int| 0 <= j < paths.len() ==> #[trigger] input_list(paths)[2 * j] == "-i"@,
        forall|j: int| 0 <= j < paths.len() ==> #[trigger] input_list(paths)[2 * j + 1] == paths[j],
    decreases paths.len(),
{
    if paths.len() > 0 {
        let prev = paths.drop_last();
        lemma_input_list(prev);
        let l = input_list(paths);
        assert(l == input_list(prev) + seq!["-i"@, paths.last()]);
        assert forall|j: int| 0 <= j < paths.len() implies #[trigger] l[2 * j] == "-i"@ by {
            if j < paths.len() - 1 {
                assert(input_list(prev)[2 * j] == "-i"@);
            }
        }
        assert forall|j: int| 0 <= j < paths.len() implies #[trigger] l[2 * j + 1] == paths[j] by {
            if j < paths.len() - 1 {
                assert(prev[j] == paths[j]);
                assert(input_list(prev)[2 * j + 1] == prev[j]);
            }
        }
    }
}

proof fn lemma_video_chain(layers: Seq<PlannedVideoLayer>)
    ensures
        video_chain(layers).len() == 2 * layers.len(),
        forall|k: int|
            0 <= k < layers.len() ==> #[trigger] video_chain(layers)[2 * k] == video_filter_text(
                layers[k],
                k as nat + 1,
                "video"@ + decimal(k as nat),
            ),
    decreases layers.len(),
{
    if layers.len() > 0 {
        let prev = layers.drop_last();
        lemma_video_chain(prev);
        let n = (layers.len() - 1) as nat;
        assert(video_chain(layers) == video_chain(prev) + seq![
            video_filter_text(layers.last(), n + 1, "video"@ + decimal(n)),
            overlay_text(n, layers.last()),
        ]);
        assert forall|k: int| 0 <= k < layers.len() implies #[trigger] video_chain(layers)[2 * k]
            == video_filter_text(layers[k], k as nat + 1, "video"@ + decimal(k as nat)) by {
            if k < layers.len() - 1 {
                assert(prev[k] == layers[k]);
                assert(video_chain(prev)[2 * k] == video_filter_text(prev[k], k as nat + 1, "video"@ + decimal(k as nat)));
            }
        }
    }
}

/// Each video layer is drawn from its own file: the filter of video layer
/// `k` reads ffmpeg input `k + 1` (input 0 is the rendered frames), and the
/// `-i` of that input names video layer `k`'s file.
pub proof fn law_video_filters_read_their_own_inputs(
    video: Seq<PlannedVideoLayer>,
    audio: Seq<PlannedAudioLayer>,
    width: nat,
    height: nat,
    fps: nat,
    duration: Seq<char>,
    background: Color,
    k: int,
)
    requires
        0 <= k < video.len(),
    ensures
        ({
            let parts = graph_parts(video, audio, width, height, fps, duration, background);
            let inputs = input_list(media_paths(video, audio));
            &&& parts[1 + 2 * k] == video_filter_text(video[k], k as nat + 1, "video"@ + decimal(k as nat))
            &&& inputs[2 * k] == "-i"@
            &&& inputs[2 * k + 1] == video[k].path@
        }),
{
    lemma_video_chain(video);
    lemma_audio_chain(audio, 1 + video.len());
    let paths = media_paths(video, audio);
    lemma_input_list(paths);
    assert(paths[k] == video[k].path@);
    assert(input_list(paths)[2 * k + 1] == paths[k]);
    assert(input_list(paths)[2 * k] == "-i"@);
    let parts = graph_parts(video, audio, width, height, fps, duration, background);
    assert(parts[1 + 2 * k] == video_chain(video)[2 * k]);
}

/// Each audio layer is mixed from its own file: the filter of audio layer
/// `k` reads ffmpeg input `1 + nv + k` (input 0 is the rendered frames and
/// the `nv` video files come next), and the `-i` of that input names audio
/// layer `k`'s file. So distinct audio layers read distinct inputs, in the
/// order of the input arguments.
pub proof fn law_audio_filters_read_their_own_inputs(
    video: Seq<PlannedVideoLayer>,
    audio: Seq<PlannedAudioLayer>,
    width: nat,
    height: nat,
    fps: nat,
    duration: Seq<char>,
    background: Color,
    k: int,
)
    requires
        0 <= k < audio.len(),
    ensures
        ({
            let nv = video.len();
            let first_audio = if nv == 0 { 1 } else { 2 * nv + 3 };
            let parts = graph_parts(video, audio, width, height, fps, duration, background);
            let inputs = input_list(media_paths(video, audio));
            &&& parts[first_audio + k] == audio_filter_text(audio[k], 1 + nv + k as nat, "audio"@ + decimal(k as nat))
            &&& inputs[2 * (nv + k)] == "-i"@
            &&& inputs[2 * (nv + k) + 1] == audio[k].path@
        }),
{
    let nv = video.len();
    lemma_audio_chain(audio, 1 + nv);
    lemma_video_chain(video);
    let paths = media_paths(video, audio);
    lemma_input_list(paths);
    assert(paths[nv + k] == audio[k].path@);
    assert(input_list(paths)[2 * (nv + k) + 1] == paths[nv + k]);
    let parts = graph_parts(video, audio, width, height, fps, duration, background);
    let first_audio = if nv == 0 { 1 } else { 2 * nv + 3 };
    assert(audio_chain(audio, 1 + nv)[k] == parts[first_audio + k]);
}

/// `-i <path>` for each path, in order.
pub open spec fn input_list(paths: Seq<Seq<char>>) -> Seq<Seq<char>>
    decreases paths.len(),
{
    if paths.len() == 0 {
        Seq::empty()
    } else {
        input_list(paths.drop_last()) + seq!["-i"@, paths.last()]
    }
}

/// The arguments after the inputs: the filter graph, the streams to write,
/// the codecs, and the length of the movie.
pub open spec fn output_list(graph: Seq<char>, has_audio: bool, sample_rate: nat, duration: Seq<char>) -> Seq<
    Seq<char>,
> {
    seq!["-filter_complex"@, graph, "-map"@, "[vout]"@] + (if has_audio {
        seq!["-map"@, "[aout]"@]
    } else {
        seq!["-an"@]
    }) + seq!["-c:v"@, "libx264"@, "-pix_fmt"@, "yuv420p"@] + (if has_audio {
        seq!["-c:a"@, "aac"@, "-ar"@, decimal(sample_rate), "-ac"@, "2"@]
    } else {
        Seq::empty()
    }) + seq!["-shortest"@, "-t"@, duration]
}

/// The paths of the video layers, then of the audio layers.
pub open spec fn media_paths(video: Seq<PlannedVideoLayer>, audio: Seq<PlannedAudioLayer>) -> Seq<Seq<char>> {
    video.map_values(|l: PlannedVideoLayer| l.path@) + audio.map_values(|l: PlannedAudioLayer| l.path@)
}

fn push_str(v: &mut Vec<String>, s: &str)
    ensures
        string_views(final(v)@) == string_views(old(v)@).push(s@),
{
    let ghost before = v@;
    v.push(s.to_owned());
    assert(string_views(v@) =~= string_views(before).push(s@));
}

impl MediaPlan {
    /// Full frames when there is no video layer, else overlays.
    pub fn mode(&self) -> (r: RawFrameMode)
        ensures
            self.video_layers@.len() == 0 ==> r == RawFrameMode::FullFrame,
            self.video_layers@.len() > 0 ==> r == RawFrameMode::TransparentOverlay,
    {
        if self.video_layers.len() == 0 {
            RawFrameMode::FullFrame
        } else {
            RawFrameMode::TransparentOverlay
        }
    }

    /// `-i <path>` for each video layer, then for each audio layer.
    pub fn input_args(&self) -> (r: Vec<String>)
        ensures
            string_views(r@) == input_list(media_paths(self.video_layers@, self.audio_layers@)),
    {
        let ghost paths = media_paths(self.video_layers@, self.audio_layers@);
        let ghost nv = self.video_layers@.len();
        let mut args: Vec<String> = Vec::new();
        let mut k: usize = 0;
        assert(paths.take(0) =~= Seq::<Seq<char>>::empty());
        while k < self.video_layers.len()
            invariant
                nv == self.video_layers@.len(),
                k <= nv,
                paths == media_paths(self.video_layers@, self.audio_layers@),
                paths.len() == nv + self.audio_layers@.len(),
                string_views(args@) == input_list(paths.take(k as int)),
            decreases nv - k,
        {
            assert(paths.take(k + 1).drop_last() =~= paths.take(k as int));
            assert(paths[k as int] == self.video_layers@[k as int].path@);
            push_str(&mut args, "-i");
            push_str(&mut args, self.video_layers[k].path.as_str());
            assert(string_views(args@) =~= input_list(paths.take(k + 1)));
            k = k + 1;
        }
        let mut j: usize = 0;
        while j < self.audio_layers.len()
            invariant
                nv == self.video_layers@.len(),
                j <= self.audio_layers@.len(),
                paths == media_paths(self.video_layers@, self.audio_layers@),
                paths.len() == nv + self.audio_layers@.len(),
                string_views(args@) == input_list(paths.take(nv + j)),
            decreases self.audio_layers@.len() - j,
        {
            assert(paths.take(nv + j + 1).drop_last() =~= paths.take(nv + j));
            assert(paths[nv + j] == self.audio_layers@[j as int].path@);
            push_str(&mut args, "-i");
            push_str(&mut args, self.audio_layers[j].path.as_str());
            assert(string_views(args@) =~= input_list(paths.take(nv + j + 1)));
            j = j + 1;
        }
        assert(paths.take(nv + j) =~= paths);
        args
    }

    /// The filter graph joining the rendered frames, the video layers and
    /// the audio layers; `duration` is the project's duration as `Display`
    /// writes it.
    pub fn filter_complex(&self, project: &Project, background: Color, duration: &str) -> (r: String)
        requires
            self.video_layers@.len() + self.audio_layers@.len() < usize::MAX,
        ensures
            r@ == joined(
                graph_parts(
                    self.video_layers@,
                    self.audio_layers@,
                    project.settings.width as nat,
                    project.settings.height as nat,
                    project.settings.fps as nat,
                    duration@,
                    background,
                ),
                ";"@,
            ),
    {
        let video = &self.video_layers;
        let audio = &self.audio_layers;
        let nv = video.len();
        let na = audio.len();
        let mut filters: Vec<String> = Vec::new();
        if nv == 0 {
            push_str(&mut filters, "[0:v]format=rgba[vout]");
        } else {
            let mut base = String::from_str("color=c=0x");
            let rgb = [background.r, background.g, background.b];
            let r = crate::lock::hex_bytes_exec(&rgb);
            proof {
                let bytes = rgb@;
                assert(bytes =~= seq![background.r, background.g, background.b]);
                let b2 = bytes.drop_last();
                let b1 = b2.drop_last();
                let b0 = b1.drop_last();
                assert(b2 =~= seq![background.r, background.g]);
                assert(b1 =~= seq![background.r]);
                assert(b0 =~= Seq::<u8>::empty());
                assert(crate::lock::hex_bytes(b0) =~= Seq::<char>::empty());
                assert(crate::lock::hex_bytes(b1) =~= hex_fixed(background.r as nat, 2));
                assert(crate::lock::hex_bytes(b2) =~= hex_fixed(background.r as nat, 2) + hex_fixed(background.g as nat, 2));
                assert(crate::lock::hex_bytes(bytes) =~= color_hex(background));
            }
            base.append(r.as_str());
            base.append(":s=");
            let w = decimal_string(project.settings.width as u128);
            base.append(w.as_str());
            base.append("x");
            let h = decimal_string(project.settings.height as u128);
            base.append(h.as_str());
            base.append(":r=");
            let f = decimal_string(project.settings.fps as u128);
            base.append(f.as_str());
            base.append(":d=");
            base.append(duration);
            base.append("[base0]");
            push_str(&mut filters, base.as_str());
            let ghost head = string_views(filters@);
            let mut k: usize = 0;
            assert(video@.take(0) =~= Seq::<PlannedVideoLayer>::empty());
            while k < nv
                invariant
                    nv == video@.len(),
                    k <= nv,
                    string_views(filters@) == head + video_chain(video@.take(k as int)),
                decreases nv - k,
            {
                let layer = &video[k];
                assert(video@.take(k + 1).drop_last() =~= video@.take(k as int));
                assert(video@.take(k + 1).last() == *layer);
                let mut label = String::from_str("video");
                let kd = decimal_string(k as u128);
                label.append(kd.as_str());
                let filter = layer.video_filter(k + 1, label.as_str());
                push_str(&mut filters, filter.as_str());
                let mut overlay = String::from_str("[base");
                overlay.append(kd.as_str());
                overlay.append("][video");
                overlay.append(kd.as_str());
                overlay.append("]overlay=x=");
                let x = signed_decimal_string(layer.x);
                overlay.append(x.as_str());
                overlay.append(":y=");
                let y = signed_decimal_string(layer.y);
                overlay.append(y.as_str());
                overlay.append(":eof_action=pass[base");
                let next = decimal_string((k + 1) as u128);
                overlay.append(next.as_str());
                overlay.append("]");
                assert(overlay@ =~= overlay_text(k as nat, *layer));
                push_str(&mut filters, overlay.as_str());
                assert(string_views(filters@) =~= head + video_chain(video@.take(k + 1)));
                k = k + 1;
            }
            assert(video@.take(nv as int) =~= video@);
            push_str(&mut filters, "[0:v]format=rgba[overlay]");
            let mut last = String::from_str("[base");
            let nd = decimal_string(nv as u128);
            last.append(nd.as_str());
            last.append("][overlay]overlay=x=0:y=0:format=auto:eof_action=pass[vout]");
            push_str(&mut filters, last.as_str());
        }
        let ghost video_part = string_views(filters@);
        let mut labels = String::new();
        let mut k: usize = 0;
        assert(audio@.take(0) =~= Seq::<PlannedAudioLayer>::empty());
        while k < na
            invariant
                na == audio@.len(),
                nv == video@.len(),
                nv + na < usize::MAX,
                k <= na,
                string_views(filters@) == video_part + audio_chain(audio@.take(k as int), (1 + nv) as nat),
                labels@ == audio_labels(k as nat),
            decreases na - k,
        {
            let layer = &audio[k];
            assert(audio@.take(k + 1).drop_last() =~= audio@.take(k as int));
            assert(audio@.take(k + 1).last() == *layer);
            let mut label = String::from_str("audio");
            let kd = decimal_string(k as u128);
            label.append(kd.as_str());
            let filter = layer.audio_filter(1 + nv + k, label.as_str());
            push_str(&mut filters, filter.as_str());
            labels.append("[audio");
            labels.append(kd.as_str());
            labels.append("]");
            assert(labels@ =~= audio_labels((k + 1) as nat));
            assert(string_views(filters@) =~= video_part + audio_chain(audio@.take(k + 1), (1 + nv) as nat));
            k = k + 1;
        }
        assert(audio@.take(na as int) =~= audio@);
        if na > 0 {
            let mut mix = labels;
            mix.append("amix=inputs=");
            let nd = decimal_string(na as u128);
            mix.append(nd.as_str());
            mix.append(":duration=longest:normalize=0,atrim=0:");
            mix.append(duration);
            mix.append("[aout]");
            push_str(&mut filters, mix.as_str());
        }
        assert(string_views(filters@) =~= graph_parts(
            video@,
            audio@,
            project.settings.width as nat,
            project.settings.height as nat,
            project.settings.fps as nat,
            duration@,
            background,
        ));
        join_strings(&filters, ";")
    }

    /// The arguments after the inputs: the filter graph, the streams to
    /// write, the codecs and the length; `duration` is the project's
    /// duration as `Display` writes it.
    pub fn output_args(&self, project: &Project, options: &RenderOptions, duration: &str) -> (r: Vec<String>)
        requires
            self.video_layers@.len() + self.audio_layers@.len() < usize::MAX,
        ensures
            string_views(r@) == output_list(
                joined(
                    graph_parts(
                        self.video_layers@,
                        self.audio_layers@,
                        project.settings.width as nat,
                        project.settings.height as nat,
                        project.settings.fps as nat,
                        duration@,
                        options.background,
                    ),
                    ";"@,
                ),
                self.audio_layers@.len() > 0,
                project.settings.sample_rate as nat,
                duration@,
            ),
    {
        let graph = self.filter_complex(project, options.background, duration);
        let has_audio = self.audio_layers.len() > 0;
        let mut args: Vec<String> = Vec::new();
        push_str(&mut args, "-filter_complex");
        push_str(&mut args, graph.as_str());
        push_str(&mut args, "-map");
        push_str(&mut args, "[vout]");
        if has_audio {
            push_str(&mut args, "-map");
            push_str(&mut args, "[aout]");
        } else {
            push_str(&mut args, "-an");
        }
        push_str(&mut args, "-c:v");
        push_str(&mut args, "libx264");
        push_str(&mut args, "-pix_fmt");
        push_str(&mut args, "yuv420p");
        if has_audio {
            push_str(&mut args, "-c:a");
            push_str(&mut args, "aac");
            push_str(&mut args, "-ar");
            let rate = decimal_string(project.settings.sample_rate as u128);
            push_str(&mut args, rate.as_str());
            push_str(&mut args, "-ac");
            push_str(&mut args, "2");
        }
        push_str(&mut args, "-shortest");
        push_str(&mut args, "-t");
        push_str(&mut args, duration);
        assert(string_views(args@) =~= output_list(
            graph@,
            has_audio,
            project.settings.sample_rate as nat,
            duration@,
        ));
        args
    }
}

/// Where a stable sort by stacking index puts a layer with index `z` among
/// `sorted`: after every leading layer whose index is at most `z`.
pub open spec fn insert_position(sorted: Seq<PlannedVideoLayer>, z: i32) -> int
    decreases sorted.len(),
{
    if sorted.len() == 0 {
        0
    } else if sorted[0].z_index > z {
        0
    } else {
        1 + insert_position(sorted.skip(1), z)
    }
}

/// The layers ordered by stacking index, layers of equal index in their
/// given order: what `sort_by_key(|l| l.z_index)` gives.
pub open spec fn sorted_by_z(layers: Seq<PlannedVideoLayer>) -> Seq<PlannedVideoLayer>
    decreases layers.len(),
{
    if layers.len() == 0 {
        layers
    } else {
        let r = sorted_by_z(layers.drop_last());
        r.insert(insert_position(r, layers.last().z_index), layers.last())
    }
}

/// The stacking indices never decrease along the sequence.
pub open spec fn z_ordered(s: Seq<PlannedVideoLayer>) -> bool {
    forall|i: int, j: int| 0 <= i <= j < s.len() ==> s[i].z_index <= s[j].z_index
}

proof fn lemma_insert_position(s: Seq<PlannedVideoLayer>, z: i32)
    ensures
        0 <= insert_position(s, z) <= s.len(),
        forall|i: int| 0 <= i < insert_position(s, z) ==> s[i].z_index <= z,
        insert_position(s, z) < s.len() ==> s[insert_position(s, z)].z_index > z,
    decreases s.len(),
{
    if s.len() > 0 && s[0].z_index <= z {
        lemma_insert_position(s.skip(1), z);
        assert forall|i: int| 0 <= i < insert_position(s, z) implies s[i].z_index <= z by {
            if i > 0 {
                assert(s[i] == s.skip(1)[i - 1]);
            }
        }
    }
}

/// Ordering the layers by stacking index gives an ordered sequence of the
/// same layers: nothing is lost, added or repeated.
pub proof fn law_sorted_by_z(layers: Seq<PlannedVideoLayer>)
    ensures
        z_ordered(sorted_by_z(layers)),
        sorted_by_z(layers).to_multiset() == layers.to_multiset(),
    decreases layers.len(),
{
    broadcast use vstd::seq_lib::to_multiset_build, vstd::seq_lib::to_multiset_insert;

    if layers.len() > 0 {
        let rest = layers.drop_last();
        let x = layers.last();
        law_sorted_by_z(rest);
        let r = sorted_by_z(rest);
        let p = insert_position(r, x.z_index);
        lemma_insert_position(r, x.z_index);
        let out = r.insert(p, x);
        assert forall|i: int, j: int| 0 <= i <= j < out.len() implies out[i].z_index <= out[j].z_index by {
            if j < p {
            } else if j == p {
                if i < p {
                }
            } else if i < p {
                assert(out[j] == r[j - 1]);
            } else if i == p {
                assert(out[j] == r[j - 1]);
                assert(r[p].z_index <= r[j - 1].z_index);
            } else {
                assert(out[i] == r[i - 1]);
                assert(out[j] == r[j - 1]);
            }
        }
        assert(layers =~= rest.push(x));
    }
}

fn insert_position_exec(sorted: &Vec<PlannedVideoLayer>, z: i32) -> (r: usize)
    ensures
        r == insert_position(sorted@, z),
{
    let mut i: usize = 0;
    assert(sorted@.skip(0) =~= sorted@);
    while i < sorted.len() && sorted[i].z_index <= z
        invariant
            i <= sorted@.len(),
            insert_position(sorted@, z) == i + insert_position(sorted@.skip(i as int), z),
        decreases sorted.len() - i,
    {
        assert(sorted@.skip(i as int)[0] == sorted@[i as int]);
        assert(sorted@.skip(i as int).skip(1) =~= sorted@.skip(i + 1));
        i = i + 1;
    }
    if i < sorted.len() {
        assert(sorted@.skip(i as int)[0] == sorted@[i as int]);
    }
    i
}

impl MediaPlan {
    /// A plan of video layers ordered by stacking index (a stable order) and
    /// audio layers kept in the order given; the caller, which holds start
    /// times as floating-point numbers, passes them in start order.
    pub fn new(video_layers: Vec<PlannedVideoLayer>, audio_layers: Vec<PlannedAudioLayer>) -> (r: Self)
        ensures
            r.video_layers@ == sorted_by_z(video_layers@),
            r.audio_layers@ == audio_layers@,
    {
        let ghost input = video_layers@;
        let mut rest = video_layers;
        let mut sorted: Vec<PlannedVideoLayer> = Vec::new();
        let ghost mut k: int = 0;
        assert(input.take(0) =~= Seq::<PlannedVideoLayer>::empty());
        while rest.len() > 0
            invariant
                0 <= k <= input.len(),
                rest@ == input.skip(k),
                sorted@ == sorted_by_z(input.take(k)),
            decreases rest@.len(),
        {
            let layer = rest.remove(0);
            proof {
                assert(input.take(k + 1).drop_last() =~= input.take(k));
                assert(input.take(k + 1).last() == layer);
                assert(rest@ =~= input.skip(k + 1));
            }
            let pos = insert_position_exec(&sorted, layer.z_index);
            proof {
                lemma_insert_position(sorted@, layer.z_index);
            }
            sorted.insert(pos, layer);
            proof {
                k = k + 1;
            }
        }
        assert(input.take(k) =~= input);
        MediaPlan { video_layers: sorted, audio_layers }
    }
}

} // verus!

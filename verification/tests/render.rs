use make_movie::project::{
    Asset, AssetKind, AssetMode, Crop, F64Bits, Project, ProjectSettings,
};
use make_movie::render::{
    align_to, asset_path, base_ffmpeg_args, image_asset_path, readback_row_pitch, GpuFrameError, bundled_ffmpeg_candidate, bundled_ffmpeg_path,
    gui_render_options, parse_color, readback_pixels, stable_hash, system_font_candidates,
    system_font_path, voice_cache_path, Color, LocatorError, MediaPlan, PlannedAudioLayer,
    PlannedVideoLayer, RawFrameMode, RenderBackend, RenderOptions, SystemFfmpegLocator,
    GPU_COPY_ALIGNMENT,
};

fn text_project() -> Project {
    Project {
        settings: ProjectSettings {
            title: "Text".to_string(),
            width: 160,
            height: 90,
            fps: 30,
            sample_rate: 48000,
            duration: F64Bits { bits: 1.0f64.to_bits() },
            output: "output/text.mp4".to_string(),
            asset_mode: AssetMode::Copy,
            ffmpeg: None,
        },
        assets: vec![],
        tracks: vec![],
        scenes: vec![],
        groups: vec![],
        plugins: vec![],
    }
}

fn video_layer(path: &str, z_index: i32) -> PlannedVideoLayer {
    PlannedVideoLayer {
        path: path.to_string(),
        z_index,
        x: 0,
        y: 0,
        width: 64,
        height: 32,
        trim_start: format!("{}", 0.2f64),
        trim_end: format!("{}", 0.8f64),
        start: format!("{}", 0.5f64),
        opacity: format!("{}", 1.0f32),
        crop: None,
    }
}

#[test]
fn align_to_rounds_up_to_copy_alignment() {
    assert_eq!(align_to(4, GPU_COPY_ALIGNMENT), GPU_COPY_ALIGNMENT);
    assert_eq!(
        align_to(GPU_COPY_ALIGNMENT, GPU_COPY_ALIGNMENT),
        GPU_COPY_ALIGNMENT
    );
    assert_eq!(
        align_to(GPU_COPY_ALIGNMENT + 1, GPU_COPY_ALIGNMENT),
        GPU_COPY_ALIGNMENT * 2
    );
}

#[test]
fn copy_alignment_matches_wgpu() {
    assert_eq!(GPU_COPY_ALIGNMENT, wgpu::COPY_BYTES_PER_ROW_ALIGNMENT);
    assert_eq!(align_to(0, 256), 0);
    assert_eq!(align_to(1000, 7), 1001);
}

#[test]
fn video_filter_includes_crop_when_present() {
    let mut planned = video_layer("video.mp4", 0);
    planned.crop = Some(Crop { x: 3, y: 4, width: 20, height: 10 });

    let filter = planned.video_filter(1, "v");

    assert!(filter.contains("crop=20:10:3:4"));
    assert!(filter.contains("scale=64:32"));
    assert_eq!(
        filter,
        "[1:v]trim=start=0.2:end=0.8,setpts=PTS-STARTPTS+0.5/TB,crop=20:10:3:4,scale=64:32,format=rgba,colorchannelmixer=aa=1[v]"
    );
}

#[test]
fn locator_prefers_project_ffmpeg_path() {
    let mut project = text_project();
    project.settings.ffmpeg = Some("/tmp/ffmpeg".to_string());

    let path = SystemFfmpegLocator
        .ffmpeg_path(&project, Some("/env/ffmpeg"), Some("/usr/bin/ffmpeg".to_string()))
        .unwrap();

    assert_eq!(path, "/tmp/ffmpeg");
}

#[test]
fn locator_falls_back_to_environment_then_path() {
    let project = text_project();
    let locator = SystemFfmpegLocator;
    assert_eq!(
        locator.ffmpeg_path(&project, Some("/env/ffmpeg"), Some("/usr/bin/ffmpeg".to_string())),
        Ok("/env/ffmpeg".to_string())
    );
    assert_eq!(
        locator.ffmpeg_path(&project, None, Some("/usr/bin/ffmpeg".to_string())),
        Ok("/usr/bin/ffmpeg".to_string())
    );
    let error = locator.ffmpeg_path(&project, None, None).unwrap_err();
    assert_eq!(error, LocatorError::FfmpegNotFound);
    assert_eq!(
        error.message(),
        "ffmpeg が見つかりません。MM_FFMPEG または PATH を確認してください"
    );
    assert_eq!(
        locator.ffprobe_path(None).unwrap_err().message(),
        "ffprobe が見つかりません。PATH を確認してください"
    );
}

#[test]
fn gui_render_options_keeps_fallback_when_bundled_ffmpeg_is_missing() {
    let mut project = text_project();
    project.settings.ffmpeg = Some("/custom/ffmpeg".to_string());

    let bundled = bundled_ffmpeg_path("/tmp/dir/bundle", false);
    let options = gui_render_options("/tmp/dir/mm.toml", &project, bundled);

    assert_eq!(options.ffmpeg_path, None);
}

#[test]
fn gui_render_options_prefers_bundled_ffmpeg() {
    let project = text_project();
    let bundled = bundled_ffmpeg_path("/tmp/dir/bundle", true);
    let options = gui_render_options("/tmp/dir/project/mm.toml", &project, bundled);

    assert_eq!(options.project_root, "/tmp/dir/project");
    assert_eq!(options.ffmpeg_path, Some(bundled_ffmpeg_candidate("/tmp/dir/bundle")));
    assert_eq!(options.ffmpeg_path.as_deref(), Some("/tmp/dir/bundle/ffmpeg"));
    assert_eq!(options.output_path, "output/text.mp4");
}

#[test]
fn render_options_start_with_defaults() {
    let options = RenderOptions::new("/project", "/out.mp4");
    assert_eq!(options.background, Color { r: 20, g: 20, b: 24, a: 255 });
    assert_eq!(options.backend, RenderBackend::Auto);
    assert!(options.ffmpeg_path.is_none());
}

#[test]
fn ffmpeg_reads_raw_rgba_frames() {
    assert_eq!(
        base_ffmpeg_args(1920, 1080, 30),
        vec!["-y", "-f", "rawvideo", "-pix_fmt", "rgba", "-s", "1920x1080", "-r", "30", "-i", "-"]
    );
}

#[test]
fn stable_hash_is_fnv1a() {
    assert_eq!(stable_hash(b""), 0xcbf29ce484222325);
    assert_eq!(stable_hash(b"a"), 0xaf63dc4c8601ec8c);
    assert_eq!(stable_hash(b"foobar"), 0x85944171f73967e8);
}

#[test]
fn voice_cache_is_named_by_hash() {
    assert_eq!(
        voice_cache_path("/project", b"a"),
        "/project/cache/tts/voice-af63dc4c8601ec8c.wav"
    );
}

#[test]
fn colors_parse_from_hex() {
    assert_eq!(parse_color("#ffcc00"), Some(Color { r: 255, g: 204, b: 0, a: 255 }));
    assert_eq!(parse_color("#FFcc0080"), Some(Color { r: 255, g: 204, b: 0, a: 128 }));
    assert_eq!(parse_color("#+f+f+f"), Some(Color { r: 15, g: 15, b: 15, a: 255 }));
    assert_eq!(parse_color("ffcc00"), None);
    assert_eq!(parse_color("#ffcc0"), None);
    assert_eq!(parse_color("#ggcc00"), None);
    assert_eq!(parse_color("#éééé"), None);
    assert_eq!(parse_color(""), None);
}

#[test]
fn system_font_is_first_existing_candidate() {
    let candidates = system_font_candidates();
    assert_eq!(candidates.len(), 4);
    assert_eq!(system_font_path(&[false, true, true, false]), Some(candidates[1].to_string()));
    assert_eq!(system_font_path(&[false, false, false, false]), None);
}

#[test]
fn media_assets_are_found_by_id_and_kind() {
    let mut project = text_project();
    project.assets = vec![
        Asset { id: "clip".to_string(), kind: AssetKind::Audio, path: "media/audio/clip.wav".to_string() },
        Asset { id: "clip".to_string(), kind: AssetKind::Video, path: "media/video/clip.mp4".to_string() },
    ];
    assert_eq!(
        asset_path(&project, "/project", "clip", AssetKind::Video),
        Ok("/project/media/video/clip.mp4".to_string())
    );
    let missing = asset_path(&project, "/project", "other", AssetKind::Video).unwrap_err();
    assert_eq!(missing.message(), "Video asset が見つかりません: other");
}

#[test]
fn readback_drops_row_padding() {
    let mut mapped = vec![0u8; 256 * 2];
    for (i, byte) in mapped.iter_mut().enumerate() {
        *byte = (i % 251) as u8;
    }
    let pixels = readback_pixels(&mapped, 2, 2, 256);
    assert_eq!(pixels.len(), 16);
    assert_eq!(&pixels[0..8], &mapped[0..8]);
    assert_eq!(&pixels[8..16], &mapped[256..264]);
}

#[test]
fn media_plan_orders_video_by_stacking_index() {
    let plan = MediaPlan::new(
        vec![video_layer("b.mp4", 2), video_layer("a.mp4", 1), video_layer("c.mp4", 2)],
        vec![],
    );
    let order: Vec<&str> = plan.video_layers.iter().map(|l| l.path.as_str()).collect();
    assert_eq!(order, vec!["a.mp4", "b.mp4", "c.mp4"]);
    assert_eq!(plan.mode(), RawFrameMode::TransparentOverlay);
    assert_eq!(MediaPlan::new(vec![], vec![]).mode(), RawFrameMode::FullFrame);
}

#[test]
fn media_plan_builds_ffmpeg_graph_and_arguments() {
    let project = text_project();
    let mut options = RenderOptions::new("/project", "/out.mp4");
    options.background = Color { r: 0x12, g: 0x34, b: 0xab, a: 255 };
    let mut video = video_layer("v.mp4", 0);
    video.x = -5;
    video.y = 7;
    let audio = PlannedAudioLayer {
        path: "a.wav".to_string(),
        trim_start: "0".to_string(),
        trim_end: "1".to_string(),
        delay_ms: 250,
    };
    let plan = MediaPlan::new(vec![video], vec![audio]);

    assert_eq!(plan.input_args(), vec!["-i", "v.mp4", "-i", "a.wav"]);
    let graph = plan.filter_complex(&project, options.background, "1");
    assert_eq!(
        graph,
        "color=c=0x1234ab:s=160x90:r=30:d=1[base0];\
[1:v]trim=start=0.2:end=0.8,setpts=PTS-STARTPTS+0.5/TB,scale=64:32,format=rgba,colorchannelmixer=aa=1[video0];\
[base0][video0]overlay=x=-5:y=7:eof_action=pass[base1];\
[0:v]format=rgba[overlay];\
[base1][overlay]overlay=x=0:y=0:format=auto:eof_action=pass[vout];\
[2:a]atrim=start=0:end=1,asetpts=PTS-STARTPTS,adelay=250:all=1[audio0];\
[audio0]amix=inputs=1:duration=longest:normalize=0,atrim=0:1[aout]"
    );
    let args = plan.output_args(&project, &options, "1");
    assert_eq!(
        args,
        vec![
            "-filter_complex".to_string(),
            graph,
            "-map".to_string(),
            "[vout]".to_string(),
            "-map".to_string(),
            "[aout]".to_string(),
            "-c:v".to_string(),
            "libx264".to_string(),
            "-pix_fmt".to_string(),
            "yuv420p".to_string(),
            "-c:a".to_string(),
            "aac".to_string(),
            "-ar".to_string(),
            "48000".to_string(),
            "-ac".to_string(),
            "2".to_string(),
            "-shortest".to_string(),
            "-t".to_string(),
            "1".to_string(),
        ]
    );
}

#[test]
fn media_plan_without_layers_passes_frames_through() {
    let project = text_project();
    let options = RenderOptions::new("/project", "/out.mp4");
    let plan = MediaPlan::new(vec![], vec![]);
    assert!(plan.input_args().is_empty());
    assert_eq!(plan.filter_complex(&project, options.background, "1"), "[0:v]format=rgba[vout]");
    assert_eq!(
        plan.output_args(&project, &options, "1"),
        vec![
            "-filter_complex", "[0:v]format=rgba[vout]", "-map", "[vout]", "-an", "-c:v", "libx264",
            "-pix_fmt", "yuv420p", "-shortest", "-t", "1",
        ]
    );
}

fn seconds(parts: &[String]) -> f64 {
    let values: Vec<f64> = parts.iter().map(|part| part.parse::<f64>().unwrap()).collect();
    match values.as_slice() {
        [minutes, seconds] => minutes * 60.0 + seconds,
        [hours, minutes, seconds] => hours * 3600.0 + minutes * 60.0 + seconds,
        _ => panic!("a timestamp has two or three parts"),
    }
}

#[test]
fn parse_srt_subtitle_cues() {
    let cues = make_movie::subtitle::parse_subtitles(
        "1\n00:00:00,000 --> 00:00:01,500\nHello\n\n2\n00:00:02,000 --> 00:00:03,000\nWorld\n",
    );

    assert_eq!(cues.len(), 2);
    assert_eq!(seconds(&cues[0].start), 0.0);
    assert_eq!(seconds(&cues[0].end), 1.5);
    assert_eq!(cues[0].text, "Hello");
    assert_eq!(cues[0].start, vec!["00", "00", "00.000"]);
}

#[test]
fn parse_vtt_subtitle_cues() {
    let cues = make_movie::subtitle::parse_subtitles("WEBVTT\n\n00:00:00.500 --> 00:00:01.000\nHello VTT\n");

    assert_eq!(cues.len(), 1);
    assert_eq!(seconds(&cues[0].start), 0.5);
    assert_eq!(cues[0].text, "Hello VTT");
}

#[test]
fn parse_ass_subtitle_cues() {
    let cues = make_movie::subtitle::parse_subtitles(
        "[Events]\nDialogue: 0,0:00:01.00,0:00:02.50,Default,,0,0,0,,Hello\\NASS\n",
    );

    assert_eq!(cues.len(), 1);
    assert_eq!(seconds(&cues[0].start), 1.0);
    assert_eq!(seconds(&cues[0].end), 2.5);
    assert_eq!(cues[0].text, "Hello\nASS");
}

#[test]
fn subtitle_blocks_need_timing_and_text() {
    let cues = make_movie::subtitle::parse_subtitles(
        "1\r\n00:01.000 --> 00:02.000 align:start\r\nfirst\r\n  second  \r\n\r\n2\r\nno timing\r\n\r\n00:03 --> 00:04\r\n\r\n",
    );
    assert_eq!(cues.len(), 1);
    assert_eq!(cues[0].start, vec!["00", "01.000"]);
    assert_eq!(cues[0].end, vec!["00", "02.000"]);
    assert_eq!(cues[0].text, "first\nsecond");
    assert!(make_movie::subtitle::parse_subtitles("").is_empty());
    let dialogue = make_movie::subtitle::parse_subtitles("Dialogue: 0,1:2:3:4,0:00:02.50,x,,0,0,0,,a,b\n");
    assert!(dialogue.is_empty());
    let dialogue = make_movie::subtitle::parse_subtitles("  Dialogue: 0,0:01,0:02,x,,0,0,0,,a,b{\\i1}c{\\i0}\\nd\n");
    assert_eq!(dialogue.len(), 1);
    assert_eq!(dialogue[0].text, "a,bc\nd");
}

#[test]
fn fonts_come_from_assets_before_the_system() {
    let mut project = text_project();
    project.assets = vec![
        Asset { id: "title".to_string(), kind: AssetKind::Image, path: "media/image/title.png".to_string() },
        Asset { id: "title".to_string(), kind: AssetKind::Font, path: "media/font/title.ttf".to_string() },
    ];
    let system = Some("/usr/share/fonts/x.ttf".to_string());
    assert_eq!(
        make_movie::render::font_path(&project, "/p", Some("title"), system.clone()),
        Some("/p/media/font/title.ttf".to_string())
    );
    assert_eq!(make_movie::render::font_path(&project, "/p", Some("other"), system.clone()), system);
    assert_eq!(make_movie::render::font_path(&project, "/p", None, None), None);
}

#[test]
fn image_assets_are_found_by_id_alone() {
    let mut project = text_project();
    project.assets = vec![
        Asset { id: "logo".to_string(), kind: AssetKind::Mask, path: "media/mask/logo.png".to_string() },
        Asset { id: "logo".to_string(), kind: AssetKind::Image, path: "media/image/logo.png".to_string() },
    ];
    assert_eq!(
        image_asset_path(&project, "/project", "logo"),
        Ok("/project/media/mask/logo.png".to_string())
    );
    let missing = image_asset_path(&project, "/project", "other").unwrap_err();
    assert_eq!(missing.message(), "画像 asset が見つかりません: other");
}

#[test]
fn readback_row_pitch_is_aligned_and_refuses_empty_or_huge_frames() {
    assert_eq!(readback_row_pitch(4, 3), Ok(256));
    assert_eq!(readback_row_pitch(64, 1), Ok(256));
    assert_eq!(readback_row_pitch(65, 1), Ok(512));
    assert_eq!(readback_row_pitch(0, 3), Err(GpuFrameError::Empty));
    assert_eq!(readback_row_pitch(4, 0), Err(GpuFrameError::Empty));
    assert_eq!(readback_row_pitch(1_073_741_760, 1), Ok(4_294_967_040));
    assert_eq!(readback_row_pitch(1_073_741_761, 1), Err(GpuFrameError::TooLarge));
    assert_eq!(GpuFrameError::Empty.message(), "GPU frame size は 1px 以上である必要があります");
    assert_eq!(GpuFrameError::TooLarge.message(), "GPU frame が大きすぎます");
}

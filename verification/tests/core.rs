use make_movie::ids::unique_id;
use make_movie::import::{
    ensure_import_track, imported_asset, register_imported_asset, unique_asset_id, unique_layer_id,
    ImportError,
};
use make_movie::project::{
    default_asset_mode, default_color, Asset, AssetKind, AssetMode, F32Bits, F64Bits,
    GradientDirection, Layer, LayerContent, Project, ProjectSettings, Scene, TextAlign,
    TextGradient, TextLayer, TimelineGroup, Track, TrackKind, Transform, TtsProviderKind,
    F32_ONE_BITS,
};
use make_movie::tts::{coeiroink_url, provider_endpoint, speaker_id, voicevox_urls};
use make_movie::validate::{validate_project, ValidationError};
use make_movie::wav::{
    decode_wav_container, decode_wav_samples, encode_wav_pcm16, WavError, WavSamples,
};

fn f64b(value: f64) -> F64Bits {
    F64Bits { bits: value.to_bits() }
}

fn f32b(value: f32) -> F32Bits {
    F32Bits { bits: value.to_bits() }
}

fn sample_project(asset_path: &str) -> Project {
    Project {
        settings: ProjectSettings {
            title: "サンプル".to_string(),
            width: 1080,
            height: 1920,
            fps: 30,
            sample_rate: 48000,
            duration: f64b(3.0),
            output: "output/movie.mp4".to_string(),
            asset_mode: AssetMode::Copy,
            ffmpeg: None,
        },
        assets: vec![Asset {
            id: "image1".to_string(),
            kind: AssetKind::Image,
            path: asset_path.to_string(),
        }],
        tracks: vec![Track {
            id: "v1".to_string(),
            name: "V1 Main Video".to_string(),
            kind: TrackKind::Video,
            layers: vec![Layer {
                id: "layer1".to_string(),
                group_id: Some("opening".to_string()),
                start: f64b(0.0),
                duration: f64b(3.0),
                z_index: 0,
                content: LayerContent::Text(TextLayer {
                    text: "Hello\nmake-movie".to_string(),
                    font_asset_id: None,
                    font_family: None,
                    font_size: f32b(64.0),
                    color: "#ffffff".to_string(),
                    letter_spacing: f32b(0.0),
                    line_spacing: f32b(1.2),
                    stroke: None,
                    shadow: None,
                    gradient: Some(TextGradient {
                        start_color: "#ffcc00".to_string(),
                        end_color: "#ffffff".to_string(),
                        direction: GradientDirection::Vertical,
                    }),
                    align: TextAlign::Center,
                }),
                transform: Transform::default(),
                effects: vec![],
                animations: vec![],
                transition: None,
            }],
        }],
        scenes: vec![Scene {
            id: "scene1".to_string(),
            name: "Opening".to_string(),
            start: f64b(0.0),
            duration: f64b(3.0),
        }],
        groups: vec![TimelineGroup {
            id: "opening".to_string(),
            name: "Opening Group".to_string(),
        }],
        plugins: vec![],
    }
}

#[test]
fn validate_rejects_missing_asset() {
    let project = sample_project("media/image/missing.png");

    let err = validate_project(&project, &[false]).unwrap_err();

    assert!(err.message("/tmp/project").contains("存在しません"));
    assert_eq!(
        err,
        ValidationError::AssetFileMissing {
            asset: "image1".to_string(),
            path: "media/image/missing.png".to_string()
        }
    );
}

#[test]
fn validate_rejects_missing_group() {
    let mut project = sample_project("media/image/sample.png");
    project.groups.clear();

    let err = validate_project(&project, &[true]).unwrap_err();

    assert!(err.message("/tmp/project").contains("group_id"));
}

#[test]
fn validate_accepts_existing_asset_and_text_layer() {
    let project = sample_project("media/image/sample.png");
    assert_eq!(validate_project(&project, &[true]), Ok(()));
}

#[test]
fn validate_rule_error_outputs_english_with_env_lang() {
    let mut project = sample_project("media/image/sample.png");
    project.settings.width = 0;
    let err = validate_project(&project, &[true]).unwrap_err();
    let language = make_movie::cli::resolve_language(None, Some("en"));
    let stderr = make_movie::cli::localized_error(language, &[err.message("/tmp/project")]);
    assert!(stderr.contains("error: settings.width and settings.height must be at least 1"));
}

#[test]
fn validate_checks_settings_in_order() {
    let mut project = sample_project("media/image/sample.png");
    project.settings.title = "  ".to_string();
    project.settings.fps = 0;
    assert_eq!(validate_project(&project, &[true]), Err(ValidationError::TitleRequired));
    project.settings.title = "t".to_string();
    assert_eq!(validate_project(&project, &[true]), Err(ValidationError::InvalidFps));
    project.settings.fps = 30;
    project.settings.duration = f64b(0.0);
    assert_eq!(validate_project(&project, &[true]), Err(ValidationError::InvalidDuration));
    project.settings.duration = f64b(f64::NAN);
    assert_eq!(validate_project(&project, &[true]), Ok(()));
    project.settings.duration = f64b(3.0);
    project.scenes[0].start = f64b(-1.0);
    assert_eq!(
        validate_project(&project, &[true]),
        Err(ValidationError::NegativeStart { id: "scene1".to_string() })
    );
    project.scenes[0].start = f64b(0.0);
    project.tracks[0].layers[0].duration = f64b(-0.0);
    assert_eq!(
        validate_project(&project, &[true]),
        Err(ValidationError::NonPositiveDuration { id: "layer1".to_string() })
    );
}

#[test]
fn validation_messages_join_asset_paths_to_root() {
    let err = ValidationError::AssetFileMissing {
        asset: "a".to_string(),
        path: "media/a.png".to_string(),
    };
    assert_eq!(err.message("/root"), "asset 'a' のファイルが存在しません: /root/media/a.png");
}

#[test]
fn import_asset_copies_to_media_directory() {
    let asset = imported_asset("/tmp/work/source.png", AssetKind::Image).unwrap();

    assert_eq!(asset.id, "source");
    assert_eq!(asset.path, "media/image/source.png");
    assert_eq!(asset.kind, AssetKind::Image);
}

#[test]
fn import_refuses_paths_without_file_name() {
    assert_eq!(
        imported_asset("/", AssetKind::Image),
        Err(ImportError::NoFileName { source: "/".to_string() })
    );
}

#[test]
fn import_asset_into_project_registers_asset_and_layer() {
    let mut project = sample_project("media/image/sample.png");
    project.tracks.clear();
    project.assets.clear();
    let asset = imported_asset("/tmp/work/photo.png", AssetKind::Image).unwrap();

    register_imported_asset(&mut project, asset, Transform::default());

    assert_eq!(project.assets.len(), 1);
    assert_eq!(project.assets[0].id, "photo");
    assert_eq!(project.tracks.len(), 1);
    assert_eq!(project.tracks[0].id, "v1");
    assert_eq!(project.tracks[0].layers.len(), 1);
    assert_eq!(project.tracks[0].layers[0].id, "photo-layer");
    assert_eq!(project.tracks[0].layers[0].z_index, 1);
    assert!(matches!(project.tracks[0].layers[0].content, LayerContent::Image(_)));

    let again = imported_asset("/elsewhere/photo.png", AssetKind::Image).unwrap();
    register_imported_asset(&mut project, again, Transform::default());
    assert_eq!(project.assets[1].id, "photo-2");
    assert_eq!(project.tracks[0].layers[1].id, "photo-2-layer");
    assert_eq!(project.tracks[0].layers[1].z_index, 2);

    let font = imported_asset("/fonts/title.ttf", AssetKind::Font).unwrap();
    register_imported_asset(&mut project, font, Transform::default());
    assert_eq!(project.assets.len(), 3);
    assert_eq!(project.tracks[0].layers.len(), 2);
}

#[test]
fn audio_imports_get_their_own_track() {
    let mut project = sample_project("media/image/sample.png");
    let index = ensure_import_track(&mut project, AssetKind::Audio);
    assert_eq!(index, 1);
    assert_eq!(project.tracks[1].id, "a1");
    assert_eq!(project.tracks[1].kind, TrackKind::Audio);
    assert_eq!(ensure_import_track(&mut project, AssetKind::Video), 0);
}

#[test]
fn unique_ids_count_up_from_two() {
    let used = vec!["clip".to_string(), "clip-2".to_string()];
    assert_eq!(unique_id(&used, "clip"), "clip-3");
    assert_eq!(unique_id(&used, "other"), "other");
    let project = sample_project("media/image/sample.png");
    assert_eq!(unique_asset_id(&project, "image1"), "image1-2");
    assert_eq!(unique_asset_id(&project, "  "), "asset");
    assert_eq!(unique_layer_id(&project, "layer1"), "layer1-2");
}

#[test]
fn defaults_match_the_project_format() {
    assert_eq!(default_asset_mode(), AssetMode::Copy);
    assert_eq!(default_color(), "#ffffff");
    let transform = Transform::default();
    assert_eq!(f32::from_bits(transform.scale.bits), 1.0);
    assert_eq!(transform.opacity.bits, F32_ONE_BITS);
    assert_eq!(f32::from_bits(transform.x.bits), 0.0);
}

#[test]
fn wav_audio_round_trip() {
    let samples: Vec<i16> = vec![-i16::MAX, 0, i16::MAX];

    let bytes = encode_wav_pcm16(24_000, 1, &samples);
    let decoded = decode_wav_container(&bytes).unwrap();

    assert_eq!(decoded.format.sample_rate, 24_000);
    assert_eq!(decoded.format.channels, 1);
    let values = decode_wav_samples(
        decoded.format.audio_format,
        decoded.format.bits_per_sample,
        &decoded.data,
    )
    .unwrap();
    assert_eq!(values, WavSamples::Pcm16(samples));
}

#[test]
fn wav_header_is_checked() {
    assert_eq!(decode_wav_container(b"RIFF"), Err(WavError::HeaderUnreadable));
    assert_eq!(decode_wav_container(b"RIFX\0\0\0\0WAVE"), Err(WavError::NotRiffWave));
    assert_eq!(decode_wav_container(b"RIFF\0\0\0\0WAVE"), Err(WavError::FmtMissing));
    let mut short = b"RIFF\0\0\0\0WAVEfmt ".to_vec();
    short.extend_from_slice(&4u32.to_le_bytes());
    short.extend_from_slice(&[1, 0, 1, 0]);
    assert_eq!(decode_wav_container(&short), Err(WavError::FmtTooShort));
    let mut oversized = b"RIFF\0\0\0\0WAVEdata".to_vec();
    oversized.extend_from_slice(&100u32.to_le_bytes());
    assert_eq!(decode_wav_container(&oversized), Err(WavError::ChunkSizeInvalid));
}

#[test]
fn wav_samples_decode_each_width() {
    assert_eq!(
        decode_wav_samples(1, 24, &[0xff, 0xff, 0xff, 0x01, 0x00, 0x00, 0x07]),
        Ok(WavSamples::Pcm24(vec![-1, 1]))
    );
    assert_eq!(
        decode_wav_samples(1, 32, &[0x00, 0x00, 0x00, 0x80]),
        Ok(WavSamples::Pcm32(vec![i32::MIN]))
    );
    assert_eq!(
        decode_wav_samples(3, 32, &0.5f32.to_le_bytes()),
        Ok(WavSamples::Float32(vec![0.5f32.to_bits()]))
    );
    assert_eq!(
        decode_wav_samples(1, 8, &[1, 2]),
        Err(WavError::Unsupported { audio_format: 1, bits_per_sample: 8 })
    );
}

#[test]
fn tts_requests_use_trimmed_endpoint() {
    let (query, synthesis) = voicevox_urls("http://127.0.0.1:50021//");
    assert_eq!(query, "http://127.0.0.1:50021/audio_query");
    assert_eq!(synthesis, "http://127.0.0.1:50021/synthesis");
    assert_eq!(coeiroink_url("http://host/"), "http://host/v1/synthesis");
    assert_eq!(provider_endpoint(TtsProviderKind::AivisSpeech, None), "http://127.0.0.1:10101");
    assert_eq!(provider_endpoint(TtsProviderKind::Voicevox, Some("http://x")), "http://x");
}

#[test]
fn speaker_ids_fall_back_to_one() {
    assert_eq!(speaker_id("3"), 3);
    assert_eq!(speaker_id("+42"), 42);
    assert_eq!(speaker_id("4294967295"), u32::MAX);
    assert_eq!(speaker_id("4294967296"), 1);
    assert_eq!(speaker_id("ずんだもん"), 1);
    assert_eq!(speaker_id(""), 1);
    assert_eq!(speaker_id("+"), 1);
    assert_eq!(speaker_id("-1"), 1);
}

use make_movie::cli::{
    cause_label, empty_project, error_label, help_command_path, language_from_args, localized_error,
    localized_help, parse_language_value, plugin, project_plugin_manager, project_root,
    resolve_language, translate_error_message, CliLanguage, Messages, PluginAction, PluginCommand,
    F64_ONE_BITS,
};
use make_movie::package::{default_package_output, package_entries, package_name};
use make_movie::project::AssetMode;

fn args(items: &[&str]) -> Vec<String> {
    items.iter().map(|item| item.to_string()).collect()
}

#[test]
fn localized_help_uses_language_option() {
    let help = localized_help(&args(&["mm", "--lang", "ja", "--help"]), None).unwrap();
    assert!(help.contains("使用方法"));

    let help = localized_help(&args(&["mm", "--lang=en", "plugin", "--help"]), None).unwrap();
    assert!(help.contains("Manage plugins"));
}

#[test]
fn localized_help_detects_plugin_subcommand() {
    let help = localized_help(
        &args(&["mm", "--lang", "ja", "plugin", "install", "--help"]),
        None,
    )
    .unwrap();

    assert!(help.contains("使用方法: mm plugin install"));
    assert!(help.contains("--manifest"));

    let help = localized_help(
        &args(&["mm", "--lang", "en", "plugin", "update", "--help"]),
        None,
    )
    .unwrap();
    assert!(help.contains("Usage: mm plugin update"));
    assert!(help.contains("--project"));
}

#[test]
fn project_root_uses_parent_directory() {
    assert_eq!(project_root("examples/basic/mm.toml"), "examples/basic");
}

#[test]
fn help_outputs_japanese_with_lang() {
    let stdout = localized_help(&args(&["mm", "--lang", "ja", "--help"]), None).unwrap();
    assert!(stdout.contains("使用方法: mm"));
    assert!(stdout.contains("動画を書き出す"));
    assert!(stdout.contains("オプション:"));
}

#[test]
fn help_outputs_english_with_lang() {
    let stdout = localized_help(&args(&["mm", "--lang", "en", "--help"]), None).unwrap();
    assert!(stdout.contains("Usage: mm"));
    assert!(stdout.contains("Render a movie"));
    assert!(stdout.contains("Options:"));
}

#[test]
fn plugin_help_outputs_japanese_and_english() {
    let stdout = localized_help(&args(&["mm", "--lang", "ja", "plugin", "--help"]), None).unwrap();
    assert!(stdout.contains("使用方法: mm plugin"));
    assert!(stdout.contains("plugin をインストールする"));

    let stdout = localized_help(&args(&["mm", "--lang", "en", "plugin", "--help"]), None).unwrap();
    assert!(stdout.contains("Usage: mm plugin"));
    assert!(stdout.contains("Install a plugin"));
}

#[test]
fn validate_command_outputs_english_with_lang() {
    let language = resolve_language(language_from_args(&args(&["mm", "--lang", "en", "validate"])), None);
    assert!(Messages::new(language).validate_done.contains("validate completed"));
}

#[test]
fn validate_command_outputs_japanese_with_lang() {
    let language = resolve_language(language_from_args(&args(&["mm", "--lang", "ja", "validate"])), None);
    assert!(Messages::new(language).validate_done.contains("validate が完了しました"));
}

#[test]
fn validate_error_outputs_english_with_lang() {
    let language = resolve_language(language_from_args(&args(&["mm", "--lang", "en", "validate"])), None);
    let stderr = localized_error(
        language,
        &args(&[
            "プロジェクトを読み込めません: /tmp/project/missing.toml",
            "No such file or directory (os error 2)",
        ]),
    );
    assert!(stderr.contains("error: failed to read project"));
}

#[test]
fn validate_error_outputs_japanese_with_lang() {
    let language = resolve_language(language_from_args(&args(&["mm", "--lang", "ja", "validate"])), None);
    let stderr = localized_error(
        language,
        &args(&[
            "プロジェクトを読み込めません: /tmp/project/missing.toml",
            "No such file or directory (os error 2)",
        ]),
    );
    assert!(stderr.contains("エラー: プロジェクトを読み込めません"));
}

#[test]
fn help_is_not_shown_without_help_argument() {
    assert_eq!(localized_help(&args(&["mm", "--lang", "en", "build"]), None), None);
    assert_eq!(localized_help(&args(&["mm"]), None), None);
    assert_eq!(localized_help(&[], None), None);
}

#[test]
fn help_language_falls_back_to_environment_then_japanese() {
    let english = localized_help(&args(&["mm", "help"]), Some("EN")).unwrap();
    assert!(english.starts_with("mm - Declarative video generation engine"));
    let japanese = localized_help(&args(&["mm", "-h"]), Some("fr")).unwrap();
    assert!(japanese.starts_with("mm - 宣言的動画生成エンジン"));
    let option_wins = localized_help(&args(&["mm", "--lang", "ja", "-h"]), Some("en")).unwrap();
    assert!(option_wins.contains("使用方法"));
}

#[test]
fn help_path_skips_options_and_language_value() {
    assert_eq!(
        help_command_path(&args(&["mm", "--lang", "build", "validate", "--help"])),
        vec!["validate".to_string()]
    );
    assert_eq!(
        help_command_path(&args(&["mm", "plugin", "--project", "x", "remove", "extra"])),
        vec!["plugin".to_string(), "remove".to_string()]
    );
    assert_eq!(help_command_path(&args(&["mm", "unknown", "--help"])), Vec::<String>::new());
    let text = localized_help(&args(&["mm", "--lang", "en", "unknown", "--help"]), None).unwrap();
    assert!(text.starts_with("mm - Declarative"));
}

#[test]
fn language_values_are_case_insensitive() {
    assert_eq!(parse_language_value("English"), Some(CliLanguage::En));
    assert_eq!(parse_language_value("JP"), Some(CliLanguage::Ja));
    assert_eq!(parse_language_value("japanese"), Some(CliLanguage::Ja));
    assert_eq!(parse_language_value("de"), None);
    assert_eq!(language_from_args(&args(&["mm", "--lang"])), None);
    assert_eq!(language_from_args(&args(&["mm", "--lang=EN", "--lang", "ja"])), Some(CliLanguage::En));
    assert_eq!(language_from_args(&args(&["--lang", "en"])), None);
}

#[test]
fn error_messages_translate_known_fragments() {
    assert_eq!(
        translate_error_message(CliLanguage::En, "cache を削除できません: /tmp/cache"),
        "failed to remove cache: /tmp/cache"
    );
    assert_eq!(
        translate_error_message(
            CliLanguage::En,
            "settings.title は必須です / settings.title は必須です"
        ),
        "settings.title is required / settings.title is required"
    );
    assert_eq!(
        translate_error_message(CliLanguage::Ja, "settings.title は必須です"),
        "settings.title は必須です"
    );
    assert_eq!(translate_error_message(CliLanguage::En, "unknown"), "unknown");
}

#[test]
fn error_report_labels_every_cause() {
    let report = localized_error(
        CliLanguage::En,
        &args(&["mm.toml の parse に失敗しました", "expected `=`", "line 3"]),
    );
    assert_eq!(
        report,
        "error: failed to parse mm.toml\ncaused by: expected `=`\ncaused by: line 3"
    );
    let report = localized_error(CliLanguage::Ja, &args(&["失敗", "理由"]));
    assert_eq!(report, "エラー: 失敗\n原因: 理由");
    assert_eq!(error_label(CliLanguage::En), "error");
    assert_eq!(cause_label(CliLanguage::Ja), "原因");
}

#[test]
fn messages_follow_language() {
    let ja = Messages::new(CliLanguage::Ja);
    assert_eq!(ja.build_done, "build が完了しました");
    assert_eq!(ja.not_found, "未検出");
    let en = Messages::new(CliLanguage::En);
    assert_eq!(en.package_done, "package validation completed");
    assert_eq!(en.preview_done, "preview exported");
}

#[test]
fn empty_project_is_a_one_second_placeholder() {
    let project = empty_project();
    assert_eq!(project.settings.title, "doctor");
    assert_eq!(project.settings.width, 1);
    assert_eq!(f64::from_bits(project.settings.duration.bits), 1.0);
    assert_eq!(project.settings.duration.bits, F64_ONE_BITS);
    assert_eq!(project.settings.output, "output.mp4");
    assert_eq!(project.settings.asset_mode, AssetMode::Copy);
    assert!(project.settings.ffmpeg.is_none());
    assert!(project.assets.is_empty() && project.tracks.is_empty());
}

#[test]
fn plugin_commands_choose_their_manager() {
    let manager = project_plugin_manager("examples/basic/mm.toml", "/data/plugins");
    assert_eq!(manager.plugin_dir, "/data/plugins");
    assert_eq!(manager.lock_path, "examples/basic/mm.lock");

    let action = plugin(
        PluginCommand::Install {
            name: Some("theme".to_string()),
            manifest: Some("plugin.toml".to_string()),
            project: "mm.toml".to_string(),
            global_config: None,
        },
        "/data/plugins",
        "/config/mm.toml",
    );
    match action {
        PluginAction::InstallManifest { manager, manifest } => {
            assert_eq!(manifest, "plugin.toml");
            assert_eq!(manager.lock_path, "mm.lock");
        }
        other => panic!("unexpected action: {other:?}"),
    }

    let action = plugin(
        PluginCommand::Install {
            name: None,
            manifest: None,
            project: "work/mm.toml".to_string(),
            global_config: None,
        },
        "/data/plugins",
        "/config/mm.toml",
    );
    match action {
        PluginAction::InstallConfigured { manager, global_config, project } => {
            assert_eq!(manager.lock_path, "work/mm.lock");
            assert_eq!(global_config, "/config/mm.toml");
            assert_eq!(project, "work/mm.toml");
        }
        other => panic!("unexpected action: {other:?}"),
    }

    let action = plugin(
        PluginCommand::Remove { name: "theme".to_string(), project: "mm.toml".to_string() },
        "/data/plugins",
        "/config/mm.toml",
    );
    match action {
        PluginAction::Remove { manager, plugin } => {
            assert_eq!(plugin.name, "theme");
            assert_eq!(manager.lock_path, "mm.lock");
        }
        other => panic!("unexpected action: {other:?}"),
    }
}

#[test]
fn package_name_comes_from_the_title() {
    assert_eq!(package_name("CLI テスト"), "cli");
    assert_eq!(package_name("My  Movie 2!"), "my-movie-2");
    assert_eq!(package_name("テスト"), "project");
    assert_eq!(default_package_output("/work", "CLI テスト"), "/work/output/cli.tar.gz");
}

#[test]
fn package_command_writes_project_archive() {
    let candidates = args(&[
        "cache/skip.tmp",
        "media/image/sample.png",
        "mm.lock",
        "mm.toml",
        "output/skip.mp4",
    ]);
    let entries = package_entries(&candidates, Some("package/project.tar.gz"));
    assert!(entries.iter().any(|entry| entry == "mm.toml"));
    assert!(entries.iter().any(|entry| entry == "mm.lock"));
    assert!(entries.iter().any(|entry| entry == "media/image/sample.png"));
    assert!(!entries.iter().any(|entry| entry.starts_with("cache/")));
    assert!(!entries.iter().any(|entry| entry == "output/skip.mp4"));
}

#[test]
fn package_command_skips_archive_when_output_is_inside_media() {
    let candidates = args(&["media/image/sample.png", "media/package.tar.gz", "mm.toml"]);
    let entries = package_entries(&candidates, Some("media/package.tar.gz"));
    assert!(!entries.iter().any(|entry| entry == "media/package.tar.gz"));
    assert_eq!(entries, vec!["media/image/sample.png".to_string(), "mm.toml".to_string()]);
}

#[test]
fn package_command_uses_default_output() {
    assert_eq!(default_package_output("/tmp/project", "CLI テスト"), "/tmp/project/output/cli.tar.gz");
}

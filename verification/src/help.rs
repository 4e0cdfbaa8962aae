//! The help texts of the command line, in Japanese and English.

use vstd::prelude::*;

verus! {

pub const ROOT_HELP_JA: &'static str = r#"mm - 宣言的動画生成エンジン兼デスクトップ動画編集ソフト

使用方法: mm [オプション] <コマンド>

コマンド:
  build      mm.toml から動画を書き出す
  validate   mm.toml と参照ファイルを検証する
  preview    指定時刻のプレビュー画像を書き出す
  cleanup    cache ディレクトリを削除する
  package    配布前のプロジェクト検証を行う
  doctor     ffmpeg / ffprobe の検出状況を表示する
  plugin     plugin の install / update / remove を実行する
  help       このヘルプ、または指定コマンドのヘルプを表示する

オプション:
      --lang <LANG>  表示言語 [指定可能な値: ja, en]
  -h, --help         ヘルプを表示する
  -V, --version      バージョンを表示する
"#;

pub const ROOT_HELP_EN: &'static str = r#"mm - Declarative video generation engine and desktop video editor

Usage: mm [OPTIONS] <COMMAND>

Commands:
  build      Render a movie from mm.toml
  validate   Validate mm.toml and referenced files
  preview    Export a preview image at a given time
  cleanup    Remove the cache directory
  package    Validate a project before packaging
  doctor     Show ffmpeg / ffprobe detection status
  plugin     Install, update, or remove plugins
  help       Print this help or the help of a given command

Options:
      --lang <LANG>  Display language [possible values: ja, en]
  -h, --help         Print help
  -V, --version      Print version
"#;

pub const BUILD_HELP_JA: &'static str = r#"動画を書き出す

使用方法: mm build [オプション]

オプション:
      --project <PROJECT>  project toml のパス [既定値: mm.toml]
      --output <OUTPUT>    出力先ファイル
      --backend <BACKEND>  render backend [指定可能な値: auto, cpu, skia, gpu]
  -h, --help              ヘルプを表示する
"#;

pub const BUILD_HELP_EN: &'static str = r#"Render a movie

Usage: mm build [OPTIONS]

Options:
      --project <PROJECT>  Path to project toml [default: mm.toml]
      --output <OUTPUT>    Output file
      --backend <BACKEND>  Render backend [possible values: auto, cpu, skia, gpu]
  -h, --help              Print help
"#;

pub const VALIDATE_HELP_JA: &'static str = r#"プロジェクトを検証する

使用方法: mm validate [オプション]

オプション:
      --project <PROJECT>  project toml のパス [既定値: mm.toml]
      --output <OUTPUT>    互換用オプション
      --backend <BACKEND>  render backend [指定可能な値: auto, cpu, skia, gpu]
  -h, --help              ヘルプを表示する
"#;

pub const VALIDATE_HELP_EN: &'static str = r#"Validate a project

Usage: mm validate [OPTIONS]

Options:
      --project <PROJECT>  Path to project toml [default: mm.toml]
      --output <OUTPUT>    Compatibility option
      --backend <BACKEND>  Render backend [possible values: auto, cpu, skia, gpu]
  -h, --help              Print help
"#;

pub const PREVIEW_HELP_JA: &'static str = r#"プレビュー画像を書き出す

使用方法: mm preview [オプション]

オプション:
      --project <PROJECT>  project toml のパス [既定値: mm.toml]
      --output <OUTPUT>    出力先 PNG
      --time <TIME>        プレビュー時刻（秒） [既定値: 0]
  -h, --help              ヘルプを表示する
"#;

pub const PREVIEW_HELP_EN: &'static str = r#"Export a preview image

Usage: mm preview [OPTIONS]

Options:
      --project <PROJECT>  Path to project toml [default: mm.toml]
      --output <OUTPUT>    Output PNG
      --time <TIME>        Preview time in seconds [default: 0]
  -h, --help              Print help
"#;

pub const CLEANUP_HELP_JA: &'static str = r#"cache ディレクトリを削除する

使用方法: mm cleanup [オプション]

オプション:
      --project-root <PROJECT_ROOT>  project root [既定値: .]
  -h, --help                       ヘルプを表示する
"#;

pub const CLEANUP_HELP_EN: &'static str = r#"Remove the cache directory

Usage: mm cleanup [OPTIONS]

Options:
      --project-root <PROJECT_ROOT>  Project root [default: .]
  -h, --help                       Print help
"#;

pub const PACKAGE_HELP_JA: &'static str = r#"配布前のプロジェクト検証を行う

使用方法: mm package [オプション]

オプション:
      --project-root <PROJECT_ROOT>  project root [既定値: .]
  -h, --help                       ヘルプを表示する
"#;

pub const PACKAGE_HELP_EN: &'static str = r#"Validate a project before packaging

Usage: mm package [OPTIONS]

Options:
      --project-root <PROJECT_ROOT>  Project root [default: .]
  -h, --help                       Print help
"#;

pub const DOCTOR_HELP_JA: &'static str = r#"ffmpeg / ffprobe の検出状況を表示する

使用方法: mm doctor [オプション]

オプション:
  -h, --help  ヘルプを表示する
"#;

pub const DOCTOR_HELP_EN: &'static str = r#"Show ffmpeg / ffprobe detection status

Usage: mm doctor [OPTIONS]

Options:
  -h, --help  Print help
"#;

pub const PLUGIN_HELP_JA: &'static str = r#"plugin を管理する

使用方法: mm plugin <コマンド>

コマンド:
  install  plugin をインストールする
  update   plugin を更新する
  remove   plugin を削除する
  help     このヘルプ、または指定コマンドのヘルプを表示する

オプション:
  -h, --help  ヘルプを表示する
"#;

pub const PLUGIN_HELP_EN: &'static str = r#"Manage plugins

Usage: mm plugin <COMMAND>

Commands:
  install  Install a plugin
  update   Update a plugin
  remove   Remove a plugin
  help     Print this help or the help of a given command

Options:
  -h, --help  Print help
"#;

pub const PLUGIN_INSTALL_HELP_JA: &'static str = r#"plugin をインストールする

使用方法: mm plugin install [オプション] [NAME]

引数:
  [NAME]  plugin 名

オプション:
      --manifest <MANIFEST>  plugin manifest のパス
      --project <PROJECT>    project toml のパス [既定値: mm.toml]
      --global-config <GLOBAL_CONFIG>
                              global config のパス
  -h, --help                 ヘルプを表示する
"#;

pub const PLUGIN_INSTALL_HELP_EN: &'static str = r#"Install a plugin

Usage: mm plugin install [OPTIONS] [NAME]

Arguments:
  [NAME]  Plugin name

Options:
      --manifest <MANIFEST>  Path to plugin manifest
      --project <PROJECT>    Path to project toml [default: mm.toml]
      --global-config <GLOBAL_CONFIG>
                              Path to global config
  -h, --help                 Print help
"#;

pub const PLUGIN_UPDATE_HELP_JA: &'static str = r#"plugin を更新する

使用方法: mm plugin update <NAME>

引数:
  <NAME>  plugin 名

オプション:
      --project <PROJECT>  project toml のパス [既定値: mm.toml]
  -h, --help               ヘルプを表示する
"#;

pub const PLUGIN_UPDATE_HELP_EN: &'static str = r#"Update a plugin

Usage: mm plugin update <NAME>

Arguments:
  <NAME>  Plugin name

Options:
      --project <PROJECT>  Path to project toml [default: mm.toml]
  -h, --help               Print help
"#;

pub const PLUGIN_REMOVE_HELP_JA: &'static str = r#"plugin を削除する

使用方法: mm plugin remove <NAME>

引数:
  <NAME>  plugin 名

オプション:
      --project <PROJECT>  project toml のパス [既定値: mm.toml]
  -h, --help               ヘルプを表示する
"#;

pub const PLUGIN_REMOVE_HELP_EN: &'static str = r#"Remove a plugin

Usage: mm plugin remove <NAME>

Arguments:
  <NAME>  Plugin name

Options:
      --project <PROJECT>  Path to project toml [default: mm.toml]
  -h, --help               Print help
"#;

} // verus!

//! The command line's language handling: choosing the language, finding
//! which help to show, and translating messages.

use crate::help::{
    ROOT_HELP_JA, ROOT_HELP_EN, BUILD_HELP_JA, BUILD_HELP_EN, VALIDATE_HELP_JA, VALIDATE_HELP_EN, PREVIEW_HELP_JA, PREVIEW_HELP_EN, CLEANUP_HELP_JA, CLEANUP_HELP_EN, PACKAGE_HELP_JA, PACKAGE_HELP_EN, DOCTOR_HELP_JA, DOCTOR_HELP_EN, PLUGIN_HELP_JA, PLUGIN_HELP_EN, PLUGIN_INSTALL_HELP_JA, PLUGIN_INSTALL_HELP_EN, PLUGIN_UPDATE_HELP_JA, PLUGIN_UPDATE_HELP_EN, PLUGIN_REMOVE_HELP_JA, PLUGIN_REMOVE_HELP_EN,
};
use crate::paths::{join_path, parent, path_join, path_parent};
use crate::lock::PluginManager;
use crate::plugin::PluginReference;
use crate::project::{AssetMode, F64Bits, Project, ProjectSettings};
use crate::text::{occurs_at, occurs_at_exec, push_char, replace_all, replace_str};
use vstd::prelude::*;
use vstd::string::*;

verus! {

/// The display language of the command line.
#[derive(Debug, Clone, Copy, PartialEq, Eq, Structural)]
pub enum CliLanguage {
    Ja,
    En,
}

/// ASCII lowercase of one character, as `char::to_ascii_lowercase`.
pub open spec fn ascii_lower_char(c: char) -> char {
    if 'A' <= c <= 'Z' {
        ((c as u32) + 32) as char
    } else {
        c
    }
}

/// ASCII lowercase of a text, as `str::to_ascii_lowercase`.
pub open spec fn ascii_lower(s: Seq<char>) -> Seq<char> {
    s.map_values(|c: char| ascii_lower_char(c))
}

/// The language a `--lang` value or `MM_LANG` names, if any.
pub open spec fn language_named(value: Seq<char>) -> Option<CliLanguage> {
    let v = ascii_lower(value);
    if v == "en"@ || v == "english"@ {
        Some(CliLanguage::En)
    } else if v == "ja"@ || v == "jp"@ || v == "japanese"@ {
        Some(CliLanguage::Ja)
    } else {
        None
    }
}

fn ascii_lowercase(s: &str) -> (r: String)
    ensures
        r@ == ascii_lower(s@),
{
    let mut out = String::new();
    let len = s.unicode_len();
    let mut i: usize = 0;
    while i < len
        invariant
            len == s@.len(),
            i <= len,
            out@ == ascii_lower(s@.take(i as int)),
        decreases len - i,
    {
        let c = s.get_char(i);
        let lower = if 'A' <= c && c <= 'Z' {
            ((c as u32) + 32) as u8 as char
        } else {
            c
        };
        push_char(&mut out, lower);
        assert(out@ =~= ascii_lower(s@.take(i + 1)));
        i = i + 1;
    }
    assert(s@.take(len as int) =~= s@);
    out
}

fn text_is(a: &String, b: &str) -> (r: bool)
    ensures
        r == (a@ == b@),
{
    crate::lock::str_eq(a.as_str(), b)
}

/// The language a `--lang` value names, if any.
pub fn parse_language_value(value: &str) -> (r: Option<CliLanguage>)
    ensures
        r == language_named(value@),
{
    let v = ascii_lowercase(value);
    if text_is(&v, "en") || text_is(&v, "english") {
        Some(CliLanguage::En)
    } else if text_is(&v, "ja") || text_is(&v, "jp") || text_is(&v, "japanese") {
        Some(CliLanguage::Ja)
    } else {
        None
    }
}

/// The `--lang` choice among the arguments from position `i` on: the value
/// after the first `--lang`, or after the first `--lang=`.
pub open spec fn lang_arg_from(args: Seq<Seq<char>>, i: int) -> Option<CliLanguage>
    decreases args.len() - i,
{
    if i < 0 || i >= args.len() {
        None
    } else if args[i] == "--lang"@ {
        if i + 1 < args.len() {
            language_named(args[i + 1])
        } else {
            None
        }
    } else if args[i].len() >= 7 && args[i].take(7) == "--lang="@ {
        language_named(args[i].skip(7))
    } else {
        lang_arg_from(args, i + 1)
    }
}

/// The views of the arguments.
pub open spec fn arg_views(args: Seq<String>) -> Seq<Seq<char>> {
    args.map_values(|a: String| a@)
}

fn starts_with(s: &str, prefix: &str) -> (r: bool)
    ensures
        r == (s@.len() >= prefix@.len() && s@.take(prefix@.len() as int) == prefix@),
{
    let len = s.unicode_len();
    let n = prefix.unicode_len();
    let r = occurs_at_exec(s, len, prefix, n, 0);
    proof {
        if s@.len() >= prefix@.len() {
            assert(s@.subrange(0, n as int) =~= s@.take(n as int));
        }
    }
    r
}

/// The language that the arguments choose with `--lang`, if any.
pub fn language_from_args(args: &[String]) -> (r: Option<CliLanguage>)
    ensures
        r == lang_arg_from(arg_views(args@), 1),
{
    let ghost views = arg_views(args@);
    proof {
        reveal_strlit("--lang");
        reveal_strlit("--lang=");
    }
    let mut i: usize = 1;
    while i < args.len()
        invariant
            views == arg_views(args@),
            1 <= i,
            lang_arg_from(views, 1) == lang_arg_from(views, i as int),
        decreases args.len() - i,
    {
        proof {
            reveal_strlit("--lang");
            reveal_strlit("--lang=");
        }
        let arg = args[i].as_str();
        assert(arg@ == views[i as int]);
        if text_is(&args[i], "--lang") {
            if i + 1 < args.len() {
                assert(args[i + 1]@ == views[i + 1]);
                return parse_language_value(args[i + 1].as_str());
            }
            return None;
        }
        if starts_with(arg, "--lang=") {
            let value = arg.substring_char(7, arg.unicode_len());
            assert(value@ =~= views[i as int].skip(7));
            return parse_language_value(value);
        }
        i = i + 1;
    }
    None
}

/// The language to show: the `--lang` choice, else the one `MM_LANG`
/// (`env_lang`) names, else Japanese.
pub open spec fn resolved_language(language: Option<CliLanguage>, env_lang: Option<Seq<char>>) -> CliLanguage {
    match language {
        Some(l) => l,
        None => match env_lang {
            Some(v) => match language_named(v) {
                Some(l) => l,
                None => CliLanguage::Ja,
            },
            None => CliLanguage::Ja,
        },
    }
}

/// The language to show, given the `--lang` choice and the value of
/// `MM_LANG`.
pub fn resolve_language(language: Option<CliLanguage>, env_lang: Option<&str>) -> (r: CliLanguage)
    ensures
        r == resolved_language(language, match env_lang {
            Some(v) => Some(v@),
            None => None,
        }),
{
    match language {
        Some(l) => l,
        None => match env_lang {
            Some(v) => match parse_language_value(v) {
                Some(l) => l,
                None => CliLanguage::Ja,
            },
            None => CliLanguage::Ja,
        },
    }
}

} // verus!

verus! {

/// A help page of the command line.
#[derive(Debug, Clone, Copy, PartialEq, Eq, Structural)]
pub enum HelpTopic {
    Root,
    Build,
    Validate,
    Preview,
    Cleanup,
    Package,
    Doctor,
    Plugin,
    PluginInstall,
    PluginUpdate,
    PluginRemove,
}

/// A top-level command that takes no subcommand.
pub open spec fn is_leaf_command(a: Seq<char>) -> bool {
    a == "build"@ || a == "validate"@ || a == "preview"@ || a == "cleanup"@ || a == "package"@ || a
        == "doctor"@
}

/// A subcommand of `plugin`.
pub open spec fn is_plugin_command(a: Seq<char>) -> bool {
    a == "install"@ || a == "update"@ || a == "remove"@
}

/// An argument that asks for help.
pub open spec fn is_help_flag(a: Seq<char>) -> bool {
    a == "--help"@ || a == "-h"@ || a == "help"@
}

/// The command path named by the arguments from position `i` on, ignoring
/// options (and the value after `--lang`): a command, `plugin`, or `plugin`
/// and one of its subcommands.
pub open spec fn help_path_from(args: Seq<Seq<char>>, i: int, path: Seq<Seq<char>>, skip_next: bool) -> Seq<
    Seq<char>,
>
    decreases args.len() - i,
{
    if i < 0 || i >= args.len() {
        path
    } else {
        let a = args[i];
        if skip_next {
            help_path_from(args, i + 1, path, false)
        } else if a == "--lang"@ {
            help_path_from(args, i + 1, path, true)
        } else if (a.len() >= 7 && a.take(7) == "--lang="@) || is_help_flag(a) {
            help_path_from(args, i + 1, path, false)
        } else if a.len() > 0 && a[0] == '-' {
            help_path_from(args, i + 1, path, false)
        } else if path.len() == 0 && is_leaf_command(a) {
            path.push(a)
        } else if path.len() == 0 && a == "plugin"@ {
            help_path_from(args, i + 1, path.push(a), false)
        } else if path == seq!["plugin"@] && is_plugin_command(a) {
            path.push(a)
        } else {
            help_path_from(args, i + 1, path, false)
        }
    }
}

/// The help page of a command path.
pub open spec fn topic_of(path: Seq<Seq<char>>) -> HelpTopic {
    if path == seq!["build"@] {
        HelpTopic::Build
    } else if path == seq!["validate"@] {
        HelpTopic::Validate
    } else if path == seq!["preview"@] {
        HelpTopic::Preview
    } else if path == seq!["cleanup"@] {
        HelpTopic::Cleanup
    } else if path == seq!["package"@] {
        HelpTopic::Package
    } else if path == seq!["doctor"@] {
        HelpTopic::Doctor
    } else if path == seq!["plugin"@] {
        HelpTopic::Plugin
    } else if path == seq!["plugin"@, "install"@] {
        HelpTopic::PluginInstall
    } else if path == seq!["plugin"@, "update"@] {
        HelpTopic::PluginUpdate
    } else if path == seq!["plugin"@, "remove"@] {
        HelpTopic::PluginRemove
    } else {
        HelpTopic::Root
    }
}

/// The text of a help page in a language.
pub open spec fn help_page(language: CliLanguage, topic: HelpTopic) -> Seq<char> {
    match (language, topic) {
        (CliLanguage::Ja, HelpTopic::Build) => BUILD_HELP_JA@,
        (CliLanguage::En, HelpTopic::Build) => BUILD_HELP_EN@,
        (CliLanguage::Ja, HelpTopic::Validate) => VALIDATE_HELP_JA@,
        (CliLanguage::En, HelpTopic::Validate) => VALIDATE_HELP_EN@,
        (CliLanguage::Ja, HelpTopic::Preview) => PREVIEW_HELP_JA@,
        (CliLanguage::En, HelpTopic::Preview) => PREVIEW_HELP_EN@,
        (CliLanguage::Ja, HelpTopic::Cleanup) => CLEANUP_HELP_JA@,
        (CliLanguage::En, HelpTopic::Cleanup) => CLEANUP_HELP_EN@,
        (CliLanguage::Ja, HelpTopic::Package) => PACKAGE_HELP_JA@,
        (CliLanguage::En, HelpTopic::Package) => PACKAGE_HELP_EN@,
        (CliLanguage::Ja, HelpTopic::Doctor) => DOCTOR_HELP_JA@,
        (CliLanguage::En, HelpTopic::Doctor) => DOCTOR_HELP_EN@,
        (CliLanguage::Ja, HelpTopic::Plugin) => PLUGIN_HELP_JA@,
        (CliLanguage::En, HelpTopic::Plugin) => PLUGIN_HELP_EN@,
        (CliLanguage::Ja, HelpTopic::PluginInstall) => PLUGIN_INSTALL_HELP_JA@,
        (CliLanguage::En, HelpTopic::PluginInstall) => PLUGIN_INSTALL_HELP_EN@,
        (CliLanguage::Ja, HelpTopic::PluginUpdate) => PLUGIN_UPDATE_HELP_JA@,
        (CliLanguage::En, HelpTopic::PluginUpdate) => PLUGIN_UPDATE_HELP_EN@,
        (CliLanguage::Ja, HelpTopic::PluginRemove) => PLUGIN_REMOVE_HELP_JA@,
        (CliLanguage::En, HelpTopic::PluginRemove) => PLUGIN_REMOVE_HELP_EN@,
        (CliLanguage::Ja, HelpTopic::Root) => ROOT_HELP_JA@,
        (CliLanguage::En, HelpTopic::Root) => ROOT_HELP_EN@,
    }
}

fn is_one_of(a: &String, options: &[&str]) -> (r: bool)
    ensures
        r == exists|k: int| 0 <= k < options@.len() && a@ == (#[trigger] options@[k])@,
{
    let mut k: usize = 0;
    while k < options.len()
        invariant
            k <= options.len(),
            forall|j: int| 0 <= j < k ==> a@ != (#[trigger] options@[j])@,
        decreases options.len() - k,
    {
        if text_is(a, options[k]) {
            return true;
        }
        k = k + 1;
    }
    false
}

/// The command path that the arguments ask help for.
pub fn help_command_path(args: &[String]) -> (r: Vec<String>)
    ensures
        arg_views(r@) == help_path_from(arg_views(args@), 1, Seq::empty(), false),
{
    let ghost views = arg_views(args@);
    let mut path: Vec<String> = Vec::new();
    let mut skip_next = false;
    let mut i: usize = 1;
    assert(arg_views(path@) =~= Seq::<Seq<char>>::empty());
    while i < args.len()
        invariant
            views == arg_views(args@),
            1 <= i,
            path@.len() <= 1,
            path@.len() == 1 ==> arg_views(path@) == seq!["plugin"@],
            help_path_from(views, 1, Seq::empty(), false) == help_path_from(
                views,
                i as int,
                arg_views(path@),
                skip_next,
            ),
        decreases args.len() - i,
    {
        proof {
            reveal_strlit("--lang");
            reveal_strlit("--lang=");
            reveal_strlit("plugin");
        }
        let arg = &args[i];
        assert(arg@ == views[i as int]);
        let ghost p = arg_views(path@);
        if skip_next {
            skip_next = false;
        } else if text_is(arg, "--lang") {
            skip_next = true;
        } else if starts_with(arg.as_str(), "--lang=") || text_is(arg, "--help") || text_is(arg, "-h")
            || text_is(arg, "help") {
        } else if arg.as_str().unicode_len() > 0 && arg.as_str().get_char(0) == '-' {
        } else if path.len() == 0 && is_one_of(arg, &["build", "validate", "preview", "cleanup", "package", "doctor"]) {
            path.push(arg.clone());
            assert(arg_views(path@) =~= p.push(arg@));
            return path;
        } else if path.len() == 0 && text_is(arg, "plugin") {
            path.push(arg.clone());
            assert(arg_views(path@) =~= p.push(arg@));
        } else if path.len() == 1 && is_one_of(arg, &["install", "update", "remove"]) {
            path.push(arg.clone());
            assert(arg_views(path@) =~= p.push(arg@));
            return path;
        }
        i = i + 1;
    }
    path
}

} // verus!

verus! {

fn path_is(path: &[String], expected: &[&str]) -> (r: bool)
    ensures
        r == (arg_views(path@) == expected@.map_values(|e: &str| e@)),
{
    if path.len() != expected.len() {
        assert(arg_views(path@).len() != expected@.map_values(|e: &str| e@).len());
        return false;
    }
    let mut k: usize = 0;
    while k < path.len()
        invariant
            path.len() == expected.len(),
            k <= path.len(),
            forall|j: int| 0 <= j < k ==> path@[j]@ == expected@[j]@,
        decreases path.len() - k,
    {
        if !text_is(&path[k], expected[k]) {
            assert(arg_views(path@)[k as int] != expected@.map_values(|e: &str| e@)[k as int]);
            return false;
        }
        k = k + 1;
    }
    assert(arg_views(path@) =~= expected@.map_values(|e: &str| e@));
    true
}

/// The help page of a command path.
pub fn help_topic(path: &[String]) -> (r: HelpTopic)
    ensures
        r == topic_of(arg_views(path@)),
{
    proof {
        assert(["build"]@.map_values(|e: &str| e@) =~= seq!["build"@]);
        assert(["validate"]@.map_values(|e: &str| e@) =~= seq!["validate"@]);
        assert(["preview"]@.map_values(|e: &str| e@) =~= seq!["preview"@]);
        assert(["cleanup"]@.map_values(|e: &str| e@) =~= seq!["cleanup"@]);
        assert(["package"]@.map_values(|e: &str| e@) =~= seq!["package"@]);
        assert(["doctor"]@.map_values(|e: &str| e@) =~= seq!["doctor"@]);
        assert(["plugin"]@.map_values(|e: &str| e@) =~= seq!["plugin"@]);
        assert(["plugin", "install"]@.map_values(|e: &str| e@) =~= seq!["plugin"@, "install"@]);
        assert(["plugin", "update"]@.map_values(|e: &str| e@) =~= seq!["plugin"@, "update"@]);
        assert(["plugin", "remove"]@.map_values(|e: &str| e@) =~= seq!["plugin"@, "remove"@]);
    }
    if path_is(path, &["build"]) {
        HelpTopic::Build
    } else if path_is(path, &["validate"]) {
        HelpTopic::Validate
    } else if path_is(path, &["preview"]) {
        HelpTopic::Preview
    } else if path_is(path, &["cleanup"]) {
        HelpTopic::Cleanup
    } else if path_is(path, &["package"]) {
        HelpTopic::Package
    } else if path_is(path, &["doctor"]) {
        HelpTopic::Doctor
    } else if path_is(path, &["plugin"]) {
        HelpTopic::Plugin
    } else if path_is(path, &["plugin", "install"]) {
        HelpTopic::PluginInstall
    } else if path_is(path, &["plugin", "update"]) {
        HelpTopic::PluginUpdate
    } else if path_is(path, &["plugin", "remove"]) {
        HelpTopic::PluginRemove
    } else {
        HelpTopic::Root
    }
}

/// The help page for a command path in a language.
pub fn help_text(language: CliLanguage, path: &[String]) -> (r: &'static str)
    ensures
        r@ == help_page(language, topic_of(arg_views(path@))),
{
    match (language, help_topic(path)) {
        (CliLanguage::Ja, HelpTopic::Build) => BUILD_HELP_JA,
        (CliLanguage::En, HelpTopic::Build) => BUILD_HELP_EN,
        (CliLanguage::Ja, HelpTopic::Validate) => VALIDATE_HELP_JA,
        (CliLanguage::En, HelpTopic::Validate) => VALIDATE_HELP_EN,
        (CliLanguage::Ja, HelpTopic::Preview) => PREVIEW_HELP_JA,
        (CliLanguage::En, HelpTopic::Preview) => PREVIEW_HELP_EN,
        (CliLanguage::Ja, HelpTopic::Cleanup) => CLEANUP_HELP_JA,
        (CliLanguage::En, HelpTopic::Cleanup) => CLEANUP_HELP_EN,
        (CliLanguage::Ja, HelpTopic::Package) => PACKAGE_HELP_JA,
        (CliLanguage::En, HelpTopic::Package) => PACKAGE_HELP_EN,
        (CliLanguage::Ja, HelpTopic::Doctor) => DOCTOR_HELP_JA,
        (CliLanguage::En, HelpTopic::Doctor) => DOCTOR_HELP_EN,
        (CliLanguage::Ja, HelpTopic::Plugin) => PLUGIN_HELP_JA,
        (CliLanguage::En, HelpTopic::Plugin) => PLUGIN_HELP_EN,
        (CliLanguage::Ja, HelpTopic::PluginInstall) => PLUGIN_INSTALL_HELP_JA,
        (CliLanguage::En, HelpTopic::PluginInstall) => PLUGIN_INSTALL_HELP_EN,
        (CliLanguage::Ja, HelpTopic::PluginUpdate) => PLUGIN_UPDATE_HELP_JA,
        (CliLanguage::En, HelpTopic::PluginUpdate) => PLUGIN_UPDATE_HELP_EN,
        (CliLanguage::Ja, HelpTopic::PluginRemove) => PLUGIN_REMOVE_HELP_JA,
        (CliLanguage::En, HelpTopic::PluginRemove) => PLUGIN_REMOVE_HELP_EN,
        (CliLanguage::Ja, HelpTopic::Root) => ROOT_HELP_JA,
        (CliLanguage::En, HelpTopic::Root) => ROOT_HELP_EN,
    }
}

/// Some argument after the program name asks for help.
pub open spec fn asks_help(args: Seq<Seq<char>>) -> bool {
    exists|j: int| 1 <= j < args.len() && is_help_flag(#[trigger] args[j])
}

fn has_help_flag(args: &[String]) -> (r: bool)
    ensures
        r == asks_help(arg_views(args@)),
{
    let ghost views = arg_views(args@);
    let mut i: usize = 1;
    while i < args.len()
        invariant
            views == arg_views(args@),
            1 <= i,
            forall|j: int| 1 <= j < i && j < views.len() ==> !is_help_flag(#[trigger] views[j]),
        decreases args.len() - i,
    {
        assert(args@[i as int]@ == views[i as int]);
        if text_is(&args[i], "--help") || text_is(&args[i], "-h") || text_is(&args[i], "help") {
            assert(is_help_flag(views[i as int]));
            return true;
        }
        i = i + 1;
    }
    false
}

/// The localized help page the arguments ask for, if they ask for help;
/// `env_lang` is the value of `MM_LANG`.
pub fn localized_help(args: &[String], env_lang: Option<&str>) -> (r: Option<&'static str>)
    ensures
        !asks_help(arg_views(args@)) ==> r is None,
        asks_help(arg_views(args@)) ==> (r matches Some(t) && t@ == help_page(
            resolved_language(
                lang_arg_from(arg_views(args@), 1),
                match env_lang {
                    Some(v) => Some(v@),
                    None => None,
                },
            ),
            topic_of(help_path_from(arg_views(args@), 1, Seq::empty(), false)),
        )),
{
    if !has_help_flag(args) {
        return None;
    }
    let language = resolve_language(language_from_args(args), env_lang);
    let path = help_command_path(args);
    Some(help_text(language, path.as_slice()))
}

} // verus!

verus! {

/// The Japanese message fragments that English output replaces, each with
/// its English text, in the order they are applied.
pub open spec fn translations() -> Seq<(Seq<char>, Seq<char>)> {
    seq![
        ("プロジェクトを読み込めません"@, "failed to read project"@),
        ("mm.toml の parse に失敗しました"@, "failed to parse mm.toml"@),
        ("settings.title は必須です"@, "settings.title is required"@),
        ("settings.width と settings.height は 1 以上である必要があります"@, "settings.width and settings.height must be at least 1"@),
        ("settings.fps は 1 以上である必要があります"@, "settings.fps must be at least 1"@),
        ("settings.sample_rate は 1 以上である必要があります"@, "settings.sample_rate must be at least 1"@),
        ("settings.duration は 0 より大きい必要があります"@, "settings.duration must be greater than 0"@),
        ("preview 出力先ディレクトリを作成できません"@, "failed to create preview output directory"@),
        ("preview 画像を保存できません"@, "failed to save preview image"@),
        ("cache を削除できません"@, "failed to remove cache"@),
        ("ffmpeg が見つかりません。MM_FFMPEG または PATH を確認してください"@, "ffmpeg was not found. Check MM_FFMPEG or PATH"@),
        ("ffprobe が見つかりません。PATH を確認してください"@, "ffprobe was not found. Check PATH"@),
    ]
}

/// `message` after replacing, in order, each fragment of `table` by its
/// translation.
pub open spec fn apply_translations(message: Seq<char>, table: Seq<(Seq<char>, Seq<char>)>) -> Seq<char>
    decreases table.len(),
{
    if table.len() == 0 {
        message
    } else {
        apply_translations(replace_all(message, table[0].0, table[0].1), table.skip(1))
    }
}

/// An error message as shown in a language: Japanese messages are shown as
/// they are; English ones have their known fragments translated.
pub open spec fn translated_message(language: CliLanguage, message: Seq<char>) -> Seq<char> {
    match language {
        CliLanguage::Ja => message,
        CliLanguage::En => apply_translations(message, translations()),
    }
}

/// An error message in the display language.
pub fn translate_error_message(language: CliLanguage, message: &str) -> (r: String)
    ensures
        r@ == translated_message(language, message@),
{
    if let CliLanguage::Ja = language {
        return message.to_owned();
    }
    let table: [(&str, &str); 12] = [
        ("プロジェクトを読み込めません", "failed to read project"),
        ("mm.toml の parse に失敗しました", "failed to parse mm.toml"),
        ("settings.title は必須です", "settings.title is required"),
        ("settings.width と settings.height は 1 以上である必要があります", "settings.width and settings.height must be at least 1"),
        ("settings.fps は 1 以上である必要があります", "settings.fps must be at least 1"),
        ("settings.sample_rate は 1 以上である必要があります", "settings.sample_rate must be at least 1"),
        ("settings.duration は 0 より大きい必要があります", "settings.duration must be greater than 0"),
        ("preview 出力先ディレクトリを作成できません", "failed to create preview output directory"),
        ("preview 画像を保存できません", "failed to save preview image"),
        ("cache を削除できません", "failed to remove cache"),
        ("ffmpeg が見つかりません。MM_FFMPEG または PATH を確認してください", "ffmpeg was not found. Check MM_FFMPEG or PATH"),
        ("ffprobe が見つかりません。PATH を確認してください", "ffprobe was not found. Check PATH"),
    ];
    let ghost views = table@.map_values(|p: (&str, &str)| (p.0@, p.1@));
    assert(views =~= translations());
    let mut translated = message.to_owned();
    let mut k: usize = 0;
    assert(views.skip(0) =~= views);
    while k < 12
        invariant
            k <= 12,
            views == table@.map_values(|p: (&str, &str)| (p.0@, p.1@)),
            views.len() == 12,
            apply_translations(translated@, views.skip(k as int)) == apply_translations(message@, views),
        decreases 12 - k,
    {
        let (ja, en) = table[k];
        assert(views[k as int] == (ja@, en@));
        assert(views.skip(k as int).skip(1) =~= views.skip(k + 1));
        translated = replace_str(translated.as_str(), ja, en);
        k = k + 1;
    }
    translated
}

/// The label of the first line of an error report.
pub open spec fn error_label_text(language: CliLanguage) -> Seq<char> {
    match language {
        CliLanguage::Ja => "エラー"@,
        CliLanguage::En => "error"@,
    }
}

/// The label of each cause line of an error report.
pub open spec fn cause_label_text(language: CliLanguage) -> Seq<char> {
    match language {
        CliLanguage::Ja => "原因"@,
        CliLanguage::En => "caused by"@,
    }
}

/// The label of the first line of an error report.
pub fn error_label(language: CliLanguage) -> (r: &'static str)
    ensures
        r@ == error_label_text(language),
{
    match language {
        CliLanguage::Ja => "エラー",
        CliLanguage::En => "error",
    }
}

/// The label of each cause line of an error report.
pub fn cause_label(language: CliLanguage) -> (r: &'static str)
    ensures
        r@ == cause_label_text(language),
{
    match language {
        CliLanguage::Ja => "原因",
        CliLanguage::En => "caused by",
    }
}

/// Line `k` of an error report: the error itself first, then its causes.
pub open spec fn error_line(language: CliLanguage, k: int, message: Seq<char>) -> Seq<char> {
    (if k == 0 {
        error_label_text(language)
    } else {
        cause_label_text(language)
    }) + ": "@ + translated_message(language, message)
}

/// The first `n` lines of an error report, joined by newlines.
pub open spec fn error_report(language: CliLanguage, chain: Seq<Seq<char>>, n: int) -> Seq<char>
    decreases n,
{
    if n <= 0 {
        Seq::empty()
    } else if n == 1 {
        error_line(language, 0, chain[0])
    } else {
        error_report(language, chain, n - 1) + "\n"@ + error_line(language, n - 1, chain[n - 1])
    }
}

/// The report of an error whose message and causes' messages are `chain`,
/// outermost first.
pub fn localized_error(language: CliLanguage, chain: &[String]) -> (r: String)
    requires
        chain@.len() > 0,
    ensures
        r@ == error_report(language, arg_views(chain@), chain@.len() as int),
{
    let ghost views = arg_views(chain@);
    let mut out = String::new();
    let mut k: usize = 0;
    while k < chain.len()
        invariant
            views == arg_views(chain@),
            k <= chain.len(),
            out@ == error_report(language, views, k as int),
        decreases chain.len() - k,
    {
        assert(chain@[k as int]@ == views[k as int]);
        let ghost before = out@;
        if k > 0 {
            out.append("\n");
        }
        if k == 0 {
            out.append(error_label(language));
        } else {
            out.append(cause_label(language));
        }
        out.append(": ");
        let line = translate_error_message(language, chain[k].as_str());
        out.append(line.as_str());
        assert(out@ =~= error_report(language, views, k + 1));
        k = k + 1;
    }
    out
}

/// The confirmation messages of the commands in one language.
#[derive(Debug, Clone, Copy)]
pub struct Messages {
    pub build_done: &'static str,
    pub validate_done: &'static str,
    pub preview_done: &'static str,
    pub cleanup_done: &'static str,
    pub package_done: &'static str,
    pub not_found: &'static str,
}

impl Messages {
    /// The messages of `language`.
    pub fn new(language: CliLanguage) -> (r: Self)
        ensures
            language == CliLanguage::Ja ==> {
                &&& r.build_done@ == "build が完了しました"@
                &&& r.validate_done@ == "validate が完了しました"@
                &&& r.preview_done@ == "preview を出力しました"@
                &&& r.cleanup_done@ == "cleanup が完了しました"@
                &&& r.package_done@ == "package の検証が完了しました"@
                &&& r.not_found@ == "未検出"@
            },
            language == CliLanguage::En ==> {
                &&& r.build_done@ == "build completed"@
                &&& r.validate_done@ == "validate completed"@
                &&& r.preview_done@ == "preview exported"@
                &&& r.cleanup_done@ == "cleanup completed"@
                &&& r.package_done@ == "package validation completed"@
                &&& r.not_found@ == "not found"@
            },
    {
        match language {
            CliLanguage::Ja => Messages {
                build_done: "build が完了しました",
                validate_done: "validate が完了しました",
                preview_done: "preview を出力しました",
                cleanup_done: "cleanup が完了しました",
                package_done: "package の検証が完了しました",
                not_found: "未検出",
            },
            CliLanguage::En => Messages {
                build_done: "build completed",
                validate_done: "validate completed",
                preview_done: "preview exported",
                cleanup_done: "cleanup completed",
                package_done: "package validation completed",
                not_found: "not found",
            },
        }
    }
}

/// The directory of a project file: its parent, or `.` when it has none.
pub open spec fn project_root_of(project_path: Seq<char>) -> Seq<char> {
    match path_parent(project_path) {
        Some(p) => p,
        None => "."@,
    }
}

/// The directory of a project file: its parent, or `.` when it has none.
pub fn project_root(project_path: &str) -> (r: String)
    ensures
        r@ == project_root_of(project_path@),
{
    match parent(project_path) {
        Some(p) => p,
        None => String::from_str("."),
    }
}

/// The bit pattern of the binary64 value 1.0.
pub const F64_ONE_BITS: u64 = 0x3ff0_0000_0000_0000u64;

/// The placeholder project that `doctor` hands the ffmpeg lookup: a one
/// second, one pixel project titled `doctor`, with nothing in it.
pub fn empty_project() -> (r: Project)
    ensures
        r.settings.title@ == "doctor"@,
        r.settings.width == 1,
        r.settings.height == 1,
        r.settings.fps == 1,
        r.settings.sample_rate == 1,
        r.settings.duration.bits == F64_ONE_BITS,
        r.settings.output@ == "output.mp4"@,
        r.settings.asset_mode == AssetMode::Copy,
        r.settings.ffmpeg is None,
        r.assets@.len() == 0,
        r.tracks@.len() == 0,
        r.scenes@.len() == 0,
        r.groups@.len() == 0,
        r.plugins@.len() == 0,
{
    Project {
        settings: ProjectSettings {
            title: String::from_str("doctor"),
            width: 1,
            height: 1,
            fps: 1,
            sample_rate: 1,
            duration: F64Bits { bits: F64_ONE_BITS },
            output: String::from_str("output.mp4"),
            asset_mode: AssetMode::Copy,
            ffmpeg: None,
        },
        assets: Vec::new(),
        tracks: Vec::new(),
        scenes: Vec::new(),
        groups: Vec::new(),
        plugins: Vec::new(),
    }
}

/// The manager of a project's plugins: the user's plugin directory, and the
/// lock `mm.lock` beside the project file.
pub fn project_plugin_manager(project: &str, plugin_dir: &str) -> (r: PluginManager)
    ensures
        r.plugin_dir@ == plugin_dir@,
        r.lock_path@ == path_join(project_root_of(project@), "mm.lock"@),
{
    let root = project_root(project);
    let lock = join_path(root.as_str(), "mm.lock");
    PluginManager::new(plugin_dir, lock.as_str())
}

/// A `plugin` subcommand with its arguments.
#[derive(Debug, Clone)]
pub enum PluginCommand {
    Install {
        name: Option<String>,
        manifest: Option<String>,
        project: String,
        global_config: Option<String>,
    },
    Update { name: String, project: String },
    Remove { name: String, project: String },
}

/// What a `plugin` subcommand does, with its manager chosen.
#[derive(Debug, Clone)]
pub enum PluginAction {
    /// Install the plugin whose manifest file is `manifest`.
    InstallManifest { manager: PluginManager, manifest: String },
    /// Install a plugin known only by name.
    InstallNamed { manager: PluginManager, plugin: PluginReference },
    /// Install the plugins that the global configuration and the project
    /// name, recording them in the project's lock.
    InstallConfigured { manager: PluginManager, global_config: String, project: String },
    /// Update an installed plugin of the project.
    Update { manager: PluginManager, plugin: PluginReference },
    /// Remove an installed plugin of the project.
    Remove { manager: PluginManager, plugin: PluginReference },
}

/// The manager of the user's plugins: the plugin directory and the lock
/// `mm.lock` in the working directory.
pub open spec fn user_manager(m: PluginManager, plugin_dir: Seq<char>) -> bool {
    m.plugin_dir@ == plugin_dir && m.lock_path@ == "mm.lock"@
}

/// The manager of a project's plugins.
pub open spec fn project_manager(m: PluginManager, plugin_dir: Seq<char>, project: Seq<char>) -> bool {
    m.plugin_dir@ == plugin_dir && m.lock_path@ == path_join(project_root_of(project), "mm.lock"@)
}

/// What a `plugin` subcommand does: `--manifest` wins over a name, and with
/// neither the configured plugins are installed; `plugin_dir` is the user's
/// plugin directory and `default_global_config` the global configuration
/// used when none is given.
pub fn plugin(command: PluginCommand, plugin_dir: &str, default_global_config: &str) -> (r: PluginAction)
    ensures
        match command {
            PluginCommand::Install { name, manifest, project, global_config } => match manifest {
                Some(m) => r matches PluginAction::InstallManifest { manager, manifest: f } && user_manager(
                    manager,
                    plugin_dir@,
                ) && f == m,
                None => match name {
                    Some(n) => r matches PluginAction::InstallNamed { manager, plugin } && user_manager(
                        manager,
                        plugin_dir@,
                    ) && plugin.name == n,
                    None => r matches PluginAction::InstallConfigured {
                        manager,
                        global_config: g,
                        project: p,
                    } && project_manager(manager, plugin_dir@, project@) && p == project && g@ == (
                    match global_config {
                        Some(c) => c@,
                        None => default_global_config@,
                    }),
                },
            },
            PluginCommand::Update { name, project } => r matches PluginAction::Update {
                manager,
                plugin,
            } && project_manager(manager, plugin_dir@, project@) && plugin.name == name,
            PluginCommand::Remove { name, project } => r matches PluginAction::Remove {
                manager,
                plugin,
            } && project_manager(manager, plugin_dir@, project@) && plugin.name == name,
        },
{
    match command {
        PluginCommand::Install { name, manifest, project, global_config } => {
            if let Some(m) = manifest {
                PluginAction::InstallManifest { manager: PluginManager::new(plugin_dir, "mm.lock"), manifest: m }
            } else if let Some(n) = name {
                PluginAction::InstallNamed {
                    manager: PluginManager::new(plugin_dir, "mm.lock"),
                    plugin: PluginReference { name: n },
                }
            } else {
                let manager = project_plugin_manager(project.as_str(), plugin_dir);
                let global = match global_config {
                    Some(c) => c,
                    None => default_global_config.to_owned(),
                };
                PluginAction::InstallConfigured { manager, global_config: global, project }
            }
        },
        PluginCommand::Update { name, project } => PluginAction::Update {
            manager: project_plugin_manager(project.as_str(), plugin_dir),
            plugin: PluginReference { name },
        },
        PluginCommand::Remove { name, project } => PluginAction::Remove {
            manager: project_plugin_manager(project.as_str(), plugin_dir),
            plugin: PluginReference { name },
        },
    }
}

} // verus!

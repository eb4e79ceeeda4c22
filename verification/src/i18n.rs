//! Localization: supported locales, symbolic string keys, the translation
//! table, and template substitution for notification strings.

use vstd::prelude::*;

use crate::text::{eq_lower, lower_seq, replace_all, replace_marker};

verus! {

/// Supported display languages.
#[derive(Clone, Copy, PartialEq, Eq, Structural, Debug)]
pub enum Locale {
    English,
    Chinese,
    Japanese,
}

/// Symbolic keys naming every localizable string.
#[derive(Clone, Copy, PartialEq, Eq, Structural, Debug)]
pub enum StringKey {
    OpenSunshine,
    VddBaseDisplay,
    VddCreate,
    VddClose,
    VddPersistent,
    VddPersistentConfirmTitle,
    VddPersistentConfirmMsg,
    AdvancedSettings,
    ImportConfig,
    ExportConfig,
    ResetToDefault,
    CloseApp,
    CloseAppConfirmTitle,
    CloseAppConfirmMsg,
    Language,
    Chinese,
    English,
    Japanese,
    StarProject,
    VisitProject,
    VisitProjectSunshine,
    VisitProjectMoonlight,
    ResetDisplayDeviceConfig,
    ResetDisplayConfirmTitle,
    ResetDisplayConfirmMsg,
    Restart,
    Quit,
    StreamStarted,
    StreamingStartedFor,
    StreamPaused,
    StreamingPausedFor,
    ApplicationStopped,
    ApplicationStoppedMsg,
    IncomingPairingRequest,
    ClickToCompletePairing,
    QuitTitle,
    QuitMessage,
    ErrorTitle,
    ErrorNoUserSession,
    ImportSuccessTitle,
    ImportSuccessMsg,
    ImportErrorTitle,
    ImportErrorWrite,
    ImportErrorRead,
    ImportErrorException,
    ExportSuccessTitle,
    ExportSuccessMsg,
    ExportErrorTitle,
    ExportErrorWrite,
    ExportErrorNoConfig,
    ExportErrorException,
    ResetConfirmTitle,
    ResetConfirmMsg,
    ResetSuccessTitle,
    ResetSuccessMsg,
    ResetErrorTitle,
    ResetErrorMsg,
    ResetErrorException,
    FileDialogSelectImport,
    FileDialogSaveExport,
    FileDialogConfigFiles,
    FileDialogAllFiles,
}

/// The english text for a string key.
pub open spec fn english_text(key: StringKey) -> Seq<char> {
    match key {
        StringKey::OpenSunshine => "Open Sunshine"@,
        StringKey::VddBaseDisplay => "Foundation Display"@,
        StringKey::VddCreate => "Create"@,
        StringKey::VddClose => "Close"@,
        StringKey::VddPersistent => "Keep Enabled"@,
        StringKey::VddPersistentConfirmTitle => "Enable Keep VDD Mode"@,
        StringKey::VddPersistentConfirmMsg => "Enabling this mode will keep the virtual display active at all times.\n\nAre you sure you want to enable it?"@,
        StringKey::AdvancedSettings => "Advanced Settings"@,
        StringKey::ImportConfig => "Import Config"@,
        StringKey::ExportConfig => "Export Config"@,
        StringKey::ResetToDefault => "Reset to Default"@,
        StringKey::CloseApp => "Clear Cache"@,
        StringKey::CloseAppConfirmTitle => "Clear Cache"@,
        StringKey::CloseAppConfirmMsg => "This will terminate the current streaming application.\n\nAre you sure you want to continue?"@,
        StringKey::Language => "Language"@,
        StringKey::Chinese => "中文"@,
        StringKey::English => "English"@,
        StringKey::Japanese => "日本語"@,
        StringKey::StarProject => "Star Project"@,
        StringKey::VisitProject => "Visit Project"@,
        StringKey::VisitProjectSunshine => "Sunshine-Foundation"@,
        StringKey::VisitProjectMoonlight => "Moonlight-vplus"@,
        StringKey::ResetDisplayDeviceConfig => "Reset Display Memory"@,
        StringKey::ResetDisplayConfirmTitle => "Reset Display Configuration"@,
        StringKey::ResetDisplayConfirmMsg => "This will reset all display device configuration.\n\nAre you sure you want to continue?"@,
        StringKey::Restart => "Restart"@,
        StringKey::Quit => "Quit"@,
        StringKey::StreamStarted => "Stream Started"@,
        StringKey::StreamingStartedFor => "Streaming started for %s"@,
        StringKey::StreamPaused => "Stream Paused"@,
        StringKey::StreamingPausedFor => "Streaming paused for %s"@,
        StringKey::ApplicationStopped => "Application Stopped"@,
        StringKey::ApplicationStoppedMsg => "Application %s successfully stopped"@,
        StringKey::IncomingPairingRequest => "Incoming PIN Request From: %s"@,
        StringKey::ClickToCompletePairing => "Click here to enter PIN"@,
        StringKey::QuitTitle => "Wait! Don't Leave Me! T_T"@,
        StringKey::QuitMessage => "Nooo! You can't just quit like that!\nAre you really REALLY sure you want to leave?\nI'll miss you... but okay, if you must...\n\n(This will also close the Sunshine GUI application.)"@,
        StringKey::ErrorTitle => "Error"@,
        StringKey::ErrorNoUserSession => "Cannot open file dialog: No active user session found."@,
        StringKey::ImportSuccessTitle => "Import Success"@,
        StringKey::ImportSuccessMsg => "Configuration imported successfully!\nPlease restart Sunshine to apply changes."@,
        StringKey::ImportErrorTitle => "Import Error"@,
        StringKey::ImportErrorWrite => "Failed to import configuration file."@,
        StringKey::ImportErrorRead => "Failed to read the selected configuration file."@,
        StringKey::ImportErrorException => "An error occurred while importing configuration."@,
        StringKey::ExportSuccessTitle => "Export Success"@,
        StringKey::ExportSuccessMsg => "Configuration exported successfully!"@,
        StringKey::ExportErrorTitle => "Export Error"@,
        StringKey::ExportErrorWrite => "Failed to export configuration file."@,
        StringKey::ExportErrorNoConfig => "No configuration found to export."@,
        StringKey::ExportErrorException => "An error occurred while exporting configuration."@,
        StringKey::ResetConfirmTitle => "Reset Configuration"@,
        StringKey::ResetConfirmMsg => "This will reset all configuration to default values.\nThis action cannot be undone.\n\nDo you want to continue?"@,
        StringKey::ResetSuccessTitle => "Reset Success"@,
        StringKey::ResetSuccessMsg => "Configuration has been reset to default values.\nPlease restart Sunshine to apply changes."@,
        StringKey::ResetErrorTitle => "Reset Error"@,
        StringKey::ResetErrorMsg => "Failed to reset configuration file."@,
        StringKey::ResetErrorException => "An error occurred while resetting configuration."@,
        StringKey::FileDialogSelectImport => "Select Configuration File to Import"@,
        StringKey::FileDialogSaveExport => "Save Configuration File As"@,
        StringKey::FileDialogConfigFiles => "Configuration Files"@,
        StringKey::FileDialogAllFiles => "All Files"@,
    }
}

/// The chinese text for a string key.
pub open spec fn chinese_text(key: StringKey) -> Seq<char> {
    match key {
        StringKey::OpenSunshine => "打开 Sunshine"@,
        StringKey::VddBaseDisplay => "基地显示器"@,
        StringKey::VddCreate => "创建"@,
        StringKey::VddClose => "关闭"@,
        StringKey::VddPersistent => "保持启用"@,
        StringKey::VddPersistentConfirmTitle => "启用保持虚拟显示器模式"@,
        StringKey::VddPersistentConfirmMsg => "启用此模式将使虚拟显示器始终保持活动状态。\n\n确定要启用吗？"@,
        StringKey::AdvancedSettings => "高级设置"@,
        StringKey::ImportConfig => "导入配置"@,
        StringKey::ExportConfig => "导出配置"@,
        StringKey::ResetToDefault => "恢复默认"@,
        StringKey::CloseApp => "清理应用缓存"@,
        StringKey::CloseAppConfirmTitle => "清理应用缓存"@,
        StringKey::CloseAppConfirmMsg => "这将终止当前正在串流的应用程序。\n\n确定要继续吗？"@,
        StringKey::Language => "语言"@,
        StringKey::Chinese => "中文"@,
        StringKey::English => "English"@,
        StringKey::Japanese => "日本語"@,
        StringKey::StarProject => "Star项目"@,
        StringKey::VisitProject => "访问项目"@,
        StringKey::VisitProjectSunshine => "Sunshine-Foundation"@,
        StringKey::VisitProjectMoonlight => "Moonlight-vplus"@,
        StringKey::ResetDisplayDeviceConfig => "重置显示器记忆"@,
        StringKey::ResetDisplayConfirmTitle => "重置显示器配置"@,
        StringKey::ResetDisplayConfirmMsg => "这将重置所有显示器设备配置。\n\n确定要继续吗？"@,
        StringKey::Restart => "重新启动"@,
        StringKey::Quit => "退出"@,
        StringKey::StreamStarted => "串流已开始"@,
        StringKey::StreamingStartedFor => "已开始串流：%s"@,
        StringKey::StreamPaused => "串流已暂停"@,
        StringKey::StreamingPausedFor => "已暂停串流：%s"@,
        StringKey::ApplicationStopped => "应用已停止"@,
        StringKey::ApplicationStoppedMsg => "应用 %s 已成功停止"@,
        StringKey::IncomingPairingRequest => "来自 %s 的PIN请求"@,
        StringKey::ClickToCompletePairing => "点击此处完成PIN验证"@,
        StringKey::QuitTitle => "真的要退出吗"@,
        StringKey::QuitMessage => "你不能退出!\n那么想退吗? 真拿你没办法呢, 继续点一下吧~\n\n这将同时关闭Sunshine GUI应用程序。"@,
        StringKey::ErrorTitle => "错误"@,
        StringKey::ErrorNoUserSession => "无法打开文件对话框：未找到活动的用户会话。"@,
        StringKey::ImportSuccessTitle => "导入成功"@,
        StringKey::ImportSuccessMsg => "配置已成功导入！\n请重新启动 Sunshine 以应用更改。"@,
        StringKey::ImportErrorTitle => "导入失败"@,
        StringKey::ImportErrorWrite => "无法写入配置文件。"@,
        StringKey::ImportErrorRead => "无法读取所选的配置文件。"@,
        StringKey::ImportErrorException => "导入配置时发生错误。"@,
        StringKey::ExportSuccessTitle => "导出成功"@,
        StringKey::ExportSuccessMsg => "配置已成功导出！"@,
        StringKey::ExportErrorTitle => "导出失败"@,
        StringKey::ExportErrorWrite => "无法导出配置文件。"@,
        StringKey::ExportErrorNoConfig => "未找到可导出的配置。"@,
        StringKey::ExportErrorException => "导出配置时发生错误。"@,
        StringKey::ResetConfirmTitle => "重置配置"@,
        StringKey::ResetConfirmMsg => "这将把所有配置重置为默认值。\n此操作无法撤销。\n\n确定要继续吗？"@,
        StringKey::ResetSuccessTitle => "重置成功"@,
        StringKey::ResetSuccessMsg => "配置已重置为默认值。\n请重新启动 Sunshine 以应用更改。"@,
        StringKey::ResetErrorTitle => "重置失败"@,
        StringKey::ResetErrorMsg => "无法重置配置文件。"@,
        StringKey::ResetErrorException => "重置配置时发生错误。"@,
        StringKey::FileDialogSelectImport => "选择要导入的配置文件"@,
        StringKey::FileDialogSaveExport => "配置文件另存为"@,
        StringKey::FileDialogConfigFiles => "配置文件"@,
        StringKey::FileDialogAllFiles => "所有文件"@,
    }
}

/// The japanese text for a string key.
pub open spec fn japanese_text(key: StringKey) -> Seq<char> {
    match key {
        StringKey::OpenSunshine => "Sunshineを開く"@,
        StringKey::VddBaseDisplay => "仮想ディスプレイ"@,
        StringKey::VddCreate => "作成"@,
        StringKey::VddClose => "閉じる"@,
        StringKey::VddPersistent => "常時有効"@,
        StringKey::VddPersistentConfirmTitle => "仮想ディスプレイの常時有効モード"@,
        StringKey::VddPersistentConfirmMsg => "このモードを有効にすると、仮想ディスプレイは常にアクティブな状態を維持します。\n\n有効にしますか？"@,
        StringKey::AdvancedSettings => "詳細設定"@,
        StringKey::ImportConfig => "設定をインポート"@,
        StringKey::ExportConfig => "設定をエクスポート"@,
        StringKey::ResetToDefault => "デフォルトに戻す"@,
        StringKey::CloseApp => "キャッシュをクリア"@,
        StringKey::CloseAppConfirmTitle => "キャッシュをクリア"@,
        StringKey::CloseAppConfirmMsg => "現在ストリーミング中のアプリケーションを終了します。\n\n続行しますか？"@,
        StringKey::Language => "言語"@,
        StringKey::Chinese => "中文"@,
        StringKey::English => "English"@,
        StringKey::Japanese => "日本語"@,
        StringKey::StarProject => "スターを付ける"@,
        StringKey::VisitProject => "プロジェクトを訪問"@,
        StringKey::VisitProjectSunshine => "Sunshine-Foundation"@,
        StringKey::VisitProjectMoonlight => "Moonlight-vplus"@,
        StringKey::ResetDisplayDeviceConfig => "ディスプレイメモリをリセット"@,
        StringKey::ResetDisplayConfirmTitle => "ディスプレイ設定をリセット"@,
        StringKey::ResetDisplayConfirmMsg => "すべてのディスプレイデバイス設定をリセットします。\n\n続行しますか？"@,
        StringKey::Restart => "再起動"@,
        StringKey::Quit => "終了"@,
        StringKey::StreamStarted => "ストリーム開始"@,
        StringKey::StreamingStartedFor => "%s のストリーミングを開始しました"@,
        StringKey::StreamPaused => "ストリーム一時停止"@,
        StringKey::StreamingPausedFor => "%s のストリーミングを一時停止しました"@,
        StringKey::ApplicationStopped => "アプリケーション停止"@,
        StringKey::ApplicationStoppedMsg => "アプリケーション %s が正常に停止しました"@,
        StringKey::IncomingPairingRequest => "%s からのPIN要求"@,
        StringKey::ClickToCompletePairing => "クリックしてPIN認証を完了"@,
        StringKey::QuitTitle => "本当に終了しますか？"@,
        StringKey::QuitMessage => "終了できません！\n本当に終了したいですか？\n\nこれによりSunshine GUIアプリケーションも閉じられます。"@,
        StringKey::ErrorTitle => "エラー"@,
        StringKey::ErrorNoUserSession => "ファイルダイアログを開けません：アクティブなユーザーセッションが見つかりません。"@,
        StringKey::ImportSuccessTitle => "インポート成功"@,
        StringKey::ImportSuccessMsg => "設定のインポートに成功しました！\n変更を適用するにはSunshineを再起動してください。"@,
        StringKey::ImportErrorTitle => "インポート失敗"@,
        StringKey::ImportErrorWrite => "設定ファイルを書き込めませんでした。"@,
        StringKey::ImportErrorRead => "選択した設定ファイルを読み取れませんでした。"@,
        StringKey::ImportErrorException => "設定のインポート中にエラーが発生しました。"@,
        StringKey::ExportSuccessTitle => "エクスポート成功"@,
        StringKey::ExportSuccessMsg => "設定のエクスポートに成功しました！"@,
        StringKey::ExportErrorTitle => "エクスポート失敗"@,
        StringKey::ExportErrorWrite => "設定ファイルをエクスポートできませんでした。"@,
        StringKey::ExportErrorNoConfig => "エクスポートする設定が見つかりません。"@,
        StringKey::ExportErrorException => "設定のエクスポート中にエラーが発生しました。"@,
        StringKey::ResetConfirmTitle => "設定のリセット"@,
        StringKey::ResetConfirmMsg => "すべての設定をデフォルト値にリセットします。\nこの操作は元に戻せません。\n\n続行しますか？"@,
        StringKey::ResetSuccessTitle => "リセット成功"@,
        StringKey::ResetSuccessMsg => "設定をデフォルト値にリセットしました。\n変更を適用するにはSunshineを再起動してください。"@,
        StringKey::ResetErrorTitle => "リセット失敗"@,
        StringKey::ResetErrorMsg => "設定ファイルをリセットできませんでした。"@,
        StringKey::ResetErrorException => "設定のリセット中にエラーが発生しました。"@,
        StringKey::FileDialogSelectImport => "インポートする設定ファイルを選択"@,
        StringKey::FileDialogSaveExport => "設定ファイルに名前を付けて保存"@,
        StringKey::FileDialogConfigFiles => "設定ファイル"@,
        StringKey::FileDialogAllFiles => "すべてのファイル"@,
    }
}

fn english_str(key: StringKey) -> (r: &'static str)
    ensures
        r@ == english_text(key),
{
    match key {
        StringKey::OpenSunshine => "Open Sunshine",
        StringKey::VddBaseDisplay => "Foundation Display",
        StringKey::VddCreate => "Create",
        StringKey::VddClose => "Close",
        StringKey::VddPersistent => "Keep Enabled",
        StringKey::VddPersistentConfirmTitle => "Enable Keep VDD Mode",
        StringKey::VddPersistentConfirmMsg => "Enabling this mode will keep the virtual display active at all times.\n\nAre you sure you want to enable it?",
        StringKey::AdvancedSettings => "Advanced Settings",
        StringKey::ImportConfig => "Import Config",
        StringKey::ExportConfig => "Export Config",
        StringKey::ResetToDefault => "Reset to Default",
        StringKey::CloseApp => "Clear Cache",
        StringKey::CloseAppConfirmTitle => "Clear Cache",
        StringKey::CloseAppConfirmMsg => "This will terminate the current streaming application.\n\nAre you sure you want to continue?",
        StringKey::Language => "Language",
        StringKey::Chinese => "中文",
        StringKey::English => "English",
        StringKey::Japanese => "日本語",
        StringKey::StarProject => "Star Project",
        StringKey::VisitProject => "Visit Project",
        StringKey::VisitProjectSunshine => "Sunshine-Foundation",
        StringKey::VisitProjectMoonlight => "Moonlight-vplus",
        StringKey::ResetDisplayDeviceConfig => "Reset Display Memory",
        StringKey::ResetDisplayConfirmTitle => "Reset Display Configuration",
        StringKey::ResetDisplayConfirmMsg => "This will reset all display device configuration.\n\nAre you sure you want to continue?",
        StringKey::Restart => "Restart",
        StringKey::Quit => "Quit",
        StringKey::StreamStarted => "Stream Started",
        StringKey::StreamingStartedFor => "Streaming started for %s",
        StringKey::StreamPaused => "Stream Paused",
        StringKey::StreamingPausedFor => "Streaming paused for %s",
        StringKey::ApplicationStopped => "Application Stopped",
        StringKey::ApplicationStoppedMsg => "Application %s successfully stopped",
        StringKey::IncomingPairingRequest => "Incoming PIN Request From: %s",
        StringKey::ClickToCompletePairing => "Click here to enter PIN",
        StringKey::QuitTitle => "Wait! Don't Leave Me! T_T",
        StringKey::QuitMessage => "Nooo! You can't just quit like that!\nAre you really REALLY sure you want to leave?\nI'll miss you... but okay, if you must...\n\n(This will also close the Sunshine GUI application.)",
        StringKey::ErrorTitle => "Error",
        StringKey::ErrorNoUserSession => "Cannot open file dialog: No active user session found.",
        StringKey::ImportSuccessTitle => "Import Success",
        StringKey::ImportSuccessMsg => "Configuration imported successfully!\nPlease restart Sunshine to apply changes.",
        StringKey::ImportErrorTitle => "Import Error",
        StringKey::ImportErrorWrite => "Failed to import configuration file.",
        StringKey::ImportErrorRead => "Failed to read the selected configuration file.",
        StringKey::ImportErrorException => "An error occurred while importing configuration.",
        StringKey::ExportSuccessTitle => "Export Success",
        StringKey::ExportSuccessMsg => "Configuration exported successfully!",
        StringKey::ExportErrorTitle => "Export Error",
        StringKey::ExportErrorWrite => "Failed to export configuration file.",
        StringKey::ExportErrorNoConfig => "No configuration found to export.",
        StringKey::ExportErrorException => "An error occurred while exporting configuration.",
        StringKey::ResetConfirmTitle => "Reset Configuration",
        StringKey::ResetConfirmMsg => "This will reset all configuration to default values.\nThis action cannot be undone.\n\nDo you want to continue?",
        StringKey::ResetSuccessTitle => "Reset Success",
        StringKey::ResetSuccessMsg => "Configuration has been reset to default values.\nPlease restart Sunshine to apply changes.",
        StringKey::ResetErrorTitle => "Reset Error",
        StringKey::ResetErrorMsg => "Failed to reset configuration file.",
        StringKey::ResetErrorException => "An error occurred while resetting configuration.",
        StringKey::FileDialogSelectImport => "Select Configuration File to Import",
        StringKey::FileDialogSaveExport => "Save Configuration File As",
        StringKey::FileDialogConfigFiles => "Configuration Files",
        StringKey::FileDialogAllFiles => "All Files",
    }
}

fn chinese_str(key: StringKey) -> (r: &'static str)
    ensures
        r@ == chinese_text(key),
{
    match key {
        StringKey::OpenSunshine => "打开 Sunshine",
        StringKey::VddBaseDisplay => "基地显示器",
        StringKey::VddCreate => "创建",
        StringKey::VddClose => "关闭",
        StringKey::VddPersistent => "保持启用",
        StringKey::VddPersistentConfirmTitle => "启用保持虚拟显示器模式",
        StringKey::VddPersistentConfirmMsg => "启用此模式将使虚拟显示器始终保持活动状态。\n\n确定要启用吗？",
        StringKey::AdvancedSettings => "高级设置",
        StringKey::ImportConfig => "导入配置",
        StringKey::ExportConfig => "导出配置",
        StringKey::ResetToDefault => "恢复默认",
        StringKey::CloseApp => "清理应用缓存",
        StringKey::CloseAppConfirmTitle => "清理应用缓存",
        StringKey::CloseAppConfirmMsg => "这将终止当前正在串流的应用程序。\n\n确定要继续吗？",
        StringKey::Language => "语言",
        StringKey::Chinese => "中文",
        StringKey::English => "English",
        StringKey::Japanese => "日本語",
        StringKey::StarProject => "Star项目",
        StringKey::VisitProject => "访问项目",
        StringKey::VisitProjectSunshine => "Sunshine-Foundation",
        StringKey::VisitProjectMoonlight => "Moonlight-vplus",
        StringKey::ResetDisplayDeviceConfig => "重置显示器记忆",
        StringKey::ResetDisplayConfirmTitle => "重置显示器配置",
        StringKey::ResetDisplayConfirmMsg => "这将重置所有显示器设备配置。\n\n确定要继续吗？",
        StringKey::Restart => "重新启动",
        StringKey::Quit => "退出",
        StringKey::StreamStarted => "串流已开始",
        StringKey::StreamingStartedFor => "已开始串流：%s",
        StringKey::StreamPaused => "串流已暂停",
        StringKey::StreamingPausedFor => "已暂停串流：%s",
        StringKey::ApplicationStopped => "应用已停止",
        StringKey::ApplicationStoppedMsg => "应用 %s 已成功停止",
        StringKey::IncomingPairingRequest => "来自 %s 的PIN请求",
        StringKey::ClickToCompletePairing => "点击此处完成PIN验证",
        StringKey::QuitTitle => "真的要退出吗",
        StringKey::QuitMessage => "你不能退出!\n那么想退吗? 真拿你没办法呢, 继续点一下吧~\n\n这将同时关闭Sunshine GUI应用程序。",
        StringKey::ErrorTitle => "错误",
        StringKey::ErrorNoUserSession => "无法打开文件对话框：未找到活动的用户会话。",
        StringKey::ImportSuccessTitle => "导入成功",
        StringKey::ImportSuccessMsg => "配置已成功导入！\n请重新启动 Sunshine 以应用更改。",
        StringKey::ImportErrorTitle => "导入失败",
        StringKey::ImportErrorWrite => "无法写入配置文件。",
        StringKey::ImportErrorRead => "无法读取所选的配置文件。",
        StringKey::ImportErrorException => "导入配置时发生错误。",
        StringKey::ExportSuccessTitle => "导出成功",
        StringKey::ExportSuccessMsg => "配置已成功导出！",
        StringKey::ExportErrorTitle => "导出失败",
        StringKey::ExportErrorWrite => "无法导出配置文件。",
        StringKey::ExportErrorNoConfig => "未找到可导出的配置。",
        StringKey::ExportErrorException => "导出配置时发生错误。",
        StringKey::ResetConfirmTitle => "重置配置",
        StringKey::ResetConfirmMsg => "这将把所有配置重置为默认值。\n此操作无法撤销。\n\n确定要继续吗？",
        StringKey::ResetSuccessTitle => "重置成功",
        StringKey::ResetSuccessMsg => "配置已重置为默认值。\n请重新启动 Sunshine 以应用更改。",
        StringKey::ResetErrorTitle => "重置失败",
        StringKey::ResetErrorMsg => "无法重置配置文件。",
        StringKey::ResetErrorException => "重置配置时发生错误。",
        StringKey::FileDialogSelectImport => "选择要导入的配置文件",
        StringKey::FileDialogSaveExport => "配置文件另存为",
        StringKey::FileDialogConfigFiles => "配置文件",
        StringKey::FileDialogAllFiles => "所有文件",
    }
}

fn japanese_str(key: StringKey) -> (r: &'static str)
    ensures
        r@ == japanese_text(key),
{
    match key {
        StringKey::OpenSunshine => "Sunshineを開く",
        StringKey::VddBaseDisplay => "仮想ディスプレイ",
        StringKey::VddCreate => "作成",
        StringKey::VddClose => "閉じる",
        StringKey::VddPersistent => "常時有効",
        StringKey::VddPersistentConfirmTitle => "仮想ディスプレイの常時有効モード",
        StringKey::VddPersistentConfirmMsg => "このモードを有効にすると、仮想ディスプレイは常にアクティブな状態を維持します。\n\n有効にしますか？",
        StringKey::AdvancedSettings => "詳細設定",
        StringKey::ImportConfig => "設定をインポート",
        StringKey::ExportConfig => "設定をエクスポート",
        StringKey::ResetToDefault => "デフォルトに戻す",
        StringKey::CloseApp => "キャッシュをクリア",
        StringKey::CloseAppConfirmTitle => "キャッシュをクリア",
        StringKey::CloseAppConfirmMsg => "現在ストリーミング中のアプリケーションを終了します。\n\n続行しますか？",
        StringKey::Language => "言語",
        StringKey::Chinese => "中文",
        StringKey::English => "English",
        StringKey::Japanese => "日本語",
        StringKey::StarProject => "スターを付ける",
        StringKey::VisitProject => "プロジェクトを訪問",
        StringKey::VisitProjectSunshine => "Sunshine-Foundation",
        StringKey::VisitProjectMoonlight => "Moonlight-vplus",
        StringKey::ResetDisplayDeviceConfig => "ディスプレイメモリをリセット",
        StringKey::ResetDisplayConfirmTitle => "ディスプレイ設定をリセット",
        StringKey::ResetDisplayConfirmMsg => "すべてのディスプレイデバイス設定をリセットします。\n\n続行しますか？",
        StringKey::Restart => "再起動",
        StringKey::Quit => "終了",
        StringKey::StreamStarted => "ストリーム開始",
        StringKey::StreamingStartedFor => "%s のストリーミングを開始しました",
        StringKey::StreamPaused => "ストリーム一時停止",
        StringKey::StreamingPausedFor => "%s のストリーミングを一時停止しました",
        StringKey::ApplicationStopped => "アプリケーション停止",
        StringKey::ApplicationStoppedMsg => "アプリケーション %s が正常に停止しました",
        StringKey::IncomingPairingRequest => "%s からのPIN要求",
        StringKey::ClickToCompletePairing => "クリックしてPIN認証を完了",
        StringKey::QuitTitle => "本当に終了しますか？",
        StringKey::QuitMessage => "終了できません！\n本当に終了したいですか？\n\nこれによりSunshine GUIアプリケーションも閉じられます。",
        StringKey::ErrorTitle => "エラー",
        StringKey::ErrorNoUserSession => "ファイルダイアログを開けません：アクティブなユーザーセッションが見つかりません。",
        StringKey::ImportSuccessTitle => "インポート成功",
        StringKey::ImportSuccessMsg => "設定のインポートに成功しました！\n変更を適用するにはSunshineを再起動してください。",
        StringKey::ImportErrorTitle => "インポート失敗",
        StringKey::ImportErrorWrite => "設定ファイルを書き込めませんでした。",
        StringKey::ImportErrorRead => "選択した設定ファイルを読み取れませんでした。",
        StringKey::ImportErrorException => "設定のインポート中にエラーが発生しました。",
        StringKey::ExportSuccessTitle => "エクスポート成功",
        StringKey::ExportSuccessMsg => "設定のエクスポートに成功しました！",
        StringKey::ExportErrorTitle => "エクスポート失敗",
        StringKey::ExportErrorWrite => "設定ファイルをエクスポートできませんでした。",
        StringKey::ExportErrorNoConfig => "エクスポートする設定が見つかりません。",
        StringKey::ExportErrorException => "設定のエクスポート中にエラーが発生しました。",
        StringKey::ResetConfirmTitle => "設定のリセット",
        StringKey::ResetConfirmMsg => "すべての設定をデフォルト値にリセットします。\nこの操作は元に戻せません。\n\n続行しますか？",
        StringKey::ResetSuccessTitle => "リセット成功",
        StringKey::ResetSuccessMsg => "設定をデフォルト値にリセットしました。\n変更を適用するにはSunshineを再起動してください。",
        StringKey::ResetErrorTitle => "リセット失敗",
        StringKey::ResetErrorMsg => "設定ファイルをリセットできませんでした。",
        StringKey::ResetErrorException => "設定のリセット中にエラーが発生しました。",
        StringKey::FileDialogSelectImport => "インポートする設定ファイルを選択",
        StringKey::FileDialogSaveExport => "設定ファイルに名前を付けて保存",
        StringKey::FileDialogConfigFiles => "設定ファイル",
        StringKey::FileDialogAllFiles => "すべてのファイル",
    }
}

/// The translation table: the display text for a key in a locale.
pub open spec fn spec_translation(locale: Locale, key: StringKey) -> Seq<char> {
    match locale {
        Locale::English => english_text(key),
        Locale::Chinese => chinese_text(key),
        Locale::Japanese => japanese_text(key),
    }
}

/// Look a key up in the translation table for the given locale.
pub fn translation(locale: Locale, key: StringKey) -> (r: &'static str)
    ensures
        r@ == spec_translation(locale, key),
{
    match locale {
        Locale::English => english_str(key),
        Locale::Chinese => chinese_str(key),
        Locale::Japanese => japanese_str(key),
    }
}

/// The locale named by a language tag, compared ASCII-case-insensitively;
/// unknown tags fall back to English.
pub open spec fn spec_locale_of(s: Seq<char>) -> Locale {
    let t = lower_seq(s);
    if t == "zh"@ || t == "zh_cn"@ || t == "zh_tw"@ || t == "chinese"@ {
        Locale::Chinese
    } else if t == "ja"@ || t == "ja_jp"@ || t == "japanese"@ {
        Locale::Japanese
    } else {
        Locale::English
    }
}

/// Parse a language tag such as `"zh"`, `"zh_CN"`, `"ja"` or `"en"`.
pub fn locale_from_str(s: &str) -> (r: Locale)
    ensures
        r == spec_locale_of(s@),
{
    if eq_lower(s, "zh") || eq_lower(s, "zh_cn") || eq_lower(s, "zh_tw") || eq_lower(s, "chinese")
    {
        Locale::Chinese
    } else if eq_lower(s, "ja") || eq_lower(s, "ja_jp") || eq_lower(s, "japanese") {
        Locale::Japanese
    } else {
        Locale::English
    }
}

impl Default for Locale {
    fn default() -> (r: Self)
        ensures
            r == Locale::English,
    {
        Locale::English
    }
}

impl<'a> From<&'a str> for Locale {
    fn from(s: &'a str) -> (r: Self) {
        locale_from_str(s)
    }
}

impl<'a> vstd::std_specs::convert::FromSpecImpl<&'a str> for Locale {
    open spec fn obeys_from_spec() -> bool {
        true
    }

    open spec fn from_spec(s: &'a str) -> Self {
        spec_locale_of(s@)
    }
}

/// The localizer: holds the current display language and resolves symbolic
/// string keys against the translation table.
pub struct I18n {
    /// The currently selected display language.
    pub locale: Locale,
}

impl I18n {
    /// A localizer starting in English.
    pub fn new() -> (r: Self)
        ensures
            r.locale == Locale::English,
    {
        I18n { locale: Locale::English }
    }

    /// The current locale.
    pub fn get_locale(&self) -> (r: Locale)
        ensures
            r == self.locale,
    {
        self.locale
    }

    /// Select the current locale.
    pub fn set_locale(&mut self, locale: Locale)
        ensures
            final(self).locale == locale,
    {
        self.locale = locale;
    }

    /// Select the current locale from a language tag.
    pub fn set_locale_str(&mut self, locale_str: &str)
        ensures
            final(self).locale == spec_locale_of(locale_str@),
    {
        self.locale = locale_from_str(locale_str);
    }

    /// The display text for a key in the current locale.
    pub fn get_string(&self, key: StringKey) -> (r: &'static str)
        ensures
            r@ == spec_translation(self.locale, key),
    {
        translation(self.locale, key)
    }

    /// The display text for a key with `arg` substituted for every `%s`.
    pub fn get_string_fmt(&self, key: StringKey, arg: &str) -> (r: String)
        ensures
            r@ == replace_marker(spec_translation(self.locale, key), arg@),
    {
        let template = translation(self.locale, key);
        replace_all(template, arg)
    }
}


/// The canonical language tag persisted for a locale.
pub open spec fn spec_locale_tag(locale: Locale) -> Seq<char> {
    match locale {
        Locale::English => "en"@,
        Locale::Chinese => "zh"@,
        Locale::Japanese => "ja"@,
    }
}

impl Locale {
    /// The canonical language tag persisted for this locale.
    pub fn tag(self) -> (r: &'static str)
        ensures
            r@ == spec_locale_tag(self),
    {
        match self {
            Locale::English => "en",
            Locale::Chinese => "zh",
            Locale::Japanese => "ja",
        }
    }
}

} // verus!

//! Menu action identifiers: the stable numeric codes of the host callback
//! wire, and the mapping between logical item identifiers and actions.

use vstd::prelude::*;

use crate::text::str_eq;

verus! {

/// Identifier of an action the host can be notified of.
#[derive(Clone, Copy, PartialEq, Eq, Structural, Debug, Hash)]
pub enum MenuAction {
    OpenUI,
    VddCreate,
    VddClose,
    VddPersistent,
    ImportConfig,
    ExportConfig,
    ResetConfig,
    CloseApp,
    LanguageChinese,
    LanguageEnglish,
    LanguageJapanese,
    StarProject,
    VisitProjectSunshine,
    VisitProjectMoonlight,
    ResetDisplayDeviceConfig,
    Restart,
    Quit,
    NotificationClicked,
}

/// The numeric wire code of an action.
pub open spec fn spec_action_code(a: MenuAction) -> u32 {
    match a {
        MenuAction::OpenUI => 1,
        MenuAction::VddCreate => 2,
        MenuAction::VddClose => 3,
        MenuAction::VddPersistent => 4,
        MenuAction::ImportConfig => 5,
        MenuAction::ExportConfig => 6,
        MenuAction::ResetConfig => 7,
        MenuAction::CloseApp => 8,
        MenuAction::LanguageChinese => 9,
        MenuAction::LanguageEnglish => 10,
        MenuAction::LanguageJapanese => 11,
        MenuAction::StarProject => 12,
        MenuAction::VisitProjectSunshine => 13,
        MenuAction::VisitProjectMoonlight => 14,
        MenuAction::ResetDisplayDeviceConfig => 15,
        MenuAction::Restart => 16,
        MenuAction::Quit => 17,
        MenuAction::NotificationClicked => 18,
    }
}

/// The action carried by a numeric wire code, if the code is known.
pub open spec fn spec_action_from_code(value: u32) -> Option<MenuAction> {
    if value == 1 {
        Some(MenuAction::OpenUI)
    } else if value == 2 {
        Some(MenuAction::VddCreate)
    } else if value == 3 {
        Some(MenuAction::VddClose)
    } else if value == 4 {
        Some(MenuAction::VddPersistent)
    } else if value == 5 {
        Some(MenuAction::ImportConfig)
    } else if value == 6 {
        Some(MenuAction::ExportConfig)
    } else if value == 7 {
        Some(MenuAction::ResetConfig)
    } else if value == 8 {
        Some(MenuAction::CloseApp)
    } else if value == 9 {
        Some(MenuAction::LanguageChinese)
    } else if value == 10 {
        Some(MenuAction::LanguageEnglish)
    } else if value == 11 {
        Some(MenuAction::LanguageJapanese)
    } else if value == 12 {
        Some(MenuAction::StarProject)
    } else if value == 13 {
        Some(MenuAction::VisitProjectSunshine)
    } else if value == 14 {
        Some(MenuAction::VisitProjectMoonlight)
    } else if value == 15 {
        Some(MenuAction::ResetDisplayDeviceConfig)
    } else if value == 16 {
        Some(MenuAction::Restart)
    } else if value == 17 {
        Some(MenuAction::Quit)
    } else if value == 18 {
        Some(MenuAction::NotificationClicked)
    } else {
        None
    }
}

/// The logical item identifier whose activation notifies the host of an
/// action; actions without a menu item of their own have none.
pub open spec fn spec_action_for_id(id: Seq<char>) -> Option<MenuAction> {
    if id == "open_sunshine"@ {
        Some(MenuAction::OpenUI)
    } else if id == "vdd_create"@ {
        Some(MenuAction::VddCreate)
    } else if id == "vdd_close"@ {
        Some(MenuAction::VddClose)
    } else if id == "vdd_persistent"@ {
        Some(MenuAction::VddPersistent)
    } else if id == "import_config"@ {
        Some(MenuAction::ImportConfig)
    } else if id == "export_config"@ {
        Some(MenuAction::ExportConfig)
    } else if id == "reset_config"@ {
        Some(MenuAction::ResetConfig)
    } else if id == "close_app"@ {
        Some(MenuAction::CloseApp)
    } else if id == "lang_chinese"@ {
        Some(MenuAction::LanguageChinese)
    } else if id == "lang_english"@ {
        Some(MenuAction::LanguageEnglish)
    } else if id == "lang_japanese"@ {
        Some(MenuAction::LanguageJapanese)
    } else if id == "star_project"@ {
        Some(MenuAction::StarProject)
    } else if id == "visit_sunshine"@ {
        Some(MenuAction::VisitProjectSunshine)
    } else if id == "visit_moonlight"@ {
        Some(MenuAction::VisitProjectMoonlight)
    } else if id == "reset_display"@ {
        Some(MenuAction::ResetDisplayDeviceConfig)
    } else if id == "restart"@ {
        Some(MenuAction::Restart)
    } else if id == "quit"@ {
        Some(MenuAction::Quit)
    } else {
        None
    }
}

/// The logical identifier carried to the host for an action: the menu item's
/// identifier, or a fixed name for actions without a menu item of their own.
pub open spec fn spec_action_item_id(a: MenuAction) -> Seq<char> {
    match a {
        MenuAction::OpenUI => "open_sunshine"@,
        MenuAction::VddCreate => "vdd_create"@,
        MenuAction::VddClose => "vdd_close"@,
        MenuAction::VddPersistent => "vdd_persistent"@,
        MenuAction::ImportConfig => "import_config"@,
        MenuAction::ExportConfig => "export_config"@,
        MenuAction::ResetConfig => "reset_config"@,
        MenuAction::CloseApp => "close_app"@,
        MenuAction::LanguageChinese => "lang_chinese"@,
        MenuAction::LanguageEnglish => "lang_english"@,
        MenuAction::LanguageJapanese => "lang_japanese"@,
        MenuAction::StarProject => "star_project"@,
        MenuAction::VisitProjectSunshine => "visit_sunshine"@,
        MenuAction::VisitProjectMoonlight => "visit_moonlight"@,
        MenuAction::ResetDisplayDeviceConfig => "reset_display"@,
        MenuAction::Restart => "restart"@,
        MenuAction::Quit => "quit"@,
        MenuAction::NotificationClicked => "notification_clicked"@,
    }
}

impl MenuAction {
    /// The logical identifier carried to the host for this action.
    pub fn item_id(self) -> (r: &'static str)
        ensures
            r@ == spec_action_item_id(self),
    {
        match self {
            MenuAction::OpenUI => "open_sunshine",
            MenuAction::VddCreate => "vdd_create",
            MenuAction::VddClose => "vdd_close",
            MenuAction::VddPersistent => "vdd_persistent",
            MenuAction::ImportConfig => "import_config",
            MenuAction::ExportConfig => "export_config",
            MenuAction::ResetConfig => "reset_config",
            MenuAction::CloseApp => "close_app",
            MenuAction::LanguageChinese => "lang_chinese",
            MenuAction::LanguageEnglish => "lang_english",
            MenuAction::LanguageJapanese => "lang_japanese",
            MenuAction::StarProject => "star_project",
            MenuAction::VisitProjectSunshine => "visit_sunshine",
            MenuAction::VisitProjectMoonlight => "visit_moonlight",
            MenuAction::ResetDisplayDeviceConfig => "reset_display",
            MenuAction::Restart => "restart",
            MenuAction::Quit => "quit",
            MenuAction::NotificationClicked => "notification_clicked",
        }
    }

    /// The numeric wire code of this action.
    pub fn code(self) -> (r: u32)
        ensures
            r == spec_action_code(self),
    {
        match self {
            MenuAction::OpenUI => 1,
            MenuAction::VddCreate => 2,
            MenuAction::VddClose => 3,
            MenuAction::VddPersistent => 4,
            MenuAction::ImportConfig => 5,
            MenuAction::ExportConfig => 6,
            MenuAction::ResetConfig => 7,
            MenuAction::CloseApp => 8,
            MenuAction::LanguageChinese => 9,
            MenuAction::LanguageEnglish => 10,
            MenuAction::LanguageJapanese => 11,
            MenuAction::StarProject => 12,
            MenuAction::VisitProjectSunshine => 13,
            MenuAction::VisitProjectMoonlight => 14,
            MenuAction::ResetDisplayDeviceConfig => 15,
            MenuAction::Restart => 16,
            MenuAction::Quit => 17,
            MenuAction::NotificationClicked => 18,
        }
    }

    /// Decode a numeric wire code.
    pub fn from_code(value: u32) -> (r: Option<MenuAction>)
        ensures
            r == spec_action_from_code(value),
    {
        if value == 1 {
            Some(MenuAction::OpenUI)
        } else if value == 2 {
            Some(MenuAction::VddCreate)
        } else if value == 3 {
            Some(MenuAction::VddClose)
        } else if value == 4 {
            Some(MenuAction::VddPersistent)
        } else if value == 5 {
            Some(MenuAction::ImportConfig)
        } else if value == 6 {
            Some(MenuAction::ExportConfig)
        } else if value == 7 {
            Some(MenuAction::ResetConfig)
        } else if value == 8 {
            Some(MenuAction::CloseApp)
        } else if value == 9 {
            Some(MenuAction::LanguageChinese)
        } else if value == 10 {
            Some(MenuAction::LanguageEnglish)
        } else if value == 11 {
            Some(MenuAction::LanguageJapanese)
        } else if value == 12 {
            Some(MenuAction::StarProject)
        } else if value == 13 {
            Some(MenuAction::VisitProjectSunshine)
        } else if value == 14 {
            Some(MenuAction::VisitProjectMoonlight)
        } else if value == 15 {
            Some(MenuAction::ResetDisplayDeviceConfig)
        } else if value == 16 {
            Some(MenuAction::Restart)
        } else if value == 17 {
            Some(MenuAction::Quit)
        } else if value == 18 {
            Some(MenuAction::NotificationClicked)
        } else {
            None
        }
    }

    /// The action notified when the item with this logical identifier is
    /// activated, if the identifier is one of the fixed tray menu ids.
    pub fn for_item_id(item_id: &str) -> (r: Option<MenuAction>)
        ensures
            r == spec_action_for_id(item_id@),
    {
        if str_eq(item_id, "open_sunshine") {
            Some(MenuAction::OpenUI)
        } else if str_eq(item_id, "vdd_create") {
            Some(MenuAction::VddCreate)
        } else if str_eq(item_id, "vdd_close") {
            Some(MenuAction::VddClose)
        } else if str_eq(item_id, "vdd_persistent") {
            Some(MenuAction::VddPersistent)
        } else if str_eq(item_id, "import_config") {
            Some(MenuAction::ImportConfig)
        } else if str_eq(item_id, "export_config") {
            Some(MenuAction::ExportConfig)
        } else if str_eq(item_id, "reset_config") {
            Some(MenuAction::ResetConfig)
        } else if str_eq(item_id, "close_app") {
            Some(MenuAction::CloseApp)
        } else if str_eq(item_id, "lang_chinese") {
            Some(MenuAction::LanguageChinese)
        } else if str_eq(item_id, "lang_english") {
            Some(MenuAction::LanguageEnglish)
        } else if str_eq(item_id, "lang_japanese") {
            Some(MenuAction::LanguageJapanese)
        } else if str_eq(item_id, "star_project") {
            Some(MenuAction::StarProject)
        } else if str_eq(item_id, "visit_sunshine") {
            Some(MenuAction::VisitProjectSunshine)
        } else if str_eq(item_id, "visit_moonlight") {
            Some(MenuAction::VisitProjectMoonlight)
        } else if str_eq(item_id, "reset_display") {
            Some(MenuAction::ResetDisplayDeviceConfig)
        } else if str_eq(item_id, "restart") {
            Some(MenuAction::Restart)
        } else if str_eq(item_id, "quit") {
            Some(MenuAction::Quit)
        } else {
            None
        }
    }
}

} // verus!

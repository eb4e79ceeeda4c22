//! The declarative menu schema: item descriptors, their builders, the local
//! side effects described as data, and the tray menu definition itself.

use vstd::prelude::*;

use crate::i18n::{Locale, StringKey};

verus! {

/// Kind of a menu item.
#[derive(Clone, Copy, PartialEq, Eq, Structural, Debug)]
pub enum ItemKind {
    /// Regular clickable item.
    Action,
    /// Checkbox item.
    Check,
    /// Separator line; carries no logical identity.
    Separator,
    /// Submenu container.
    Submenu,
}

/// The local side effect run when an item is activated, described as data so
/// that dispatch can be checked; the embedder performs the outward part.
#[derive(Clone, Copy, PartialEq, Eq, Structural, Debug)]
pub enum Handler {
    /// No local effect; activation is only forwarded to the host.
    NoOp,
    /// Switch the display language and ask the embedder to persist it.
    SetLanguage(Locale),
    /// Ask the embedder to show a confirmation dialog (title key, message
    /// key); the host performs the action itself.
    Confirm(StringKey, StringKey),
}

/// A menu item descriptor: one entry of the declarative schema.
#[derive(Clone, Copy, Debug)]
pub struct MenuItemInfo {
    /// Stable logical identifier, unique across the schema.
    pub id: &'static str,
    /// Key of the localized label; absent for separators.
    pub label_key: Option<StringKey>,
    /// Item kind.
    pub kind: ItemKind,
    /// Identifier of the parent submenu; absent for top-level items.
    pub parent: Option<&'static str>,
    /// Local side effect on activation, if any.
    pub handler: Option<Handler>,
    /// Whether activating this item must trigger a full menu rebuild.
    pub rebuild_menu: bool,
    /// Initial checkbox state, meaningful for `Check` items.
    pub default_checked: bool,
    /// Sort order among siblings; lower comes first, ties keep declaration
    /// order.
    pub order: u32,
}

impl MenuItemInfo {
    /// A regular clickable item.
    pub fn action(
        id: &'static str,
        label_key: StringKey,
        parent: Option<&'static str>,
        order: u32,
    ) -> (r: Self)
        ensures
            r == (MenuItemInfo {
                id,
                label_key: Some(label_key),
                kind: ItemKind::Action,
                parent,
                handler: None,
                rebuild_menu: false,
                default_checked: false,
                order,
            }),
    {
        MenuItemInfo {
            id,
            label_key: Some(label_key),
            kind: ItemKind::Action,
            parent,
            handler: None,
            rebuild_menu: false,
            default_checked: false,
            order,
        }
    }

    /// A checkbox item.
    pub fn check(
        id: &'static str,
        label_key: StringKey,
        parent: Option<&'static str>,
        default: bool,
        order: u32,
    ) -> (r: Self)
        ensures
            r == (MenuItemInfo {
                id,
                label_key: Some(label_key),
                kind: ItemKind::Check,
                parent,
                handler: None,
                rebuild_menu: false,
                default_checked: default,
                order,
            }),
    {
        MenuItemInfo {
            id,
            label_key: Some(label_key),
            kind: ItemKind::Check,
            parent,
            handler: None,
            rebuild_menu: false,
            default_checked: default,
            order,
        }
    }

    /// A submenu container.
    pub fn submenu(
        id: &'static str,
        label_key: StringKey,
        parent: Option<&'static str>,
        order: u32,
    ) -> (r: Self)
        ensures
            r == (MenuItemInfo {
                id,
                label_key: Some(label_key),
                kind: ItemKind::Submenu,
                parent,
                handler: None,
                rebuild_menu: false,
                default_checked: false,
                order,
            }),
    {
        MenuItemInfo {
            id,
            label_key: Some(label_key),
            kind: ItemKind::Submenu,
            parent,
            handler: None,
            rebuild_menu: false,
            default_checked: false,
            order,
        }
    }

    /// A separator line.
    pub fn separator(id: &'static str, parent: Option<&'static str>, order: u32) -> (r: Self)
        ensures
            r == (MenuItemInfo {
                id,
                label_key: None,
                kind: ItemKind::Separator,
                parent,
                handler: None,
                rebuild_menu: false,
                default_checked: false,
                order,
            }),
    {
        MenuItemInfo {
            id,
            label_key: None,
            kind: ItemKind::Separator,
            parent,
            handler: None,
            rebuild_menu: false,
            default_checked: false,
            order,
        }
    }

    /// Attach a local side effect.
    pub fn with_handler(self, handler: Handler) -> (r: Self)
        ensures
            r == (MenuItemInfo { handler: Some(handler), ..self }),
    {
        MenuItemInfo { handler: Some(handler), ..self }
    }

    /// Mark this item as requiring a full menu rebuild after activation.
    pub fn with_rebuild(self) -> (r: Self)
        ensures
            r == (MenuItemInfo { rebuild_menu: true, ..self }),
    {
        MenuItemInfo { rebuild_menu: true, ..self }
    }
}

/// Local effect of the item opening the main application window: handled by
/// the host.
pub fn open_sunshine() -> (r: Handler)
    ensures
        r == Handler::NoOp,
{
    Handler::NoOp
}

/// Local effect of creating the virtual display: validated and performed by
/// the host.
pub fn vdd_create() -> (r: Handler)
    ensures
        r == Handler::NoOp,
{
    Handler::NoOp
}

/// Local effect of closing the virtual display: validated and performed by
/// the host.
pub fn vdd_close() -> (r: Handler)
    ensures
        r == Handler::NoOp,
{
    Handler::NoOp
}

/// Local effect of toggling the persistent virtual display mode: handled by
/// the host.
pub fn vdd_persistent() -> (r: Handler)
    ensures
        r == Handler::NoOp,
{
    Handler::NoOp
}

/// Local effect of importing a configuration file: handled by the host.
pub fn import_config() -> (r: Handler)
    ensures
        r == Handler::NoOp,
{
    Handler::NoOp
}

/// Local effect of exporting the configuration: handled by the host.
pub fn export_config() -> (r: Handler)
    ensures
        r == Handler::NoOp,
{
    Handler::NoOp
}

/// Local effect of resetting the configuration: handled by the host.
pub fn reset_config() -> (r: Handler)
    ensures
        r == Handler::NoOp,
{
    Handler::NoOp
}

/// Local effect of clearing the application cache: ask for confirmation
/// first; the host performs the action.
pub fn close_app() -> (r: Handler)
    ensures
        r == Handler::Confirm(StringKey::CloseAppConfirmTitle, StringKey::CloseAppConfirmMsg),
{
    Handler::Confirm(StringKey::CloseAppConfirmTitle, StringKey::CloseAppConfirmMsg)
}

/// Local effect of resetting the display configuration: ask for confirmation
/// first; the host performs the action.
pub fn reset_display() -> (r: Handler)
    ensures
        r == Handler::Confirm(
            StringKey::ResetDisplayConfirmTitle,
            StringKey::ResetDisplayConfirmMsg,
        ),
{
    Handler::Confirm(StringKey::ResetDisplayConfirmTitle, StringKey::ResetDisplayConfirmMsg)
}

/// Local effect of selecting Chinese: switch and persist the language.
pub fn lang_chinese() -> (r: Handler)
    ensures
        r == Handler::SetLanguage(Locale::Chinese),
{
    Handler::SetLanguage(Locale::Chinese)
}

/// Local effect of selecting English: switch and persist the language.
pub fn lang_english() -> (r: Handler)
    ensures
        r == Handler::SetLanguage(Locale::English),
{
    Handler::SetLanguage(Locale::English)
}

/// Local effect of selecting Japanese: switch and persist the language.
pub fn lang_japanese() -> (r: Handler)
    ensures
        r == Handler::SetLanguage(Locale::Japanese),
{
    Handler::SetLanguage(Locale::Japanese)
}

/// Local effect of starring the project: the embedder opens the page.
pub fn star_project() -> (r: Handler)
    ensures
        r == Handler::NoOp,
{
    Handler::NoOp
}

/// Local effect of visiting the main project page: the embedder opens it.
pub fn visit_sunshine() -> (r: Handler)
    ensures
        r == Handler::NoOp,
{
    Handler::NoOp
}

/// Local effect of visiting the client project page: the embedder opens it.
pub fn visit_moonlight() -> (r: Handler)
    ensures
        r == Handler::NoOp,
{
    Handler::NoOp
}

/// Local effect of restarting: handled by the host.
pub fn restart() -> (r: Handler)
    ensures
        r == Handler::NoOp,
{
    Handler::NoOp
}

/// Local effect of quitting: ask for confirmation first; the host performs
/// the shutdown.
pub fn quit() -> (r: Handler)
    ensures
        r == Handler::Confirm(StringKey::QuitTitle, StringKey::QuitMessage),
{
    Handler::Confirm(StringKey::QuitTitle, StringKey::QuitMessage)
}

/// The tray menu schema as data: the single source of truth for the menu
/// structure.
pub open spec fn spec_default_schema() -> Seq<MenuItemInfo> {
    seq![
        (MenuItemInfo {
            id: "open_sunshine",
            label_key: Some(StringKey::OpenSunshine),
            kind: ItemKind::Action,
            parent: None,
            handler: Some(Handler::NoOp),
            rebuild_menu: false,
            default_checked: false,
            order: 100,
        }),
        (MenuItemInfo {
            id: "sep_1",
            label_key: None,
            kind: ItemKind::Separator,
            parent: None,
            handler: None,
            rebuild_menu: false,
            default_checked: false,
            order: 200,
        }),
        (MenuItemInfo {
            id: "vdd_submenu",
            label_key: Some(StringKey::VddBaseDisplay),
            kind: ItemKind::Submenu,
            parent: None,
            handler: None,
            rebuild_menu: false,
            default_checked: false,
            order: 300,
        }),
        (MenuItemInfo {
            id: "vdd_create",
            label_key: Some(StringKey::VddCreate),
            kind: ItemKind::Check,
            parent: Some("vdd_submenu"),
            handler: Some(Handler::NoOp),
            rebuild_menu: false,
            default_checked: false,
            order: 310,
        }),
        (MenuItemInfo {
            id: "vdd_close",
            label_key: Some(StringKey::VddClose),
            kind: ItemKind::Check,
            parent: Some("vdd_submenu"),
            handler: Some(Handler::NoOp),
            rebuild_menu: false,
            default_checked: false,
            order: 320,
        }),
        (MenuItemInfo {
            id: "vdd_persistent",
            label_key: Some(StringKey::VddPersistent),
            kind: ItemKind::Check,
            parent: Some("vdd_submenu"),
            handler: Some(Handler::NoOp),
            rebuild_menu: false,
            default_checked: false,
            order: 330,
        }),
        (MenuItemInfo {
            id: "advanced_submenu",
            label_key: Some(StringKey::AdvancedSettings),
            kind: ItemKind::Submenu,
            parent: None,
            handler: None,
            rebuild_menu: false,
            default_checked: false,
            order: 400,
        }),
        (MenuItemInfo {
            id: "import_config",
            label_key: Some(StringKey::ImportConfig),
            kind: ItemKind::Action,
            parent: Some("advanced_submenu"),
            handler: Some(Handler::NoOp),
            rebuild_menu: false,
            default_checked: false,
            order: 410,
        }),
        (MenuItemInfo {
            id: "export_config",
            label_key: Some(StringKey::ExportConfig),
            kind: ItemKind::Action,
            parent: Some("advanced_submenu"),
            handler: Some(Handler::NoOp),
            rebuild_menu: false,
            default_checked: false,
            order: 420,
        }),
        (MenuItemInfo {
            id: "reset_config",
            label_key: Some(StringKey::ResetToDefault),
            kind: ItemKind::Action,
            parent: Some("advanced_submenu"),
            handler: Some(Handler::NoOp),
            rebuild_menu: false,
            default_checked: false,
            order: 430,
        }),
        (MenuItemInfo {
            id: "sep_adv",
            label_key: None,
            kind: ItemKind::Separator,
            parent: Some("advanced_submenu"),
            handler: None,
            rebuild_menu: false,
            default_checked: false,
            order: 440,
        }),
        (MenuItemInfo {
            id: "close_app",
            label_key: Some(StringKey::CloseApp),
            kind: ItemKind::Action,
            parent: Some("advanced_submenu"),
            handler: Some(Handler::Confirm(StringKey::CloseAppConfirmTitle, StringKey::CloseAppConfirmMsg)),
            rebuild_menu: false,
            default_checked: false,
            order: 450,
        }),
        (MenuItemInfo {
            id: "reset_display",
            label_key: Some(StringKey::ResetDisplayDeviceConfig),
            kind: ItemKind::Action,
            parent: Some("advanced_submenu"),
            handler: Some(Handler::Confirm(StringKey::ResetDisplayConfirmTitle, StringKey::ResetDisplayConfirmMsg)),
            rebuild_menu: false,
            default_checked: false,
            order: 460,
        }),
        (MenuItemInfo {
            id: "sep_2",
            label_key: None,
            kind: ItemKind::Separator,
            parent: None,
            handler: None,
            rebuild_menu: false,
            default_checked: false,
            order: 500,
        }),
        (MenuItemInfo {
            id: "language_submenu",
            label_key: Some(StringKey::Language),
            kind: ItemKind::Submenu,
            parent: None,
            handler: None,
            rebuild_menu: false,
            default_checked: false,
            order: 600,
        }),
        (MenuItemInfo {
            id: "lang_chinese",
            label_key: Some(StringKey::Chinese),
            kind: ItemKind::Action,
            parent: Some("language_submenu"),
            handler: Some(Handler::SetLanguage(Locale::Chinese)),
            rebuild_menu: true,
            default_checked: false,
            order: 610,
        }),
        (MenuItemInfo {
            id: "lang_english",
            label_key: Some(StringKey::English),
            kind: ItemKind::Action,
            parent: Some("language_submenu"),
            handler: Some(Handler::SetLanguage(Locale::English)),
            rebuild_menu: true,
            default_checked: false,
            order: 620,
        }),
        (MenuItemInfo {
            id: "lang_japanese",
            label_key: Some(StringKey::Japanese),
            kind: ItemKind::Action,
            parent: Some("language_submenu"),
            handler: Some(Handler::SetLanguage(Locale::Japanese)),
            rebuild_menu: true,
            default_checked: false,
            order: 630,
        }),
        (MenuItemInfo {
            id: "sep_3",
            label_key: None,
            kind: ItemKind::Separator,
            parent: None,
            handler: None,
            rebuild_menu: false,
            default_checked: false,
            order: 700,
        }),
        (MenuItemInfo {
            id: "star_project",
            label_key: Some(StringKey::StarProject),
            kind: ItemKind::Action,
            parent: None,
            handler: Some(Handler::NoOp),
            rebuild_menu: false,
            default_checked: false,
            order: 800,
        }),
        (MenuItemInfo {
            id: "visit_submenu",
            label_key: Some(StringKey::VisitProject),
            kind: ItemKind::Submenu,
            parent: None,
            handler: None,
            rebuild_menu: false,
            default_checked: false,
            order: 900,
        }),
        (MenuItemInfo {
            id: "visit_sunshine",
            label_key: Some(StringKey::VisitProjectSunshine),
            kind: ItemKind::Action,
            parent: Some("visit_submenu"),
            handler: Some(Handler::NoOp),
            rebuild_menu: false,
            default_checked: false,
            order: 910,
        }),
        (MenuItemInfo {
            id: "visit_moonlight",
            label_key: Some(StringKey::VisitProjectMoonlight),
            kind: ItemKind::Action,
            parent: Some("visit_submenu"),
            handler: Some(Handler::NoOp),
            rebuild_menu: false,
            default_checked: false,
            order: 920,
        }),
        (MenuItemInfo {
            id: "sep_4",
            label_key: None,
            kind: ItemKind::Separator,
            parent: None,
            handler: None,
            rebuild_menu: false,
            default_checked: false,
            order: 1000,
        }),
        (MenuItemInfo {
            id: "restart",
            label_key: Some(StringKey::Restart),
            kind: ItemKind::Action,
            parent: None,
            handler: Some(Handler::NoOp),
            rebuild_menu: false,
            default_checked: false,
            order: 1100,
        }),
        (MenuItemInfo {
            id: "quit",
            label_key: Some(StringKey::Quit),
            kind: ItemKind::Action,
            parent: None,
            handler: Some(Handler::Confirm(StringKey::QuitTitle, StringKey::QuitMessage)),
            rebuild_menu: false,
            default_checked: false,
            order: 1200,
        }),
    ]
}


/// All menu item definitions: the single place that defines the menu
/// structure.
pub fn get_all_items() -> (items: Vec<MenuItemInfo>)
    ensures
        items@ == spec_default_schema(),
{
    let items = vec![
        // Top level
        MenuItemInfo::action("open_sunshine", StringKey::OpenSunshine, None, 100).with_handler(
            open_sunshine(),
        ),
        MenuItemInfo::separator("sep_1", None, 200),
        // Virtual display submenu
        MenuItemInfo::submenu("vdd_submenu", StringKey::VddBaseDisplay, None, 300),
        MenuItemInfo::check("vdd_create", StringKey::VddCreate, Some("vdd_submenu"), false, 310)
            .with_handler(vdd_create()),
        MenuItemInfo::check("vdd_close", StringKey::VddClose, Some("vdd_submenu"), false, 320)
            .with_handler(vdd_close()),
        MenuItemInfo::check(
            "vdd_persistent",
            StringKey::VddPersistent,
            Some("vdd_submenu"),
            false,
            330,
        ).with_handler(vdd_persistent()),
        // Advanced settings submenu
        MenuItemInfo::submenu("advanced_submenu", StringKey::AdvancedSettings, None, 400),
        MenuItemInfo::action(
            "import_config",
            StringKey::ImportConfig,
            Some("advanced_submenu"),
            410,
        ).with_handler(import_config()),
        MenuItemInfo::action(
            "export_config",
            StringKey::ExportConfig,
            Some("advanced_submenu"),
            420,
        ).with_handler(export_config()),
        MenuItemInfo::action(
            "reset_config",
            StringKey::ResetToDefault,
            Some("advanced_submenu"),
            430,
        ).with_handler(reset_config()),
        MenuItemInfo::separator("sep_adv", Some("advanced_submenu"), 440),
        MenuItemInfo::action("close_app", StringKey::CloseApp, Some("advanced_submenu"), 450)
            .with_handler(close_app()),
        MenuItemInfo::action(
            "reset_display",
            StringKey::ResetDisplayDeviceConfig,
            Some("advanced_submenu"),
            460,
        ).with_handler(reset_display()),
        MenuItemInfo::separator("sep_2", None, 500),
        // Language submenu
        MenuItemInfo::submenu("language_submenu", StringKey::Language, None, 600),
        MenuItemInfo::action("lang_chinese", StringKey::Chinese, Some("language_submenu"), 610)
            .with_handler(lang_chinese())
            .with_rebuild(),
        MenuItemInfo::action("lang_english", StringKey::English, Some("language_submenu"), 620)
            .with_handler(lang_english())
            .with_rebuild(),
        MenuItemInfo::action("lang_japanese", StringKey::Japanese, Some("language_submenu"), 630)
            .with_handler(lang_japanese())
            .with_rebuild(),
        MenuItemInfo::separator("sep_3", None, 700),
        // Star project
        MenuItemInfo::action("star_project", StringKey::StarProject, None, 800).with_handler(
            star_project(),
        ),
        // Visit project submenu
        MenuItemInfo::submenu("visit_submenu", StringKey::VisitProject, None, 900),
        MenuItemInfo::action(
            "visit_sunshine",
            StringKey::VisitProjectSunshine,
            Some("visit_submenu"),
            910,
        ).with_handler(visit_sunshine()),
        MenuItemInfo::action(
            "visit_moonlight",
            StringKey::VisitProjectMoonlight,
            Some("visit_submenu"),
            920,
        ).with_handler(visit_moonlight()),
        MenuItemInfo::separator("sep_4", None, 1000),
        // Restart and quit
        MenuItemInfo::action("restart", StringKey::Restart, None, 1100).with_handler(restart()),
        MenuItemInfo::action("quit", StringKey::Quit, None, 1200).with_handler(quit()),
    ];
    proof {
        assert(items@ =~= spec_default_schema());
    }
    items
}

} // verus!

//! The tray icon's menu: what it shows and what a click on it asks for.

use crate::text::{equals_in, starts_with, starts_with_in, text_from, to_chars};
use vstd::prelude::*;
use vstd::string::StringExecFns;

verus! {

/// One line of the tray menu.
#[derive(Clone, Copy, Debug, PartialEq, Eq, Structural)]
pub enum MenuEntry {
    /// The shortcut to the app with this number among the shortcuts.
    App(usize),
    /// A dividing line.
    Separator,
    /// Mirror the screen.
    Mirror,
    /// Stream the sound only.
    Audio,
    /// Show the main window.
    Show,
    /// Hide the main window.
    Hide,
    /// Leave the launcher.
    Quit,
}

/// The shortcuts to `n` apps, in order.
pub open spec fn shortcuts(n: nat) -> Seq<MenuEntry> {
    Seq::new(n, |i: int| MenuEntry::App(i as usize))
}

/// `list` closed by a dividing line where `wanted` holds.
pub open spec fn divided(list: Seq<MenuEntry>, wanted: bool) -> Seq<MenuEntry> {
    if wanted {
        list.push(MenuEntry::Separator)
    } else {
        list
    }
}

/// `list` with `entry` behind it where `wanted` holds.
pub open spec fn offered(list: Seq<MenuEntry>, wanted: bool, entry: MenuEntry) -> Seq<MenuEntry> {
    if wanted {
        list.push(entry)
    } else {
        list
    }
}

/// The tray menu: the shortcuts to apps, the two streaming modes as far as
/// they are wanted, and the window and exit entries. Each group that shows
/// anything is closed by a dividing line.
pub open spec fn menu_of(apps: nat, show_mirror: bool, show_audio: bool) -> Seq<MenuEntry> {
    let a = divided(shortcuts(apps), apps > 0);
    let b = offered(a, show_mirror, MenuEntry::Mirror);
    let c = offered(b, show_audio, MenuEntry::Audio);
    let d = divided(c, show_mirror || show_audio);
    d + seq![MenuEntry::Show, MenuEntry::Hide, MenuEntry::Separator, MenuEntry::Quit]
}

/// Lays out the tray menu for `apps` app shortcuts.
pub fn tray_menu(apps: usize, show_mirror: bool, show_audio: bool) -> (menu: Vec<MenuEntry>)
    ensures
        menu@ == menu_of(apps as nat, show_mirror, show_audio),
{
    let mut menu: Vec<MenuEntry> = Vec::new();
    let mut i: usize = 0;
    while i < apps
        invariant
            i <= apps,
            menu@ == shortcuts(i as nat),
        decreases apps - i,
    {
        menu.push(MenuEntry::App(i));
        assert(menu@ =~= shortcuts((i + 1) as nat));
        i += 1;
    }
    if apps > 0 {
        menu.push(MenuEntry::Separator);
    }
    if show_mirror {
        menu.push(MenuEntry::Mirror);
    }
    if show_audio {
        menu.push(MenuEntry::Audio);
    }
    if show_mirror || show_audio {
        menu.push(MenuEntry::Separator);
    }
    let ghost head = menu@;
    menu.push(MenuEntry::Show);
    menu.push(MenuEntry::Hide);
    menu.push(MenuEntry::Separator);
    menu.push(MenuEntry::Quit);
    assert(menu@ =~= head + seq![
        MenuEntry::Show,
        MenuEntry::Hide,
        MenuEntry::Separator,
        MenuEntry::Quit,
    ]);
    menu
}

/// The identifier of the menu entry that starts the app of `package`.
pub fn app_entry_id(package: &str) -> (id: String)
    ensures
        id@ == "app:"@ + package@,
{
    String::from_str("app:").concat(package)
}

/// What a click on the tray menu asks for.
#[derive(Debug, PartialEq, Eq)]
pub enum TrayAction {
    ShowWindow,
    HideWindow,
    Mirror,
    Audio,
    Quit,
    /// Start the app of this package.
    App(String),
    /// The entry is not one of the menu's own.
    Nothing,
}

/// A [`TrayAction`] with its package as a sequence of characters.
pub enum TrayActionView {
    ShowWindow,
    HideWindow,
    Mirror,
    Audio,
    Quit,
    App(Seq<char>),
    Nothing,
}

impl View for TrayAction {
    type V = TrayActionView;

    open spec fn view(&self) -> TrayActionView {
        match self {
            TrayAction::ShowWindow => TrayActionView::ShowWindow,
            TrayAction::HideWindow => TrayActionView::HideWindow,
            TrayAction::Mirror => TrayActionView::Mirror,
            TrayAction::Audio => TrayActionView::Audio,
            TrayAction::Quit => TrayActionView::Quit,
            TrayAction::App(package) => TrayActionView::App(package@),
            TrayAction::Nothing => TrayActionView::Nothing,
        }
    }
}

/// The action that belongs to the menu entry with the identifier `id`.
pub open spec fn action_of(id: Seq<char>) -> TrayActionView {
    if id == "show"@ {
        TrayActionView::ShowWindow
    } else if id == "hide"@ {
        TrayActionView::HideWindow
    } else if id == "mirror"@ {
        TrayActionView::Mirror
    } else if id == "audio"@ {
        TrayActionView::Audio
    } else if id == "quit"@ {
        TrayActionView::Quit
    } else if starts_with(id, "app:"@) {
        TrayActionView::App(id.skip(4))
    } else {
        TrayActionView::Nothing
    }
}

/// Decides what a click on the menu entry `id` asks for.
pub fn tray_action(id: &str) -> (action: TrayAction)
    ensures
        action@ == action_of(id@),
{
    proof {
        reveal_strlit("app:");
    }
    let v = to_chars(id);
    let n = v.len();
    assert(v@.subrange(0, n as int) =~= v@);
    if equals_in(&v, 0, n, "show") {
        TrayAction::ShowWindow
    } else if equals_in(&v, 0, n, "hide") {
        TrayAction::HideWindow
    } else if equals_in(&v, 0, n, "mirror") {
        TrayAction::Mirror
    } else if equals_in(&v, 0, n, "audio") {
        TrayAction::Audio
    } else if equals_in(&v, 0, n, "quit") {
        TrayAction::Quit
    } else if starts_with_in(&v, 0, n, "app:") {
        assert(v@.subrange(4, n as int) =~= id@.skip(4));
        TrayAction::App(text_from(&v, 4, n))
    } else {
        TrayAction::Nothing
    }
}

/// The words of a menu entry that is not an app's.
pub open spec fn label_of(entry: MenuEntry) -> Seq<char> {
    match entry {
        MenuEntry::Mirror => "屏幕镜像"@,
        MenuEntry::Audio => "纯音频"@,
        MenuEntry::Show => "显示主窗口"@,
        MenuEntry::Hide => "隐藏到托盘"@,
        MenuEntry::Quit => "退出"@,
        _ => Seq::empty(),
    }
}

/// The identifier of a menu entry that is not an app's.
pub open spec fn id_of(entry: MenuEntry) -> Seq<char> {
    match entry {
        MenuEntry::Mirror => "mirror"@,
        MenuEntry::Audio => "audio"@,
        MenuEntry::Show => "show"@,
        MenuEntry::Hide => "hide"@,
        MenuEntry::Quit => "quit"@,
        _ => Seq::empty(),
    }
}

/// Gives the identifier and the words of a menu entry that is not an app's;
/// two empty strings for a shortcut or a dividing line.
pub fn entry_texts(entry: MenuEntry) -> (texts: (String, String))
    ensures
        texts.0@ == id_of(entry),
        texts.1@ == label_of(entry),
{
    match entry {
        MenuEntry::Mirror => (String::from_str("mirror"), String::from_str("屏幕镜像")),
        MenuEntry::Audio => (String::from_str("audio"), String::from_str("纯音频")),
        MenuEntry::Show => (String::from_str("show"), String::from_str("显示主窗口")),
        MenuEntry::Hide => (String::from_str("hide"), String::from_str("隐藏到托盘")),
        MenuEntry::Quit => (String::from_str("quit"), String::from_str("退出")),
        _ => (String::new(), String::new()),
    }
}

} // verus!

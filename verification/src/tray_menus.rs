//! What the tray icons and windows of the three desktop apps do with the
//! events they receive: the gateway's Win32 tray, the woofer router's tray
//! menu and window, and the file-drop app's tray and start-up.
use vstd::prelude::*;
use crate::text::{str_eq, trim_both, trim_pred, trim, chars_of, TrimSet};

verus! {

// ---------------------------------------------------------------------------
// The gateway's tray
// ---------------------------------------------------------------------------

/// Menu command: open the web dashboard.
pub const IDM_OPEN_DASHBOARD: usize = 1001;
/// Menu command: open the configuration file.
pub const IDM_OPEN_CONFIG: usize = 1002;
/// Menu command: toggle the start with Windows.
pub const IDM_TOGGLE_AUTOSTART: usize = 1003;
/// Menu command: quit the gateway.
pub const IDM_EXIT: usize = 1004;

/// A mouse event reported on the tray icon.
#[derive(Clone, Copy, Debug, PartialEq, Eq, Structural)]
pub enum TrayMouseEvent {
    RightButtonUp,
    ContextMenu,
    LeftButtonUp,
    LeftButtonDoubleClick,
    Other,
}

/// A window message the tray window receives.
#[derive(Clone, Copy, Debug, PartialEq, Eq, Structural)]
pub enum TrayMessage {
    /// The icon's callback message, with the mouse event it reports.
    Icon(TrayMouseEvent),
    /// A menu command, by id.
    Command(usize),
    /// The window is destroyed.
    Destroy,
    /// Anything else, left to the default window procedure.
    Other,
}

/// An entry of the tray's pop-up menu.
pub enum MenuEntry {
    Item { id: usize, label: String },
    Separator,
}

/// What the tray does with a message.
pub enum TrayAction {
    /// Pops up the menu at the cursor.
    ShowMenu(Vec<MenuEntry>),
    OpenDashboard,
    OpenConfig,
    EnableAutostart,
    DisableAutostart,
    /// Removes the pid file and ends the process.
    Exit,
    /// Ends the message loop.
    Quit,
    /// Handled; nothing to do.
    Nothing,
    /// Left to the default window procedure.
    Default,
}

/// The label of the autostart entry, by its current state.
pub open spec fn autostart_label_of(enabled: bool) -> Seq<char> {
    if enabled {
        "🔄 부팅 시 자동 시작 (ON)"@
    } else {
        "🔄 부팅 시 자동 시작 (OFF)"@
    }
}

/// A menu entry read as plain values: an item's id and label, nothing for
/// a separator.
pub open spec fn entry_view(e: MenuEntry) -> Option<(usize, Seq<char>)> {
    match e {
        MenuEntry::Item { id, label } => Some((id, label@)),
        MenuEntry::Separator => None,
    }
}

/// The pop-up menu: dashboard, configuration, autostart, a separator, exit.
pub open spec fn tray_menu_of(autostart_enabled: bool) -> Seq<Option<(usize, Seq<char>)>> {
    seq![
        Some((IDM_OPEN_DASHBOARD, "🌐 웹 대시보드 열기"@)),
        Some((IDM_OPEN_CONFIG, "⚙️ 설정 파일 열기"@)),
        Some((IDM_TOGGLE_AUTOSTART, autostart_label_of(autostart_enabled))),
        None,
        Some((IDM_EXIT, "❌ 게이트웨이 종료"@)),
    ]
}

/// Builds the pop-up menu (see [`tray_menu_of`]).
pub fn tray_menu(autostart_enabled: bool) -> (r: Vec<MenuEntry>)
    ensures
        r@.map_values(|e: MenuEntry| entry_view(e)) == tray_menu_of(autostart_enabled),
{
    let label = if autostart_enabled {
        "🔄 부팅 시 자동 시작 (ON)".to_owned()
    } else {
        "🔄 부팅 시 자동 시작 (OFF)".to_owned()
    };
    let r = vec![
        MenuEntry::Item { id: IDM_OPEN_DASHBOARD, label: "🌐 웹 대시보드 열기".to_owned() },
        MenuEntry::Item { id: IDM_OPEN_CONFIG, label: "⚙️ 설정 파일 열기".to_owned() },
        MenuEntry::Item { id: IDM_TOGGLE_AUTOSTART, label },
        MenuEntry::Separator,
        MenuEntry::Item { id: IDM_EXIT, label: "❌ 게이트웨이 종료".to_owned() },
    ];
    assert(r@.map_values(|e: MenuEntry| entry_view(e)) =~= tray_menu_of(autostart_enabled));
    r
}

/// The tray window's handling of a message: a right click pops up the
/// menu, a left click or double click opens the dashboard, a command runs
/// its entry (the autostart entry switches the current state), and
/// destruction ends the loop.
pub fn tray_action(msg: TrayMessage, autostart_enabled: bool) -> (r: TrayAction)
    ensures
        match msg {
            TrayMessage::Icon(TrayMouseEvent::RightButtonUp) | TrayMessage::Icon(
                TrayMouseEvent::ContextMenu,
            ) => r matches TrayAction::ShowMenu(m) && m@.map_values(|e: MenuEntry| entry_view(e))
                == tray_menu_of(autostart_enabled),
            TrayMessage::Icon(TrayMouseEvent::LeftButtonUp) | TrayMessage::Icon(
                TrayMouseEvent::LeftButtonDoubleClick,
            ) => r is OpenDashboard,
            TrayMessage::Icon(TrayMouseEvent::Other) => r is Nothing,
            TrayMessage::Command(id) => if id == IDM_OPEN_DASHBOARD {
                r is OpenDashboard
            } else if id == IDM_OPEN_CONFIG {
                r is OpenConfig
            } else if id == IDM_TOGGLE_AUTOSTART {
                if autostart_enabled {
                    r is DisableAutostart
                } else {
                    r is EnableAutostart
                }
            } else if id == IDM_EXIT {
                r is Exit
            } else {
                r is Nothing
            },
            TrayMessage::Destroy => r is Quit,
            TrayMessage::Other => r is Default,
        },
{
    match msg {
        TrayMessage::Icon(e) => match e {
            TrayMouseEvent::RightButtonUp | TrayMouseEvent::ContextMenu => TrayAction::ShowMenu(
                tray_menu(autostart_enabled),
            ),
            TrayMouseEvent::LeftButtonUp | TrayMouseEvent::LeftButtonDoubleClick => {
                TrayAction::OpenDashboard
            },
            TrayMouseEvent::Other => TrayAction::Nothing,
        },
        TrayMessage::Command(id) => {
            if id == IDM_OPEN_DASHBOARD {
                TrayAction::OpenDashboard
            } else if id == IDM_OPEN_CONFIG {
                TrayAction::OpenConfig
            } else if id == IDM_TOGGLE_AUTOSTART {
                if autostart_enabled {
                    TrayAction::DisableAutostart
                } else {
                    TrayAction::EnableAutostart
                }
            } else if id == IDM_EXIT {
                TrayAction::Exit
            } else {
                TrayAction::Nothing
            }
        },
        TrayMessage::Destroy => TrayAction::Quit,
        TrayMessage::Other => TrayAction::Default,
    }
}

// ---------------------------------------------------------------------------
// The woofer router's tray and window
// ---------------------------------------------------------------------------

/// What the router's main window does for a tray menu entry or window
/// event.
pub enum WindowAction {
    /// Shows, restores and focuses the window.
    Show,
    /// Focuses the window, which is already on screen.
    Focus,
    /// Sends an event to the page, with a text payload (empty for none).
    Emit { event: String, payload: String },
    /// Ends the app.
    Exit,
    /// Nothing to do.
    Nothing,
}

/// An action read as plain values: a tag, then the event and payload of an
/// emitted event.
pub open spec fn action_view(a: WindowAction) -> (u8, Seq<char>, Seq<char>) {
    match a {
        WindowAction::Show => (0, Seq::empty(), Seq::empty()),
        WindowAction::Focus => (1, Seq::empty(), Seq::empty()),
        WindowAction::Emit { event, payload } => (2, event@, payload@),
        WindowAction::Exit => (3, Seq::empty(), Seq::empty()),
        WindowAction::Nothing => (4, Seq::empty(), Seq::empty()),
    }
}

/// The router's tray menu: `open` shows the window; the presets are sent to
/// the page; the monitors and settings focus a window already on screen and
/// are otherwise opened by the page; `quit` ends the app.
pub open spec fn router_menu_action_of(id: Seq<char>, visible: bool, minimized: bool) -> (u8, Seq<char>, Seq<char>) {
    let on_screen = visible && !minimized;
    if id == "open"@ {
        (0, Seq::empty(), Seq::empty())
    } else if id == "preset_movie"@ {
        (2, "load-preset"@, "Movie"@)
    } else if id == "preset_music"@ {
        (2, "load-preset"@, "Music"@)
    } else if id == "preset_gaming"@ {
        (2, "load-preset"@, "Gaming"@)
    } else if id == "signal_earphone"@ {
        if on_screen { (1, Seq::empty(), Seq::empty()) } else { (2, "open-signal"@, "earphone"@) }
    } else if id == "signal_speaker"@ {
        if on_screen { (1, Seq::empty(), Seq::empty()) } else { (2, "open-signal"@, "speaker"@) }
    } else if id == "settings"@ {
        if on_screen { (1, Seq::empty(), Seq::empty()) } else { (2, "open-settings"@, Seq::empty()) }
    } else if id == "quit"@ {
        (3, Seq::empty(), Seq::empty())
    } else {
        (4, Seq::empty(), Seq::empty())
    }
}

/// An event for the page.
fn emit(event: &str, payload: &str) -> (r: WindowAction)
    ensures
        action_view(r) == (2u8, event@, payload@),
{
    WindowAction::Emit { event: event.to_owned(), payload: payload.to_owned() }
}

/// Chooses [`router_menu_action_of`].
pub fn router_menu_action(id: &str, visible: bool, minimized: bool) -> (r: WindowAction)
    ensures
        action_view(r) == router_menu_action_of(id@, visible, minimized),
{
    let on_screen = visible && !minimized;
    if str_eq(id, "open") {
        WindowAction::Show
    } else if str_eq(id, "preset_movie") {
        emit("load-preset", "Movie")
    } else if str_eq(id, "preset_music") {
        emit("load-preset", "Music")
    } else if str_eq(id, "preset_gaming") {
        emit("load-preset", "Gaming")
    } else if str_eq(id, "signal_earphone") {
        if on_screen { WindowAction::Focus } else { emit("open-signal", "earphone") }
    } else if str_eq(id, "signal_speaker") {
        if on_screen { WindowAction::Focus } else { emit("open-signal", "speaker") }
    } else if str_eq(id, "settings") {
        if on_screen {
            WindowAction::Focus
        } else {
            proof {
                reveal_strlit("");
            }
            let r = emit("open-settings", "");
            assert(""@ =~= Seq::<char>::empty());
            r
        }
    } else if str_eq(id, "quit") {
        WindowAction::Exit
    } else {
        WindowAction::Nothing
    }
}

/// Whether the command line asks to start in the background: one argument
/// is exactly `flag`.
pub open spec fn has_flag(args: Seq<Seq<char>>, flag: Seq<char>) -> bool {
    exists|i: int| 0 <= i < args.len() && #[trigger] args[i] == flag
}

/// Decides [`has_flag`].
pub fn args_have_flag(args: &Vec<String>, flag: &str) -> (r: bool)
    ensures
        r == has_flag(args@.map_values(|s: String| s@), flag@),
{
    let ghost v = args@.map_values(|s: String| s@);
    let mut i: usize = 0;
    while i < args.len()
        invariant
            i <= args.len(),
            v == args@.map_values(|s: String| s@),
            forall|j: int| 0 <= j < i ==> #[trigger] v[j] != flag@,
        decreases args.len() - i,
    {
        if str_eq(args[i].as_str(), flag) {
            assert(v[i as int] == flag@);
            return true;
        }
        i += 1;
    }
    false
}

/// The router shows its window at start unless it was started by the
/// system with `--autostart`.
pub fn router_shows_window_at_start(args: &Vec<String>) -> (r: bool)
    ensures
        r == !has_flag(args@.map_values(|s: String| s@), "--autostart"@),
{
    !args_have_flag(args, "--autostart")
}

// ---------------------------------------------------------------------------
// The file-drop app
// ---------------------------------------------------------------------------

/// The file-drop app's tray menu: `open` shows the window, `quit` ends the
/// app.
pub fn drop_menu_action(id: &str) -> (r: WindowAction)
    ensures
        action_view(r) == if id@ == "open"@ {
            (0u8, Seq::<char>::empty(), Seq::<char>::empty())
        } else if id@ == "quit"@ {
            (3u8, Seq::<char>::empty(), Seq::<char>::empty())
        } else {
            (4u8, Seq::<char>::empty(), Seq::<char>::empty())
        },
{
    if str_eq(id, "open") {
        WindowAction::Show
    } else if str_eq(id, "quit") {
        WindowAction::Exit
    } else {
        WindowAction::Nothing
    }
}

/// The file-drop app hides its window at start when launched with
/// `--background`.
pub fn drop_starts_hidden(args: &Vec<String>) -> (r: bool)
    ensures
        r == has_flag(args@.map_values(|s: String| s@), "--background"@),
{
    args_have_flag(args, "--background")
}

/// The name this device announces: the host name when it is not blank,
/// else `fallback`.
pub open spec fn device_name_or(host_name: Option<Seq<char>>, fallback: Seq<char>) -> Seq<char> {
    match host_name {
        Some(n) => if trim_both(n, trim_pred(TrimSet::WhiteSpace)).len() > 0 {
            n
        } else {
            fallback
        },
        None => fallback,
    }
}

/// Chooses [`device_name_or`], with the desktop app's fallback name.
pub fn default_device_name(host_name: Option<String>) -> (r: String)
    ensures
        r@ == device_name_or(
            match host_name {
                Some(n) => Some(n@),
                None => None,
            },
            "Vesper Drop 기기"@,
        ),
{
    match host_name {
        Some(n) => {
            let c = chars_of(n.as_str());
            let t = trim(&c, TrimSet::WhiteSpace);
            if t.len() > 0 {
                n
            } else {
                "Vesper Drop 기기".to_owned()
            }
        },
        None => "Vesper Drop 기기".to_owned(),
    }
}

} // verus!

//! Which of the desktop's top-level windows are worth reading.

use vstd::prelude::*;
use vstd::string::*;
use crate::text::{occurs_in, same_text, str_contains};

verus! {

/// A window that can be captured: its handle and its title.
#[derive(Debug, Clone)]
pub struct HwndName {
    pub hwnd: isize,
    pub window_name: String,
}

/// Why no list of windows could be made.
#[derive(Debug, Clone, Copy, PartialEq, Eq, Structural)]
pub enum WLError {
    /// The platform refused to enumerate the top-level windows.
    EnumWindowsError,
}

/// What the platform reports of one top-level window.
#[derive(Debug, Clone)]
pub struct WindowProbe {
    pub hwnd: isize,
    pub visible: bool,
    /// The window's title; empty where it has none or it could not be read.
    pub title: String,
    pub class_name: String,
    /// Width and height of the client area, where the platform gave them.
    pub client_size: Option<(i32, i32)>,
    /// The process that owns the window.
    pub process_id: u32,
}

/// The first reason, in the order they are tested, for which a window is not
/// read.
#[derive(Debug, Clone, Copy, PartialEq, Eq, Structural)]
pub enum Exclusion {
    /// The window is not visible.
    Hidden,
    /// The window has no title.
    Untitled,
    /// The window belongs to the desktop shell, the task manager or a core
    /// window host.
    ShellClass,
    /// The window's class marks it as a wrapper around another window.
    WrapperClass,
    /// The window is a settings window.
    SettingsTitle,
    /// The window shows the assistant's own settings page.
    SettingsPage,
    /// The platform gave no client area.
    NoClientArea,
    /// The client area is too small to have been rendered.
    TooSmall,
    /// The window belongs to this process.
    OwnProcess,
}

/// The least client area, in pixels, of a window that counts as rendered.
pub const MIN_CLIENT_AREA: i64 = 10000;

/// Whether `class` is one of the window classes that are never read.
pub open spec fn is_shell_class(class: Seq<char>) -> bool {
    class == "Progman"@ || class == "TaskManagerWindow"@ || class == "Windows.UI.Core.CoreWindow"@
}

/// The first reason for which `probe` is not read, or `None` if it is read.
pub open spec fn exclusion_of(probe: WindowProbe, current_process_id: u32) -> Option<Exclusion> {
    if !probe.visible {
        Some(Exclusion::Hidden)
    } else if probe.title@.len() == 0 {
        Some(Exclusion::Untitled)
    } else if is_shell_class(probe.class_name@) {
        Some(Exclusion::ShellClass)
    } else if occurs_in("HwndWrapper"@, probe.class_name@) {
        Some(Exclusion::WrapperClass)
    } else if probe.title@ == "Settings"@ {
        Some(Exclusion::SettingsTitle)
    } else if occurs_in("settings.html"@, probe.title@) {
        Some(Exclusion::SettingsPage)
    } else {
        match probe.client_size {
            None => Some(Exclusion::NoClientArea),
            Some((width, height)) => if width * height < MIN_CLIENT_AREA {
                Some(Exclusion::TooSmall)
            } else if probe.process_id == current_process_id {
                Some(Exclusion::OwnProcess)
            } else {
                None
            },
        }
    }
}

/// The handles and titles of the windows among `probes` that are read, in
/// the order of `probes`.
pub open spec fn eligible(probes: Seq<WindowProbe>, current_process_id: u32) -> Seq<
    (isize, Seq<char>),
>
    decreases probes.len(),
{
    if probes.len() == 0 {
        Seq::empty()
    } else if exclusion_of(probes.last(), current_process_id) is None {
        eligible(probes.drop_last(), current_process_id).push(
            (probes.last().hwnd, probes.last().title@),
        )
    } else {
        eligible(probes.drop_last(), current_process_id)
    }
}

/// The handles and titles of a list of windows.
pub open spec fn names(windows: Seq<HwndName>) -> Seq<(isize, Seq<char>)> {
    Seq::new(windows.len(), |i: int| windows[i]@)
}

impl View for HwndName {
    type V = (isize, Seq<char>);

    /// The handle and the title's characters.
    open spec fn view(&self) -> (isize, Seq<char>) {
        (self.hwnd, self.window_name@)
    }
}

/// The first reason for which `probe` is not read, or `None` if it is read.
pub fn exclusion(probe: &WindowProbe, current_process_id: u32) -> (r: Option<Exclusion>)
    ensures
        r == exclusion_of(*probe, current_process_id),
{
    let title = probe.title.as_str();
    let class = probe.class_name.as_str();
    if !probe.visible {
        return Some(Exclusion::Hidden);
    }
    if title.is_empty() {
        return Some(Exclusion::Untitled);
    }
    if same_text(class, "Progman") || same_text(class, "TaskManagerWindow") || same_text(
        class,
        "Windows.UI.Core.CoreWindow",
    ) {
        return Some(Exclusion::ShellClass);
    }
    if str_contains(class, "HwndWrapper") {
        return Some(Exclusion::WrapperClass);
    }
    if same_text(title, "Settings") {
        return Some(Exclusion::SettingsTitle);
    }
    if str_contains(title, "settings.html") {
        return Some(Exclusion::SettingsPage);
    }
    match probe.client_size {
        None => Some(Exclusion::NoClientArea),
        Some((width, height)) => {
            assert(-0x4000_0000_0000_0000 <= width * height <= 0x4000_0000_0000_0000)
                by (nonlinear_arith)
                requires
                    -0x8000_0000 <= width <= 0x7fff_ffff,
                    -0x8000_0000 <= height <= 0x7fff_ffff,
            ;
            let area: i64 = (width as i64) * (height as i64);
            if area < MIN_CLIENT_AREA {
                Some(Exclusion::TooSmall)
            } else if probe.process_id == current_process_id {
                Some(Exclusion::OwnProcess)
            } else {
                None
            }
        },
    }
}

/// The windows to read, in enumeration order. `enumerated` is what the
/// platform reported of each top-level window, or `None` where it refused to
/// enumerate them; `current_process_id` names the process whose own windows
/// are left out.
pub fn get_window_list(enumerated: Option<&Vec<WindowProbe>>, current_process_id: u32) -> (r:
    Result<Vec<HwndName>, WLError>)
    ensures
        enumerated is None <==> r is Err,
        r is Err ==> r->Err_0 == WLError::EnumWindowsError,
        r is Ok ==> names(r->Ok_0@) == eligible(enumerated->Some_0@, current_process_id),
{
    let probes = match enumerated {
        Some(probes) => probes,
        None => {
            return Err(WLError::EnumWindowsError);
        },
    };
    let mut hwnd_name: Vec<HwndName> = Vec::new();
    let mut i: usize = 0;
    while i < probes.len()
        invariant
            i <= probes.len(),
            names(hwnd_name@) == eligible(probes@.take(i as int), current_process_id),
        decreases probes.len() - i,
    {
        proof {
            let next = probes@.take(i + 1);
            assert(next.drop_last() =~= probes@.take(i as int));
            assert(next.last() == probes@[i as int]);
        }
        if exclusion(&probes[i], current_process_id).is_none() {
            let ghost before = names(hwnd_name@);
            let window = HwndName { hwnd: probes[i].hwnd, window_name: probes[i].title.clone() };
            hwnd_name.push(window);
            assert(names(hwnd_name@) =~= before.push((probes@[i as int].hwnd, probes@[i as int].title@)));
        }
        i += 1;
    }
    proof {
        assert(probes@.take(probes@.len() as int) =~= probes@);
    }
    Ok(hwnd_name)
}

/// A window that is left out changes nothing about the others: the list is
/// the same as if that window had never been reported.
pub proof fn lemma_excluded_window_is_dropped(
    before: Seq<WindowProbe>,
    probe: WindowProbe,
    after: Seq<WindowProbe>,
    current_process_id: u32,
)
    requires
        exclusion_of(probe, current_process_id) is Some,
    ensures
        eligible(before.push(probe) + after, current_process_id) == eligible(
            before + after,
            current_process_id,
        ),
    decreases after.len(),
{
    if after.len() == 0 {
        assert(before.push(probe) + after =~= before.push(probe));
        assert(before.push(probe).drop_last() =~= before);
        assert(before + after =~= before);
    } else {
        lemma_excluded_window_is_dropped(before, probe, after.drop_last(), current_process_id);
        assert((before.push(probe) + after).drop_last() =~= before.push(probe) + after.drop_last());
        assert((before + after).drop_last() =~= before + after.drop_last());
    }
}

} // verus!

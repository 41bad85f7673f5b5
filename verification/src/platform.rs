//! The per-OS window shim and the identity of the application that owns a window.
//!
//! [`Platform`] is a handful of dumb I/O methods with no placement logic; everything that
//! decides lives in the geometry, state and config modules. The real shims (Accessibility on
//! macOS, Win32 on Windows) live with the application; [`StubPlatform`] stands in elsewhere.

use vstd::prelude::*;
use vstd::string::StringExecFns;
use crate::geometry::Rect;

verus! {

/// Identity of the application that owns a window: its stable id (bundle id on macOS, exe
/// path on Windows) and its display name. Missing pieces are `None`.
#[derive(Debug, Clone)]
pub struct WindowIdentity {
    pub bundle_id: Option<String>,
    pub name: Option<String>,
}

/// The view of an optional string.
pub open spec fn opt_str(o: Option<String>) -> Option<Seq<char>> {
    match o {
        Some(s) => Some(s@),
        None => None,
    }
}

/// The views of a list of strings.
pub open spec fn str_views(list: Seq<String>) -> Seq<Seq<char>> {
    list.map_values(|s: String| s@)
}

impl WindowIdentity {
    /// The ignore-list key: the stable id when the app reports one, else its name.
    pub open spec fn spec_key(self) -> Option<Seq<char>> {
        match self.bundle_id {
            Some(b) => Some(b@),
            None => opt_str(self.name),
        }
    }

    /// The label shown in "Ignore [App]": the name, else the stable id, else a generic label.
    pub open spec fn spec_display_label(self) -> Seq<char> {
        match self.name {
            Some(n) => n@,
            None => match self.bundle_id {
                Some(b) => b@,
                None => "Current App"@,
            },
        }
    }

    /// Whether the app is on the ignore list `list` (by its key).
    pub open spec fn spec_is_ignored(self, list: Seq<Seq<char>>) -> bool {
        match self.spec_key() {
            Some(k) => list.contains(k),
            None => false,
        }
    }

    /// An identity with nothing known.
    pub fn unknown() -> (r: WindowIdentity)
        ensures
            r.bundle_id is None,
            r.name is None,
    {
        WindowIdentity { bundle_id: None, name: None }
    }

    /// The stable ignore-list key (bundle id / exe path, falling back to the name), or `None`
    /// when the app is anonymous.
    pub fn key(&self) -> (r: Option<String>)
        ensures
            opt_str(r) == self.spec_key(),
    {
        match &self.bundle_id {
            Some(b) => Some(b.clone()),
            None => match &self.name {
                Some(n) => Some(n.clone()),
                None => None,
            },
        }
    }

    /// The display name for the "Ignore [App]" label.
    pub fn display_label(&self) -> (r: String)
        ensures
            r@ == self.spec_display_label(),
    {
        match &self.name {
            Some(n) => n.clone(),
            None => match &self.bundle_id {
                Some(b) => b.clone(),
                None => String::from_str("Current App"),
            },
        }
    }

    /// Whether this app is on the ignore list.
    pub fn is_ignored(&self, ignore_apps: &[String]) -> (r: bool)
        ensures
            r == self.spec_is_ignored(str_views(ignore_apps@)),
    {
        let key = self.key();
        match key {
            None => false,
            Some(k) => {
                let mut i: usize = 0;
                while i < ignore_apps.len()
                    invariant
                        i <= ignore_apps@.len(),
                        self.spec_key() == Some(k@),
                        forall|j: int| 0 <= j < i ==> (#[trigger] ignore_apps@[j])@ != k@,
                    decreases ignore_apps@.len() - i,
                {
                    if crate::text::str_equal(ignore_apps[i].as_str(), k.as_str()) {
                        proof {
                            let views = str_views(ignore_apps@);
                            assert(views[i as int] == k@);
                            assert(views.contains(k@));
                        }
                        return true;
                    }
                    i = i + 1;
                }
                proof {
                    let views = str_views(ignore_apps@);
                    assert forall|j: int| 0 <= j < views.len() implies views[j] != k@ by {
                        assert(views[j] == ignore_apps@[j]@);
                    }
                }
                false
            },
        }
    }
}

impl Default for WindowIdentity {
    fn default() -> (r: WindowIdentity)
        ensures
            r.bundle_id is None,
            r.name is None,
    {
        WindowIdentity::unknown()
    }
}

/// The per-OS I/O shim: raw window reads and writes only, no placement logic. Frames are in
/// the shared top-left absolute space.
pub trait Platform {
    /// Opaque handle to a native window.
    type Window;

    /// The focused window of the frontmost application.
    fn focused_window(&self) -> Result<Self::Window, String>;

    /// Current frame of `win`.
    fn frame(&self, win: &Self::Window) -> Rect;

    /// Move and resize `win` to `rect`.
    fn set_frame(&self, win: &Self::Window, rect: Rect) -> Result<(), String>;

    /// Work area (excluding menu bar / dock / taskbar) of the display `win` is on.
    fn work_area(&self, win: &Self::Window) -> Rect;

    /// Work areas of all displays.
    fn displays(&self) -> Vec<Rect>;

    /// Owning-application identity of `win`.
    fn identity(&self, win: &Self::Window) -> WindowIdentity;
}

/// Placeholder shim for systems without window control: every window operation fails and
/// every read is empty.
pub struct StubPlatform;

impl Platform for StubPlatform {
    type Window = ();

    fn focused_window(&self) -> (r: Result<(), String>)
        ensures
            r matches Err(e) && e@ == "window control is only implemented on macOS so far"@,
    {
        Err(String::from_str("window control is only implemented on macOS so far"))
    }

    fn frame(&self, win: &()) -> (r: Rect)
        ensures
            r == (Rect { x: 0, y: 0, w: 0, h: 0 }),
    {
        Rect::zero()
    }

    fn set_frame(&self, win: &(), rect: Rect) -> (r: Result<(), String>)
        ensures
            r matches Err(e) && e@ == "window control is only implemented on macOS so far"@,
    {
        Err(String::from_str("window control is only implemented on macOS so far"))
    }

    fn work_area(&self, win: &()) -> (r: Rect)
        ensures
            r == (Rect { x: 0, y: 0, w: 0, h: 0 }),
    {
        Rect::zero()
    }

    fn displays(&self) -> (r: Vec<Rect>)
        ensures
            r@.len() == 0,
    {
        Vec::new()
    }

    fn identity(&self, win: &()) -> (r: WindowIdentity)
        ensures
            r.bundle_id is None,
            r.name is None,
    {
        WindowIdentity::unknown()
    }
}

/// The shim of a system without native window control.
pub fn platform() -> (r: StubPlatform) {
    StubPlatform
}

} // verus!

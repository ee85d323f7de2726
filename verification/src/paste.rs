//! Paste-target tracking: which foreign window receives a simulated Ctrl+V.
//!
//! The window-system queries (foreground window, ancestry, ownership) are made
//! by the platform layer; the decisions over their results live here. On
//! platforms without window-system support the query functions below report
//! "nothing to paste into" and the key simulation does nothing.
use vstd::prelude::*;

use crate::record::ClipboardRecord;
use crate::db::ClipboardDb;
use crate::sqlite::{DbError, runs};
use crate::query::SqlValue;
use crate::capture::BUMP_COPY_SQL;
use crate::text::str_eq;

verus! {

/// What the platform layer observed about the current foreground window.
#[derive(Debug, Clone, Copy)]
pub struct ForegroundObservation {
    /// Foreground window handle (0 when there is none).
    pub hwnd: isize,
    /// The window belongs to this application (same process or our main window).
    pub belongs_to_us: bool,
    /// Root ancestor of the window (the window itself when it has none).
    pub root: isize,
}

/// Paste-target state: our main window, the last foreign window worth
/// pasting into, and the last foreground window the tracker saw.
#[derive(Debug, Clone, Copy)]
pub struct PasteTargets {
    our_main: isize,
    target: Option<isize>,
    last_seen_fg: isize,
}

impl PasteTargets {
    pub closed spec fn our_main_spec(&self) -> Option<isize> {
        if self.our_main == 0 {
            None
        } else {
            Some(self.our_main)
        }
    }

    pub closed spec fn target_spec(&self) -> Option<isize> {
        self.target
    }

    pub closed spec fn last_seen_spec(&self) -> isize {
        self.last_seen_fg
    }

    pub fn new() -> (r: Self)
        ensures
            r.our_main_spec() is None,
            r.target_spec() is None,
            r.last_seen_spec() == 0,
    {
        PasteTargets { our_main: 0, target: None, last_seen_fg: 0 }
    }

    /// Cache our main window so the tracker can ignore WebView2-hosted
    /// foreground windows. `None` (or a 0 handle) clears it.
    pub fn set_our_main_hwnd(&mut self, hwnd: Option<isize>)
        ensures
            final(self).our_main_spec() == (match hwnd {
                Some(h) => if h == 0 { None } else { Some(h) },
                None => None,
            }),
            final(self).target_spec() == old(self).target_spec(),
            final(self).last_seen_spec() == old(self).last_seen_spec(),
    {
        self.our_main = match hwnd {
            Some(h) => h,
            None => 0,
        };
    }

    pub fn our_main_hwnd(&self) -> (r: Option<isize>)
        ensures
            r == self.our_main_spec(),
    {
        if self.our_main == 0 {
            None
        } else {
            Some(self.our_main)
        }
    }

    /// The remembered paste destination.
    pub fn paste_target_hwnd(&self) -> (r: Option<isize>)
        ensures
            r == self.target_spec(),
    {
        self.target
    }

    /// Tracker tick: remember the root of a new foreign foreground window.
    /// A missing foreground, the same window as last tick, or one of our own
    /// windows leaves the target as it is.
    pub fn track_foreground(&mut self, fg: ForegroundObservation)
        ensures
            fg.hwnd == 0 || fg.hwnd == old(self).last_seen_spec() ==> *final(self) == *old(self),
            fg.hwnd != 0 && fg.hwnd != old(self).last_seen_spec() ==> {
                &&& final(self).last_seen_spec() == fg.hwnd
                &&& final(self).our_main_spec() == old(self).our_main_spec()
                &&& final(self).target_spec() == if fg.belongs_to_us {
                    old(self).target_spec()
                } else {
                    Some(fg.root)
                }
            },
    {
        if fg.hwnd == 0 || fg.hwnd == self.last_seen_fg {
            return;
        }
        self.last_seen_fg = fg.hwnd;
        if fg.belongs_to_us {
            return;
        }
        self.target = Some(fg.root);
    }

    /// Snapshot the current foreground window as the paste destination unless
    /// it is ours; a given `our_hwnd` also becomes the cached main window.
    pub fn remember_target(&mut self, our_hwnd: Option<isize>, fg: ForegroundObservation)
        ensures
            final(self).our_main_spec() == (match our_hwnd {
                Some(h) => if h == 0 { None } else { Some(h) },
                None => old(self).our_main_spec(),
            }),
            final(self).target_spec() == if fg.hwnd == 0 || fg.belongs_to_us {
                old(self).target_spec()
            } else {
                Some(fg.root)
            },
            final(self).last_seen_spec() == old(self).last_seen_spec(),
    {
        if our_hwnd.is_some() {
            self.set_our_main_hwnd(our_hwnd);
        }
        if fg.hwnd == 0 || fg.belongs_to_us {
            return;
        }
        self.target = Some(fg.root);
    }

    /// Resolve the paste destination: the remembered window when it still
    /// exists and is foreign (as its root), else the current foreground when
    /// foreign (which is then remembered), else none.
    pub fn resolve_target(
        &mut self,
        remembered_usable: bool,
        remembered_root: isize,
        fg: ForegroundObservation,
    ) -> (r: Option<isize>)
        ensures
            old(self).target_spec() is Some && remembered_usable ==> r == Some(remembered_root)
                && *final(self) == *old(self),
            !(old(self).target_spec() is Some && remembered_usable) && fg.hwnd != 0
                && !fg.belongs_to_us ==> r == Some(fg.root) && final(self).target_spec() == Some(
                fg.root,
            ) && final(self).our_main_spec() == old(self).our_main_spec()
                && final(self).last_seen_spec() == old(self).last_seen_spec(),
            !(old(self).target_spec() is Some && remembered_usable) && !(fg.hwnd != 0
                && !fg.belongs_to_us) ==> r is None && *final(self) == *old(self),
    {
        if self.target.is_some() && remembered_usable {
            return Some(remembered_root);
        }
        if fg.hwnd != 0 && !fg.belongs_to_us {
            self.target = Some(fg.root);
            return Some(fg.root);
        }
        None
    }
}

// ---------------------------------------------------------------------------
// Pasting a record
// ---------------------------------------------------------------------------

/// How a record is put on the clipboard before the paste keystroke.
#[derive(Debug, Clone, PartialEq, Eq)]
pub enum ClipboardWrite {
    /// The stored PNG of an image record (relative media path); pixels are
    /// the fallback when the PNG cannot be placed.
    Image { media_path: String },
    /// Text with its rich-text variant when it has one.
    Rich { text: String, html: Option<String> },
    /// Text only (`mode == "plain"`).
    Plain { text: String },
}

pub open spec fn write_error(record: Option<ClipboardRecord>) -> Option<Seq<char>> {
    match record {
        None => Some("记录不存在或已在回收站"@),
        Some(r) => if r.content_type@ == "image"@ && r.media_path is None {
            Some("该记录的图片文件缺失"@)
        } else {
            None
        },
    }
}

/// The message of a paste whose clipboard write failed.
pub const WRITE_FAILED_MESSAGE: &'static str = "写入剪贴板失败";

/// Why a paste did not complete after the record was found.
#[derive(Debug)]
pub enum PasteFailure {
    /// The clipboard refused the write.
    WriteFailed,
    /// Counting the paste failed.
    Store(DbError),
}

impl ClipboardDb {
    /// Finish a paste of record `id` once the clipboard write was tried: a
    /// failed write is an error and counts nothing; a done write counts
    /// exactly one paste.
    pub fn finish_paste(&mut self, id: i64, wrote: bool) -> (r: Result<(), PasteFailure>)
        ensures
            final(self).frame(*old(self)),
            !wrote ==> (r matches Err(PasteFailure::WriteFailed)),
            !wrote ==> final(self).log() == old(self).log(),
            wrote ==> !(r matches Err(PasteFailure::WriteFailed)),
            wrote && r is Ok ==> runs(
                final(self).sent_since(*old(self)),
                seq![(BUMP_COPY_SQL@, seq![SqlValue::Int(id as int)])],
            ),
    {
        if !wrote {
            return Err(PasteFailure::WriteFailed);
        }
        match self.bump_copy_count(id) {
            Ok(()) => Ok(()),
            Err(e) => Err(PasteFailure::Store(e)),
        }
    }
}

/// What to write for `record` (the active record, if it exists) in `mode`.
pub fn plan_clipboard_write(record: Option<&ClipboardRecord>, mode: Option<&str>) -> (r: Result<
    ClipboardWrite,
    String,
>)
    ensures
        match write_error(
            match record {
                Some(x) => Some(*x),
                None => None,
            },
        ) {
            Some(e) => r matches Err(m) && m@ == e,
            None => r matches Ok(w) && match w {
                ClipboardWrite::Image { media_path } => record.unwrap().content_type@ == "image"@
                    && (record.unwrap().media_path matches Some(p) && media_path@ == p@),
                ClipboardWrite::Plain { text } => record.unwrap().content_type@ != "image"@
                    && (mode matches Some(m) && m@ == "plain"@) && text@ == record.unwrap().content@,
                ClipboardWrite::Rich { text, html } => record.unwrap().content_type@ != "image"@
                    && !(mode matches Some(m) && m@ == "plain"@) && text@
                    == record.unwrap().content@ && crate::records::opt_view(html)
                    == crate::records::opt_view(record.unwrap().content_html),
            },
        },
{
    let r = match record {
        Some(r) => r,
        None => {
            return Err("记录不存在或已在回收站".to_owned());
        },
    };
    if str_eq(r.content_type.as_str(), "image") {
        return match &r.media_path {
            Some(p) => Ok(ClipboardWrite::Image { media_path: p.clone() }),
            None => Err("该记录的图片文件缺失".to_owned()),
        };
    }
    let plain = match mode {
        Some(m) => str_eq(m, "plain"),
        None => false,
    };
    if plain {
        Ok(ClipboardWrite::Plain { text: r.content.clone() })
    } else {
        Ok(ClipboardWrite::Rich { text: r.content.clone(), html: crate::bundle::clone_opt_text(&r.content_html) })
    }
}

/// Retries after the panel yields the foreground.
pub const PASTE_FOCUS_RETRIES: u32 = 5;

/// Focus state of one paste: the target window, whether it took focus, and
/// how many retries ran.
#[derive(Debug, Clone, Copy)]
pub struct PasteFocus {
    pub target: Option<isize>,
    pub focused: bool,
    pub retries: u32,
}

impl PasteFocus {
    /// The state after the first target resolution (nothing focused yet).
    pub fn new(target: Option<isize>) -> (r: PasteFocus)
        ensures
            r.target == target && !r.focused && r.retries == 0,
    {
        PasteFocus { target, focused: false, retries: 0 }
    }

    /// Record the result of focusing the target.
    pub fn on_focus(&mut self, ok: bool)
        ensures
            final(self).focused == (old(self).focused || ok),
            final(self).target == old(self).target,
            final(self).retries == old(self).retries,
    {
        self.focused = self.focused || ok;
    }

    /// Whether another retry runs: the target is missing or unfocused, and
    /// fewer than five retries ran. Starting a retry counts it.
    pub fn start_retry(&mut self) -> (r: bool)
        requires
            old(self).retries <= PASTE_FOCUS_RETRIES,
        ensures
            r == (!(old(self).target is Some && old(self).focused) && old(self).retries
                < PASTE_FOCUS_RETRIES),
            final(self).retries == if r {
                old(self).retries + 1
            } else {
                old(self).retries as int
            },
            final(self).retries <= PASTE_FOCUS_RETRIES,
            final(self).target == old(self).target,
            final(self).focused == old(self).focused,
    {
        if (self.target.is_some() && self.focused) || self.retries >= PASTE_FOCUS_RETRIES {
            return false;
        }
        self.retries = self.retries + 1;
        true
    }

    /// During a retry: adopt `resolved` when there was no target yet; the
    /// window to focus now, if the target is known and not yet focused.
    pub fn on_resolved(&mut self, resolved: Option<isize>) -> (r: Option<isize>)
        ensures
            final(self).target == (if old(self).target is None {
                resolved
            } else {
                old(self).target
            }),
            final(self).focused == old(self).focused,
            final(self).retries == old(self).retries,
            r == (if final(self).focused {
                None
            } else {
                final(self).target
            }),
    {
        if self.target.is_none() {
            self.target = resolved;
        }
        if self.focused {
            None
        } else {
            self.target
        }
    }

    /// Ctrl+V is sent only when the target took focus or the foreground
    /// window can take a paste anyway.
    pub fn can_paste(&self, foreground_pasteable: bool) -> (r: bool)
        ensures
            r == (self.focused || foreground_pasteable),
    {
        self.focused || foreground_pasteable
    }
}

/// The focus loop runs at most five retries, and once the target has
/// focus no retry starts.
pub proof fn lemma_paste_retries_bounded(f: PasteFocus)
    requires
        f.retries <= PASTE_FOCUS_RETRIES,
    ensures
        f.retries == PASTE_FOCUS_RETRIES ==> !(!(f.target is Some && f.focused) && f.retries
            < PASTE_FOCUS_RETRIES),
        f.target is Some && f.focused ==> !(!(f.target is Some && f.focused) && f.retries
            < PASTE_FOCUS_RETRIES),
{
}

// ---------------------------------------------------------------------------
// Platform entry points without window-system support
// ---------------------------------------------------------------------------

/// Ctrl+V simulation: nothing to do without window-system support.
pub fn simulate_paste_keys() {
}

/// Focus delay + key simulation: nothing to do without window-system support.
pub fn simulate_paste() {
}

/// Foreground tracking tick: no foreground window is observable here.
pub fn track_last_foreign_foreground() {
}

/// Remember the paste destination: no foreground window is observable here.
pub fn remember_paste_target(_our_hwnd: Option<isize>) {
}

/// No foreground window can receive a paste here.
pub fn foreground_is_pasteable(_our_hwnd: Option<isize>) -> (r: bool)
    ensures
        !r,
{
    false
}

/// Focusing another window is not possible here.
pub fn focus_window(_hwnd_id: isize) -> (r: bool)
    ensures
        !r,
{
    false
}

/// No window is ever reported as the foreground here.
pub fn is_foreground_hwnd(_hwnd_id: isize) -> (r: bool)
    ensures
        !r,
{
    false
}

/// Hiding a native window is not possible here.
pub fn hide_hwnd(_hwnd_id: isize) {
}

/// No paste destination can be resolved here.
pub fn resolve_paste_target(_our_hwnd: Option<isize>) -> (r: Option<isize>)
    ensures
        r is None,
{
    None
}

/// Writing the system clipboard is not available here.
pub fn write_clipboard_plain(_text: &str) -> (r: bool)
    ensures
        !r,
{
    false
}

/// Writing the system clipboard is not available here.
pub fn write_clipboard_text(_text: &str, _html: Option<&str>) -> (r: bool)
    ensures
        !r,
{
    false
}

/// Writing the system clipboard is not available here.
pub fn write_clipboard_png_file(_path: &str) -> (r: bool)
    ensures
        !r,
{
    false
}

/// Writing the system clipboard is not available here.
pub fn write_clipboard_image(_rgba: &[u8], _width: usize, _height: usize) -> (r: bool)
    ensures
        !r,
{
    false
}

/// Title, module and friendly name of the foreground window: all empty here.
pub fn get_foreground_window_info() -> (r: (String, String, String))
    ensures
        r.0@.len() == 0 && r.1@.len() == 0 && r.2@.len() == 0,
{
    (String::new(), String::new(), String::new())
}

} // verus!

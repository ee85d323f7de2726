//! Clipboard monitor decisions: suppression of our own writes, sequence
//! watermark, text/image dedup and which capture wins when both exist.
//!
//! The platform layer performs the reads (sequence number, text, bitmap) and
//! hands each result to the step functions here, which decide what to read
//! next, what to emit and how the monitor state moves.
use vstd::prelude::*;

use crate::content::{
    meaningful_share_text, is_meaningful_share_text, sha256_hash, sha256_hex, CapturedImage, CapturedText,
    ClipboardEvent,
};
use crate::image::{downscale_captured_rgba_if_large, scaled_dims};
use crate::text::{is_blank, trim_seq};

verus! {

/// Mutable state of the clipboard monitor.
pub struct MonitorState {
    /// Fingerprint of the last text emitted (or written by us).
    pub last_text_fp: Option<String>,
    /// Quick fingerprint of the last bitmap captured (or written by us).
    pub last_image_hash: Option<String>,
    /// Reads are skipped until this time (ms); our own writes must not re-capture.
    pub suppress_until: Option<u64>,
    /// Clipboard sequence number of the last fully processed change.
    pub last_seq: u32,
    /// A busy clipboard was already reported for the pending change.
    pub busy_logged: bool,
}

/// Result of reading text from the clipboard.
pub enum TextRead {
    /// Another process holds the clipboard; retry this change later.
    Busy,
    /// The clipboard holds no usable text.
    Absent,
    Present(CapturedText),
}

/// Result of reading a bitmap from the clipboard.
pub enum ImageRead {
    Busy,
    Absent,
    Present { quick_fp: String, rgba: Vec<u8>, width: u32, height: u32 },
}

/// What a tick produced.
pub struct TickOutcome {
    /// The clipboard was busy: the change stays pending and must be retried soon.
    pub busy: bool,
    pub event: Option<ClipboardEvent>,
}

/// Next step after the text read.
pub enum TextStep {
    Finished(TickOutcome),
    /// Read the bitmap, then call [`MonitorState::after_image`] with this text.
    ReadImage(Option<CapturedText>),
}

pub open spec fn opt_view(o: Option<String>) -> Option<Seq<char>> {
    match o {
        Some(s) => Some(s@),
        None => None,
    }
}

/// A text capture is emitted when it is not blank and its fingerprint differs
/// from the last one.
pub open spec fn text_is_new(last_fp: Option<Seq<char>>, text: Seq<char>) -> bool {
    last_fp != Some(sha256_hex(text)) && trim_seq(text).len() > 0
}

/// `ev` carries the capture `c`: its text and its HTML fragment.
pub open spec fn emitted_text(ev: Option<ClipboardEvent>, c: CapturedText) -> bool {
    ev matches Some(ClipboardEvent::Text(t)) && t.text@ == c.text@ && crate::records::opt_view(t.html)
        == crate::records::opt_view(c.html)
}

impl MonitorState {
    pub fn new() -> (r: Self)
        ensures
            r.last_text_fp is None,
            r.last_image_hash is None,
            r.suppress_until is None,
            r.last_seq == 0,
            !r.busy_logged,
    {
        MonitorState {
            last_text_fp: None,
            last_image_hash: None,
            suppress_until: None,
            last_seq: 0,
            busy_logged: false,
        }
    }

    /// Ignore clipboard changes for `duration_ms` after our own write.
    pub fn suppress_self_writes(&mut self, now_ms: u64, duration_ms: u64)
        requires
            now_ms + duration_ms <= u64::MAX,
        ensures
            final(self).suppress_until == Some((now_ms + duration_ms) as u64),
            final(self).last_text_fp == old(self).last_text_fp,
            final(self).last_image_hash == old(self).last_image_hash,
            final(self).last_seq == old(self).last_seq,
            final(self).busy_logged == old(self).busy_logged,
    {
        self.suppress_until = Some(now_ms + duration_ms);
    }

    /// Mark self-written text as already captured (syncs the dedup baseline).
    pub fn mark_text_written(&mut self, text: &str)
        ensures
            opt_view(final(self).last_text_fp) == Some(sha256_hex(text@)),
            final(self).last_image_hash == old(self).last_image_hash,
            final(self).suppress_until == old(self).suppress_until,
            final(self).last_seq == old(self).last_seq,
            final(self).busy_logged == old(self).busy_logged,
    {
        self.last_text_fp = Some(sha256_hash(text));
    }

    /// Mark a self-written bitmap as already captured.
    pub fn mark_image_written(&mut self, quick_fp: &str)
        ensures
            opt_view(final(self).last_image_hash) == Some(quick_fp@),
            final(self).last_text_fp == old(self).last_text_fp,
            final(self).suppress_until == old(self).suppress_until,
            final(self).last_seq == old(self).last_seq,
            final(self).busy_logged == old(self).busy_logged,
    {
        self.last_image_hash = Some(quick_fp.to_owned());
    }

    /// Whether reads are suppressed at `now_ms`; an expired window is cleared.
    pub fn is_capture_suppressed(&mut self, now_ms: u64) -> (r: bool)
        ensures
            r == (old(self).suppress_until matches Some(u) && now_ms < u),
            final(self).suppress_until == (if r {
                old(self).suppress_until
            } else {
                None
            }),
            final(self).last_text_fp == old(self).last_text_fp,
            final(self).last_image_hash == old(self).last_image_hash,
            final(self).last_seq == old(self).last_seq,
            final(self).busy_logged == old(self).busy_logged,
    {
        match self.suppress_until {
            Some(until) => if now_ms < until {
                true
            } else {
                self.suppress_until = None;
                false
            },
            None => false,
        }
    }

    /// Emit `captured` unless it is blank or has the last fingerprint; an
    /// emitted text becomes the new baseline.
    pub fn maybe_emit_text(&mut self, captured: CapturedText) -> (ev: Option<ClipboardEvent>)
        ensures
            text_is_new(opt_view(old(self).last_text_fp), captured.text@) ==> emitted_text(ev, captured) && opt_view(final(self).last_text_fp) == Some(sha256_hex(captured.text@)),
            !text_is_new(opt_view(old(self).last_text_fp), captured.text@) ==> ev is None
                && final(self).last_text_fp == old(self).last_text_fp,
            final(self).last_image_hash == old(self).last_image_hash,
            final(self).suppress_until == old(self).suppress_until,
            final(self).last_seq == old(self).last_seq,
            final(self).busy_logged == old(self).busy_logged,
    {
        let fp = captured.fingerprint();
        let same = match &self.last_text_fp {
            Some(prev) => *prev == fp,
            None => false,
        };
        if same || is_blank(captured.text.as_str()) {
            return None;
        }
        self.last_text_fp = Some(fp);
        Some(ClipboardEvent::Text(captured))
    }

    /// First step of a tick: proceed to the reads unless our own write is
    /// being suppressed or the sequence number shows no change.
    pub fn begin_tick(&mut self, now_ms: u64, seq: u32) -> (proceed: bool)
        ensures
            proceed == (!(old(self).suppress_until matches Some(u) && now_ms < u) && !(seq != 0
                && seq == old(self).last_seq)),
            final(self).suppress_until == (if old(self).suppress_until matches Some(u) && now_ms < u {
                old(self).suppress_until
            } else {
                None
            }),
            final(self).last_text_fp == old(self).last_text_fp,
            final(self).last_image_hash == old(self).last_image_hash,
            final(self).last_seq == old(self).last_seq,
            final(self).busy_logged == old(self).busy_logged,
    {
        if self.is_capture_suppressed(now_ms) {
            return false;
        }
        !(seq != 0 && seq == self.last_seq)
    }

    fn commit(&mut self, seq: u32)
        ensures
            final(self).last_seq == seq,
            !final(self).busy_logged,
            final(self).last_text_fp == old(self).last_text_fp,
            final(self).last_image_hash == old(self).last_image_hash,
            final(self).suppress_until == old(self).suppress_until,
    {
        self.busy_logged = false;
        self.last_seq = seq;
    }

    /// Step after the text read. A busy clipboard defers the change (the
    /// watermark is kept). Meaningful share text wins over any bitmap; with a
    /// bitmap present otherwise, the bitmap is read next; else the text (if
    /// any) is considered and the change committed.
    pub fn after_text(&mut self, seq: u32, text: TextRead, has_bitmap: bool) -> (step: TextStep)
        ensures
            final(self).suppress_until == old(self).suppress_until,
            final(self).last_image_hash == old(self).last_image_hash,
            text is Busy ==> (step matches TextStep::Finished(o) && o.busy && o.event is None
                && final(self).busy_logged && final(self).last_seq == old(self).last_seq
                && final(self).last_text_fp == old(self).last_text_fp),
            text is Absent && has_bitmap ==> (step matches TextStep::ReadImage(None) && *final(self)
                == *old(self)),
            text is Absent && !has_bitmap ==> (step matches TextStep::Finished(o) && !o.busy
                && o.event is None && final(self).last_seq == seq && !final(self).busy_logged
                && final(self).last_text_fp == old(self).last_text_fp),
            text matches TextRead::Present(t) ==> {
                if meaningful_share_text(t.text@) || !has_bitmap {
                    &&& step matches TextStep::Finished(o)
                    &&& !o.busy
                    &&& final(self).last_seq == seq
                    &&& !final(self).busy_logged
                    &&& text_is_new(opt_view(old(self).last_text_fp), t.text@) ==> emitted_text(o.event, t) && opt_view(final(self).last_text_fp) == Some(sha256_hex(t.text@))
                    &&& !text_is_new(opt_view(old(self).last_text_fp), t.text@) ==> o.event is None
                        && final(self).last_text_fp == old(self).last_text_fp
                } else {
                    &&& step matches TextStep::ReadImage(Some(t2))
                    &&& t2.text@ == t.text@
                    &&& *final(self) == *old(self)
                }
            },
    {
        match text {
            TextRead::Busy => {
                self.busy_logged = true;
                TextStep::Finished(TickOutcome { busy: true, event: None })
            },
            TextRead::Absent => {
                if has_bitmap {
                    TextStep::ReadImage(None)
                } else {
                    self.commit(seq);
                    TextStep::Finished(TickOutcome { busy: false, event: None })
                }
            },
            TextRead::Present(t) => {
                if is_meaningful_share_text(t.text.as_str()) || !has_bitmap {
                    let ev = self.maybe_emit_text(t);
                    self.commit(seq);
                    TextStep::Finished(TickOutcome { busy: false, event: ev })
                } else {
                    TextStep::ReadImage(Some(t))
                }
            },
        }
    }

    /// Step after the bitmap read. A busy clipboard defers the change. A new
    /// bitmap (quick fingerprint differs) is downscaled and emitted and
    /// becomes the baseline; an unchanged bitmap lets only meaningful text
    /// through; no bitmap falls back to the text. The change is committed.
    pub fn after_image(&mut self, seq: u32, text: Option<CapturedText>, image: ImageRead) -> (o:
        TickOutcome)
        requires
            image matches ImageRead::Present { width, height, .. } ==> (width as int) * (
            height as int) * 4 <= usize::MAX,
        ensures
            final(self).suppress_until == old(self).suppress_until,
            image is Busy ==> o.busy && o.event is None && final(self).busy_logged
                && final(self).last_seq == old(self).last_seq && final(self).last_text_fp
                == old(self).last_text_fp && final(self).last_image_hash == old(
                self,
            ).last_image_hash,
            !(image is Busy) ==> !o.busy && final(self).last_seq == seq && !final(self).busy_logged,
            image is Absent ==> final(self).last_image_hash == old(self).last_image_hash && match text {
                None => o.event is None && final(self).last_text_fp == old(self).last_text_fp,
                Some(t) => (text_is_new(opt_view(old(self).last_text_fp), t.text@) ==> emitted_text(o.event, t)) && (!text_is_new(opt_view(old(self).last_text_fp), t.text@) ==> o.event is None),
            },
            image matches ImageRead::Present { quick_fp, width, height, .. } ==> {
                if opt_view(old(self).last_image_hash) == Some(quick_fp@) {
                    &&& final(self).last_image_hash == old(self).last_image_hash
                    &&& match text {
                        Some(t) => if meaningful_share_text(t.text@) && text_is_new(
                            opt_view(old(self).last_text_fp),
                            t.text@,
                        ) {
                            emitted_text(o.event, t)
                        } else {
                            o.event is None
                        },
                        None => o.event is None,
                    }
                } else {
                    &&& opt_view(final(self).last_image_hash) == Some(quick_fp@)
                    &&& final(self).last_text_fp == old(self).last_text_fp
                    &&& (o.event matches Some(ClipboardEvent::Image(img)) && (img.width, img.height)
                        == scaled_dims(width, height) && img.hash@.len() == 0)
                }
            },
    {
        match image {
            ImageRead::Busy => {
                self.busy_logged = true;
                TickOutcome { busy: true, event: None }
            },
            ImageRead::Absent => {
                let ev = match text {
                    Some(t) => self.maybe_emit_text(t),
                    None => None,
                };
                self.commit(seq);
                TickOutcome { busy: false, event: ev }
            },
            ImageRead::Present { quick_fp, rgba, width, height } => {
                let unchanged = match &self.last_image_hash {
                    Some(prev) => *prev == quick_fp,
                    None => false,
                };
                let ev = if unchanged {
                    match text {
                        Some(t) => if is_meaningful_share_text(t.text.as_str()) {
                            self.maybe_emit_text(t)
                        } else {
                            None
                        },
                        None => None,
                    }
                } else {
                    self.last_image_hash = Some(quick_fp);
                    let (out, w, h) = downscale_captured_rgba_if_large(rgba, width, height);
                    Some(
                        ClipboardEvent::Image(
                            CapturedImage { rgba: out, width: w, height: h, hash: String::new() },
                        ),
                    )
                };
                self.commit(seq);
                TickOutcome { busy: false, event: ev }
            },
        }
    }
}

/// Text the app wrote itself is never captured again: once
/// `mark_text_written` recorded its fingerprint, the same text is not new
/// (for `maybe_emit_text` and the tick steps alike), while any other text
/// still is when it is not blank and the hash tells them apart.
pub proof fn lemma_own_write_not_recaptured(written: Seq<char>, later: Seq<char>)
    ensures
        !text_is_new(Some(sha256_hex(written)), written),
        sha256_hex(later) != sha256_hex(written) && trim_seq(later).len() > 0 ==> text_is_new(
            Some(sha256_hex(written)),
            later,
        ),
{
}

} // verus!

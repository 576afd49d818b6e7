//! The clipboard change monitor: debounce state, self-suppression, and the
//! classification step run on each settled event.
//!
//! The OS event loop around this module delivers two things: raw
//! change signals, each with the foreground-application identity captured
//! at that instant, and the expiry of the debounce timer it re-arms on
//! every raw signal.  Because re-arming replaces the single timer, any
//! burst of raw signals within the window settles exactly once, with the
//! context captured at the last signal.  A process-wide ignore flag, set
//! by a collaborator just before it writes to the clipboard itself, makes
//! the next settled event be discarded; an event whose captured identity
//! is this process's own window is discarded as well.

use vstd::prelude::*;

use crate::extract::ExtractedContent;
use crate::fingerprint::{compute_content_hash, content_hash, dedup_suppresses, DedupFilter};
use crate::sensitive::{detect_sensitive, sensitive_verdict};
use crate::text::{all_space, chars_all_space, str_to_chars};
use crate::types::AppWindowInfo;

verus! {

/// The debounce window, in milliseconds; the event loop arms its timer
/// with this duration.
pub const DEBOUNCE_MS: u32 = 300;

/// The two states of the monitor.
pub enum MonitorPhase {
    /// No signal pending.
    Idle,
    /// A raw signal arrived and the debounce timer is running.
    ArmedWaitingDebounce,
}

/// What a settled event decides.
pub enum SettleDecision {
    /// The ignore flag was set: a self-write, consumed and discarded.
    DiscardSelfWrite,
    /// No application context could be captured.
    DiscardNoContext,
    /// The captured context is this application's own window.
    DiscardSelfOrigin,
    /// Process the event with this captured context.
    Proceed(AppWindowInfo),
}

/// The kind of a classified record.
pub enum ContentKind {
    Text,
    Image,
}

/// The record handed to the persistence collaborator for each settled,
/// non-suppressed event.
pub struct ClassifiedContent {
    pub kind: ContentKind,
    pub text: Option<String>,
    pub image_bytes: Option<Vec<u8>>,
    pub html_fragment: Option<String>,
    pub source_url: Option<String>,
    pub is_sensitive: bool,
}

/// The outcome of classifying a settled event's extracted content.
pub enum Outcome {
    /// The clipboard held nothing usable.
    NoContent,
    /// The fingerprint equals the immediately preceding one.
    Suppressed,
    /// A new record to persist.
    Entry(ClassifiedContent),
}

/// The monitor's state: debounce phase, the single pending context slot,
/// the self-write ignore flag, and the duplicate filter.
pub struct Monitor {
    pub phase: MonitorPhase,
    pub pending: Option<AppWindowInfo>,
    pub ignore_next: bool,
    pub dedup: DedupFilter,
}

/// True when extracted content carries usable (non-blank) text.
pub open spec fn spec_has_text(c: &ExtractedContent) -> bool {
    match c.text {
        Some(ref t) => !all_space(t@),
        None => false,
    }
}

impl Monitor {
    /// The state after a raw signal: the debounce timer is (re)armed and a
    /// captured identity replaces the pending one; a missing identity
    /// leaves the slot as it was.
    pub open spec fn spec_after_raw(self, ctx: Option<AppWindowInfo>) -> Monitor {
        Monitor {
            phase: MonitorPhase::ArmedWaitingDebounce,
            pending: if ctx is Some {
                ctx
            } else {
                self.pending
            },
            ignore_next: self.ignore_next,
            dedup: self.dedup,
        }
    }

    /// The state and decision of a settled event.  A set ignore flag is
    /// consumed and the event discarded, the pending slot untouched.
    /// Otherwise the pending context is taken (consumed, not copied), with
    /// `fallback` — the identity captured at settle time — filling in when
    /// the slot is empty; a missing context or a self-originated one
    /// discards the event.
    pub open spec fn spec_settle(self, fallback: Option<AppWindowInfo>) -> (Monitor,
        SettleDecision) {
        if self.ignore_next {
            (
                Monitor {
                    phase: MonitorPhase::Idle,
                    pending: self.pending,
                    ignore_next: false,
                    dedup: self.dedup,
                },
                SettleDecision::DiscardSelfWrite,
            )
        } else {
            let taken = Monitor {
                phase: MonitorPhase::Idle,
                pending: None,
                ignore_next: false,
                dedup: self.dedup,
            };
            let ctx = if self.pending is Some {
                self.pending
            } else {
                fallback
            };
            match ctx {
                None => (taken, SettleDecision::DiscardNoContext),
                Some(c) => if c.is_self {
                    (taken, SettleDecision::DiscardSelfOrigin)
                } else {
                    (taken, SettleDecision::Proceed(c))
                },
            }
        }
    }

    /// The state after the collaborator announces a self-write.
    pub open spec fn spec_set_ignore(self) -> Monitor {
        Monitor {
            phase: self.phase,
            pending: self.pending,
            ignore_next: true,
            dedup: self.dedup,
        }
    }

    /// A fresh monitor: idle, nothing pending, no suppression, an empty
    /// duplicate filter.
    pub fn new() -> (r: Monitor)
        ensures
            r.phase is Idle,
            r.pending is None,
            !r.ignore_next,
            r.dedup.last_digest() is None,
    {
        Monitor {
            phase: MonitorPhase::Idle,
            pending: None,
            ignore_next: false,
            dedup: DedupFilter::new(),
        }
    }

    /// Handles a raw clipboard signal: captures the identity into the
    /// single pending slot (replacing, never appending) and arms the
    /// debounce phase.  The caller must (re)start its debounce timer of
    /// `DEBOUNCE_MS` after every call.
    pub fn on_raw_signal(&mut self, ctx: Option<AppWindowInfo>)
        ensures
            *final(self) == old(self).spec_after_raw(ctx),
    {
        if ctx.is_some() {
            self.pending = ctx;
        }
        self.phase = MonitorPhase::ArmedWaitingDebounce;
    }

    /// Sets the self-write suppression flag; the collaborator calls this
    /// immediately before it writes to the clipboard itself.
    pub fn set_ignore_next(&mut self)
        ensures
            *final(self) == old(self).spec_set_ignore(),
    {
        self.ignore_next = true;
    }

    /// Begins a settled event when the debounce timer expires:
    /// disarms, consumes the ignore flag and the pending context, and
    /// decides whether the event proceeds.
    pub fn begin_settled(&mut self, fallback: Option<AppWindowInfo>) -> (r: SettleDecision)
        ensures
            *final(self) == old(self).spec_settle(fallback).0,
            r == old(self).spec_settle(fallback).1,
    {
        self.phase = MonitorPhase::Idle;
        if self.ignore_next {
            self.ignore_next = false;
            return SettleDecision::DiscardSelfWrite;
        }
        let pending = self.pending.take();
        let ctx = if pending.is_some() {
            pending
        } else {
            fallback
        };
        match ctx {
            None => SettleDecision::DiscardNoContext,
            Some(c) => {
                if c.is_self {
                    SettleDecision::DiscardSelfOrigin
                } else {
                    SettleDecision::Proceed(c)
                }
            },
        }
    }

    /// Classifies the extracted content of a settled event and runs the
    /// duplicate filter.
    ///
    /// Usable text takes priority and becomes a text record; otherwise an
    /// extracted image becomes an image record; with neither, nothing
    /// happens.  Either record is suppressed exactly when its content
    /// fingerprint equals the immediately preceding one, and the filter
    /// afterwards remembers the new fingerprint.  A text record carries
    /// the sensitivity verdict for the given UI language.
    pub fn classify_settled(&mut self, content: ExtractedContent, language: &str) -> (r: Outcome)
        ensures
            final(self).phase == old(self).phase,
            final(self).pending == old(self).pending,
            final(self).ignore_next == old(self).ignore_next,
            // Which branch runs.
            r is NoContent <==> !spec_has_text(&content) && content.image is None,
            r is NoContent ==> final(self).dedup == old(self).dedup,
            // The filter decides suppression on the exact fingerprint.
            spec_has_text(&content) ==> {
                let digest = content_hash(vstd::utf8::encode_utf8(content.text->Some_0@));
                &&& (r is Suppressed <==> dedup_suppresses(old(self).dedup.last_digest(), digest))
                &&& final(self).dedup.last_digest() == Some(digest)
            },
            !spec_has_text(&content) && content.image is Some ==> {
                let digest = content_hash(content.image->Some_0@);
                &&& (r is Suppressed <==> dedup_suppresses(old(self).dedup.last_digest(), digest))
                &&& final(self).dedup.last_digest() == Some(digest)
            },
            // A text record carries the content through unchanged.
            r is Entry && spec_has_text(&content) ==> {
                let e = r->Entry_0;
                &&& e.kind is Text
                &&& e.text == content.text
                &&& e.image_bytes is None
                &&& e.html_fragment == content.html
                &&& e.source_url == content.source_url
                &&& e.is_sensitive == sensitive_verdict(content.text->Some_0@, language@)
            },
            // An image record carries the PNG bytes through unchanged.
            r is Entry && !spec_has_text(&content) ==> {
                let e = r->Entry_0;
                &&& e.kind is Image
                &&& e.text is None
                &&& e.image_bytes == content.image
                &&& e.html_fragment is None
                &&& e.source_url == content.source_url
                &&& !e.is_sensitive
            },
    {
        let ExtractedContent { text, image, source_url, html } = content;
        let usable = match &text {
            Some(t) => {
                let ch = str_to_chars(t.as_str());
                !chars_all_space(&ch)
            },
            None => false,
        };
        if usable {
            let t = match text {
                Some(t) => t,
                None => {
                    return Outcome::NoContent;  // unreachable: usable implies text is present
                },
            };
            let digest = compute_content_hash(t.as_str().as_bytes());
            if self.dedup.should_suppress(&digest) {
                return Outcome::Suppressed;
            }
            let is_sensitive = detect_sensitive(t.as_str(), language);
            Outcome::Entry(
                ClassifiedContent {
                    kind: ContentKind::Text,
                    text: Some(t),
                    image_bytes: None,
                    html_fragment: html,
                    source_url,
                    is_sensitive,
                },
            )
        } else if let Some(png) = image {
            let digest = compute_content_hash(png.as_slice());
            if self.dedup.should_suppress(&digest) {
                return Outcome::Suppressed;
            }
            Outcome::Entry(
                ClassifiedContent {
                    kind: ContentKind::Image,
                    text: None,
                    image_bytes: Some(png),
                    html_fragment: None,
                    source_url,
                    is_sensitive: false,
                },
            )
        } else {
            Outcome::NoContent
        }
    }
}

/// The state after a whole burst of raw signals, in order.
pub open spec fn after_raw_signals(m: Monitor, ctxs: Seq<Option<AppWindowInfo>>) -> Monitor
    decreases ctxs.len(),
{
    if ctxs.len() == 0 {
        m
    } else {
        after_raw_signals(m.spec_after_raw(ctxs[0]), ctxs.subrange(1, ctxs.len() as int))
    }
}

/// Debounce coalescing: any burst of raw signals leaves the monitor armed
/// once, with the single pending slot holding the identity captured at the
/// last signal that captured one; the one settled event that follows
/// consumes that identity and proceeds with it (when no suppression
/// applies), leaving the slot empty.
pub proof fn lemma_debounce_coalescing(
    m: Monitor,
    ctxs: Seq<Option<AppWindowInfo>>,
    c: AppWindowInfo,
)
    requires
        ctxs.len() > 0,
        ctxs.last() == Some(c),
        !m.ignore_next,
        !c.is_self,
    ensures
        after_raw_signals(m, ctxs).phase is ArmedWaitingDebounce,
        after_raw_signals(m, ctxs).pending == Some(c),
        after_raw_signals(m, ctxs).spec_settle(None).1 == SettleDecision::Proceed(c),
        after_raw_signals(m, ctxs).spec_settle(None).0.pending is None,
        after_raw_signals(m, ctxs).spec_settle(None).0.phase is Idle,
    decreases ctxs.len(),
{
    if ctxs.len() == 1 {
        assert(ctxs[0] == Some(c));
        let m2 = m.spec_after_raw(ctxs[0]);
        let rest = ctxs.subrange(1, 1);
        assert(rest.len() == 0);
        assert(after_raw_signals(m2, rest) == m2);
    } else {
        let m2 = m.spec_after_raw(ctxs[0]);
        let rest = ctxs.subrange(1, ctxs.len() as int);
        assert(rest.last() == ctxs.last());
        lemma_debounce_coalescing(m2, rest, c);
    }
}

/// Self-suppression: setting the ignore flag makes the next settled event
/// a discarded self-write that consumes the flag; a following settled
/// event (here after a raw signal capturing an outside identity) fires
/// normally without the flag being set again.
pub proof fn lemma_self_suppression(
    m: Monitor,
    f1: Option<AppWindowInfo>,
    f2: Option<AppWindowInfo>,
    c: AppWindowInfo,
)
    requires
        !c.is_self,
    ensures
        m.spec_set_ignore().spec_settle(f1).1 == SettleDecision::DiscardSelfWrite,
        !m.spec_set_ignore().spec_settle(f1).0.ignore_next,
        m.spec_set_ignore().spec_settle(f1).0.spec_after_raw(Some(c)).spec_settle(f2).1
            == SettleDecision::Proceed(c),
{
}

} // verus!

//! The clipboard monitor: the lifecycle state machine, the debounce and
//! ignore policy for text, the deduplication and size policy for images, and
//! the normalized records the engine emits.
//!
//! The monitor holds plain owned state. The surrounding application guards
//! one instance with a lock, runs the poll cycle, performs the clipboard and
//! filesystem work, and feeds observations in; every decision and state
//! change is made here.

use vstd::prelude::*;

use crate::app_detector::AppInfo;
use crate::content_detector::category_str;
use crate::content_detector::classify_spec;
use crate::content_detector::detect_content_type;
use crate::content_detector::ContentType;
use crate::image_handler::fingerprint_spec;
use crate::image_handler::image_fingerprint;
use crate::image_handler::ImageMetadata;
use crate::text::chars_eq;
use crate::text::chars_to_string;
use crate::text::chars_of;
use crate::text::contains_pat;
use crate::text::contains_seq;
use crate::text::lower_seq;
use crate::text::to_lower_chars;
use crate::text::trim_chars;
use crate::text::trimmed;

verus! {

/// The monitor's owned state: the lifecycle flag, the last accepted text,
/// the fingerprint of the last accepted image, and the time of the last
/// accepted text.
pub struct ClipboardMonitor {
    pub is_running: bool,
    pub last_content: String,
    pub last_image_hash: String,
    pub last_timestamp: i64,
    pub debounce_ms: i64,
}

impl ClipboardMonitor {
    /// The monitor's invariant: the debounce window is fixed at one second,
    /// and the last accepted time never lies before the epoch.
    pub open spec fn wf(self) -> bool {
        self.debounce_ms == 1000 && self.last_timestamp >= 0
    }

    /// A fresh monitor: stopped, with no history.
    pub fn new() -> (m: ClipboardMonitor)
        ensures
            m.wf(),
            !m.is_running,
            m.last_content@ == Seq::<char>::empty(),
            m.last_image_hash@ == Seq::<char>::empty(),
            m.last_timestamp == 0,
            m.debounce_ms == 1000,
    {
        ClipboardMonitor {
            is_running: false,
            last_content: String::new(),
            last_image_hash: String::new(),
            last_timestamp: 0,
            debounce_ms: 1000,
        }
    }

    /// The state after `start`.
    pub open spec fn started(self) -> ClipboardMonitor {
        ClipboardMonitor { is_running: true, ..self }
    }

    /// The state after `stop`.
    pub open spec fn stopped(self) -> ClipboardMonitor {
        ClipboardMonitor { is_running: false, ..self }
    }

    /// Starts monitoring. Returns whether a new poll cycle must be spawned:
    /// starting an already running monitor is a no-op.
    pub fn start(&mut self) -> (spawn: bool)
        ensures
            *final(self) == old(self).started(),
            spawn == !old(self).is_running,
    {
        let was = self.is_running;
        self.is_running = true;
        !was
    }

    /// Stops monitoring; the in-flight cycle observes the flag and exits.
    /// Stopping twice is harmless.
    pub fn stop(&mut self)
        ensures
            *final(self) == old(self).stopped(),
    {
        self.is_running = false;
    }

    /// The current lifecycle flag.
    pub fn is_running(&self) -> (r: bool)
        ensures
            r == self.is_running,
    {
        self.is_running
    }

    /// Pausing is an alias of stopping.
    pub fn pause(&mut self)
        ensures
            *final(self) == old(self).stopped(),
    {
        self.stop();
    }

    /// Resuming is an alias of starting.
    pub fn resume(&mut self) -> (spawn: bool)
        ensures
            *final(self) == old(self).started(),
            spawn == !old(self).is_running,
    {
        self.start()
    }
}

/// Lifecycle idempotence: one `start` leaves the monitor running, and a
/// second changes nothing, so exactly one poll cycle is ever spawned;
/// likewise a second `stop` leaves the stopped state unchanged.
pub proof fn lemma_lifecycle_idempotent(m: ClipboardMonitor)
    ensures
        m.started().is_running,
        m.started().started() == m.started(),
        !m.stopped().is_running,
        m.stopped().stopped() == m.stopped(),
{
}

// ---------------------------------------------------------------------------
// The ignore and debounce policy for text
// ---------------------------------------------------------------------------

/// Substrings of the tool's own console output; text containing one of
/// these, case-insensitively, is never recorded.
pub open spec fn ignore_patterns() -> Seq<Seq<char>> {
    seq![
        "[log]"@,
        "[error]"@,
        "[warn]"@,
        "[info]"@,
        "[debug]"@,
        "console."@,
        "clipboard changed event"@,
        "saved clipboard item"@,
        ".ts:"@,
        ".js:"@,
        "(clipboardstore"@,
        "(database.ts"@,
    ]
}

/// The lowercased text contains one of the ignore patterns.
pub open spec fn matches_ignore_pattern(s: Seq<char>) -> bool {
    exists|m: int|
        0 <= m < ignore_patterns().len() && contains_seq(lower_seq(s), ignore_patterns()[m])
}

/// Text is ignored when it is shorter than two characters after trimming,
/// or looks like the tool's own log output.
pub open spec fn should_ignore_spec(s: Seq<char>) -> bool {
    trimmed(s).len() < 2 || matches_ignore_pattern(s)
}

/// Accept text when it is not ignored and either differs from the last
/// accepted text or arrives more than the debounce window after it.
pub open spec fn should_save_spec(m: ClipboardMonitor, s: Seq<char>, now: i64) -> bool {
    !should_ignore_spec(s) && (s != m.last_content@ || now - m.last_timestamp > m.debounce_ms)
}

/// Builds the ignore-pattern list; entry `m` views as
/// `ignore_patterns()[m]`.
fn ignore_list() -> (r: Vec<Vec<char>>)
    ensures
        r@.len() == ignore_patterns().len(),
        forall|m: int| 0 <= m < r@.len() ==> (#[trigger] r@[m])@ == ignore_patterns()[m],
{
    let mut r: Vec<Vec<char>> = Vec::new();
    r.push(chars_of("[log]"));
    r.push(chars_of("[error]"));
    r.push(chars_of("[warn]"));
    r.push(chars_of("[info]"));
    r.push(chars_of("[debug]"));
    r.push(chars_of("console."));
    r.push(chars_of("clipboard changed event"));
    r.push(chars_of("saved clipboard item"));
    r.push(chars_of(".ts:"));
    r.push(chars_of(".js:"));
    r.push(chars_of("(clipboardstore"));
    r.push(chars_of("(database.ts"));
    r
}

impl ClipboardMonitor {
    /// Is this text ignored as too short or as console noise?
    pub fn should_ignore_content(&self, content: &str) -> (r: bool)
        ensures
            r == should_ignore_spec(content@),
    {
        let cs = chars_of(content);
        let t = trim_chars(&cs);
        if t.len() < 2 {
            return true;
        }
        let lower = to_lower_chars(&cs);
        let pats = ignore_list();
        let mut m: usize = 0;
        while m < pats.len()
            invariant
                lower@ == lower_seq(content@),
                pats@.len() == ignore_patterns().len(),
                forall|q: int| 0 <= q < pats@.len() ==> (#[trigger] pats@[q])@ == ignore_patterns()[q],
                m <= pats@.len(),
                forall|q: int| 0 <= q < m ==> !contains_seq(lower_seq(content@), ignore_patterns()[q]),
            decreases pats@.len() - m,
        {
            if contains_pat(&lower, &pats[m]) {
                proof {
                    assert(contains_seq(lower_seq(content@), ignore_patterns()[m as int]));
                }
                return true;
            }
            m = m + 1;
        }
        proof {
            assert(!matches_ignore_pattern(content@));
        }
        false
    }

    /// The debounce decision: save when the text is new, or when the same
    /// text returns after the debounce window.
    pub fn should_save(&self, new_content: &str, current_time: i64) -> (r: bool)
        requires
            self.wf(),
            0 <= current_time,
        ensures
            r == should_save_spec(*self, new_content@, current_time),
    {
        if self.should_ignore_content(new_content) {
            return false;
        }
        let nc = chars_of(new_content);
        let lc = chars_of(self.last_content.as_str());
        if !chars_eq(&nc, &lc) {
            return true;
        }
        let time_diff = current_time - self.last_timestamp;
        time_diff > self.debounce_ms
    }

    /// Observes clipboard text at `now`: decides whether to accept it, and
    /// if so records it as the last accepted text.
    pub fn observe_text(&mut self, content: &str, now: i64) -> (accepted: bool)
        requires
            old(self).wf(),
            0 <= now,
        ensures
            accepted == should_save_spec(*old(self), content@, now),
            accepted ==> (*final(self) == (ClipboardMonitor {
                last_content: final(self).last_content,
                last_timestamp: now,
                ..*old(self)
            }) && final(self).last_content@ == content@),
            !accepted ==> *final(self) == *old(self),
            final(self).wf(),
    {
        let save = self.should_save(content, now);
        if save {
            self.last_content = content.to_owned();
            self.last_timestamp = now;
        }
        save
    }
}

/// The debounce law: for text equal to the last accepted value and not
/// otherwise ignored, a repeat within the debounce window is rejected, and
/// the same repeat after the window has passed is accepted.
pub proof fn lemma_debounce_window(m: ClipboardMonitor, content: Seq<char>, t0: i64)
    requires
        m.wf(),
        m.last_content@ == content,
        m.last_timestamp == t0,
        t0 + 1500 <= i64::MAX,
        !should_ignore_spec(content),
    ensures
        !should_save_spec(m, content, (t0 + 500) as i64),
        should_save_spec(m, content, (t0 + 1500) as i64),
{
}

/// The ignore law: any text whose lowercased form contains `[log]` is
/// rejected, whatever its length, novelty or timing.
pub proof fn lemma_log_marker_rejected(m: ClipboardMonitor, content: Seq<char>, now: i64)
    requires
        contains_seq(lower_seq(content), "[log]"@),
    ensures
        should_ignore_spec(content),
        !should_save_spec(m, content, now),
{
    assert(ignore_patterns()[0] == "[log]"@);
    assert(matches_ignore_pattern(content));
}

// ---------------------------------------------------------------------------
// The image deduplication and size policy
// ---------------------------------------------------------------------------

/// Why an observed image was not captured, or the go-ahead to capture it.
#[derive(Debug, Clone, PartialEq, Eq, Structural)]
pub enum ImageDecision {
    Duplicate,
    TooLarge,
    Accept,
}

/// The image policy: a repeat of the last accepted image is dropped first;
/// then anything over `max_mb` mebibytes is dropped; the rest is captured.
pub open spec fn image_decision_spec(m: ClipboardMonitor, data: Seq<u8>, max_mb: i64) -> ImageDecision {
    if fingerprint_spec(data) == m.last_image_hash@ {
        ImageDecision::Duplicate
    } else if data.len() > max_mb * 1048576 {
        ImageDecision::TooLarge
    } else {
        ImageDecision::Accept
    }
}

impl ClipboardMonitor {
    /// Applies the deduplication and size policy to observed image bytes.
    /// The state is not changed here: the fingerprint is recorded only
    /// after the artifacts are successfully written.
    pub fn evaluate_image(&self, data: &Vec<u8>, max_image_size_mb: i64) -> (r: ImageDecision)
        requires
            0 <= max_image_size_mb,
        ensures
            r == image_decision_spec(*self, data@, max_image_size_mb),
    {
        let fp = image_fingerprint(data);
        let fpc = chars_of(fp.as_str());
        let lc = chars_of(self.last_image_hash.as_str());
        if chars_eq(&fpc, &lc) {
            return ImageDecision::Duplicate;
        }
        proof {
            assert((max_image_size_mb as int) * 1048576 < 0x100000000000000000000000000000000)
                by (nonlinear_arith)
                requires
                    0 <= max_image_size_mb <= 0x7fffffffffffffff,
            ;
        }
        let max_bytes: u128 = (max_image_size_mb as u128) * 1048576;
        if (data.len() as u128) > max_bytes {
            ImageDecision::TooLarge
        } else {
            ImageDecision::Accept
        }
    }

    /// Records that the image with this fingerprint was fully saved; only
    /// now does a repeat of the same bytes count as a duplicate.
    pub fn record_image_saved(&mut self, fingerprint: String)
        ensures
            (*final(self) == (ClipboardMonitor {
                last_image_hash: final(self).last_image_hash,
                ..*old(self)
            })),
            final(self).last_image_hash@ == fingerprint@,
    {
        self.last_image_hash = fingerprint;
    }
}

/// The image deduplication law: once an accepted image's fingerprint is
/// recorded, observing the identical bytes again yields `Duplicate`, so the
/// same image is saved and emitted exactly once.
pub proof fn lemma_image_dedup(
    m: ClipboardMonitor,
    after: ClipboardMonitor,
    data: Seq<u8>,
    max_mb: i64,
)
    requires
        image_decision_spec(m, data, max_mb) == ImageDecision::Accept,
        after.last_image_hash@ == fingerprint_spec(data),
    ensures
        image_decision_spec(after, data, max_mb) == ImageDecision::Duplicate,
{
}

// ---------------------------------------------------------------------------
// Normalized records
// ---------------------------------------------------------------------------

/// One record per accepted clipboard change, handed to the external store.
/// The store assigns identity; the engine only describes the change.
#[derive(Debug, Clone)]
pub struct NormalizedRecord {
    pub is_image: bool,
    pub content: String,
    pub content_type: String,
    pub category: String,
    pub source_app_name: String,
    pub source_app_icon: String,
    pub source_bundle_id: Option<String>,
    pub image: Option<ImageMetadata>,
}

impl ClipboardMonitor {
    /// The category a content type maps to, used to organize records.
    pub fn map_content_type_to_category(&self, content_type: &ContentType) -> (r: &'static str)
        ensures
            r@ == category_str(*content_type),
    {
        match content_type {
            ContentType::Color => "color",
            ContentType::Url => "links",
            ContentType::Email => "email",
            ContentType::Phone => "phone",
            ContentType::Number => "number",
            ContentType::Code => "code",
            ContentType::Text => "text",
        }
    }
}

/// Builds the record for accepted text: classified, categorized, and
/// attributed to the frontmost application.
pub fn build_text_record(content: String, app: AppInfo, icon: String) -> (r: NormalizedRecord)
    ensures
        !r.is_image,
        r.content == content,
        r.content_type@ == category_str(classify_spec(content@)),
        r.category@ == category_str(classify_spec(content@)),
        r.source_app_name == app.name,
        r.source_app_icon == icon,
        r.source_bundle_id == app.bundle_id,
        r.image is None,
{
    let t = detect_content_type(content.as_str());
    let type_str = t.as_str();
    let category = type_str.to_owned();
    NormalizedRecord {
        is_image: false,
        content,
        content_type: type_str.to_owned(),
        category,
        source_app_name: app.name,
        source_app_icon: icon,
        source_bundle_id: app.bundle_id,
        image: None,
    }
}

/// Builds the record for an accepted image: no text, the fixed `image`
/// type and category, and the saved artifacts' metadata.
pub fn build_image_record(meta: ImageMetadata, app: AppInfo, icon: String) -> (r: NormalizedRecord)
    ensures
        r.is_image,
        r.content@ == Seq::<char>::empty(),
        r.content_type@ == "image"@,
        r.category@ == "image"@,
        r.source_app_name == app.name,
        r.source_app_icon == icon,
        r.source_bundle_id == app.bundle_id,
        r.image matches Some(m) && m == meta,
{
    NormalizedRecord {
        is_image: true,
        content: String::new(),
        content_type: "image".to_owned(),
        category: "image".to_owned(),
        source_app_name: app.name,
        source_app_icon: icon,
        source_bundle_id: app.bundle_id,
        image: Some(meta),
    }
}


impl ClipboardMonitor {
    /// Shortens text for display: at most `max_len` characters, with an
    /// ellipsis marking the cut.
    pub fn truncate_for_display(&self, text: &str, max_len: usize) -> (r: String)
        ensures
            text@.len() <= max_len ==> r@ == text@,
            text@.len() > max_len ==> r@ == text@.subrange(0, max_len as int) + "..."@,
    {
        let cs = chars_of(text);
        if cs.len() <= max_len {
            return text.to_owned();
        }
        let mut out: Vec<char> = Vec::new();
        let mut i: usize = 0;
        while i < max_len
            invariant
                max_len < cs@.len(),
                cs@ == text@,
                i <= max_len,
                out@ == text@.subrange(0, i as int),
            decreases max_len - i,
        {
            out.push(cs[i]);
            i = i + 1;
            proof {
                assert(out@ =~= text@.subrange(0, i as int));
            }
        }
        crate::text::push_str_chars(&mut out, "...");
        chars_to_string(&out)
    }
}


// ---------------------------------------------------------------------------
// The poll cycle's branch decision
// ---------------------------------------------------------------------------

/// How often the poll cycle runs, in milliseconds: frequent enough to feel
/// immediate, cheap enough for a background task.
pub const POLL_INTERVAL_MS: u64 = 500;

/// What one poll cycle does with its observations.
#[derive(Debug, Clone, PartialEq, Eq, Structural)]
pub enum PollBranch {
    CaptureImage,
    CaptureText,
    Idle,
}

/// The branch one cycle takes: an observed image wins over text whenever
/// image saving is enabled, because an image paste can also populate the
/// text channel on some platforms and would otherwise be misread as text;
/// absent or empty text means the cycle does nothing.
pub open spec fn poll_branch_spec(
    save_images: bool,
    image_present: bool,
    text: Option<Seq<char>>,
) -> PollBranch {
    if save_images && image_present {
        PollBranch::CaptureImage
    } else if text matches Some(t) && t.len() > 0 {
        PollBranch::CaptureText
    } else {
        PollBranch::Idle
    }
}

/// Decides the branch for one poll cycle from what was observed on the
/// clipboard's two channels.
pub fn poll_branch(save_images: bool, image_present: bool, text: Option<&str>) -> (r: PollBranch)
    ensures
        r == poll_branch_spec(
            save_images,
            image_present,
            match text {
                Some(t) => Some(t@),
                None => None,
            },
        ),
{
    if save_images && image_present {
        PollBranch::CaptureImage
    } else {
        match text {
            Some(t) => {
                if t.is_empty() {
                    PollBranch::Idle
                } else {
                    PollBranch::CaptureText
                }
            },
            None => PollBranch::Idle,
        }
    }
}

} // verus!

//! Icon resolution for source applications: a per-session cache for
//! natively fetched icons, and curated emoji fallback tables keyed by
//! bundle identifier and by application name, with a generic glyph as the
//! last resort.

use vstd::prelude::*;

use crate::text::str_eq;

verus! {

// ---------------------------------------------------------------------------
// Emoji fallback tables
// ---------------------------------------------------------------------------

/// The curated bundle-identifier table.
pub open spec fn bundle_icon_spec(b: Seq<char>) -> Option<Seq<char>> {
    if b == "com.google.Chrome"@ {
        Some("🌐"@)
    } else if b == "com.apple.Safari"@ {
        Some("🧭"@)
    } else if b == "org.mozilla.firefox"@ {
        Some("🦊"@)
    } else if b == "com.microsoft.edgemac"@ {
        Some("🔷"@)
    } else if b == "com.brave.Browser"@ {
        Some("🦁"@)
    } else if b == "com.operasoftware.Opera"@ {
        Some("🔴"@)
    } else if b == "com.vivaldi.Vivaldi"@ {
        Some("🎼"@)
    } else if b == "com.microsoft.VSCode"@ {
        Some("💻"@)
    } else if b == "com.apple.dt.Xcode"@ {
        Some("🔨"@)
    } else if b == "com.jetbrains.intellij"@ {
        Some("🧠"@)
    } else if b == "com.sublimetext.4"@ {
        Some("📝"@)
    } else if b == "com.sublimetext.3"@ {
        Some("📝"@)
    } else if b == "io.zed.Zed"@ {
        Some("⚡"@)
    } else if b == "com.apple.Notes"@ {
        Some("📒"@)
    } else if b == "notion.id"@ {
        Some("📓"@)
    } else if b == "com.apple.finder"@ {
        Some("📁"@)
    } else if b == "com.apple.TextEdit"@ {
        Some("📄"@)
    } else if b == "com.apple.Preview"@ {
        Some("🖼️"@)
    } else if b == "com.tinyspeck.slackmacgap"@ {
        Some("💬"@)
    } else if b == "com.apple.MobileSMS"@ {
        Some("💭"@)
    } else if b == "us.zoom.xos"@ {
        Some("📹"@)
    } else if b == "com.microsoft.teams"@ {
        Some("👥"@)
    } else if b == "com.hnc.Discord"@ {
        Some("🎮"@)
    } else if b == "com.apple.Terminal"@ {
        Some("🖥️"@)
    } else if b == "com.googlecode.iterm2"@ {
        Some("⌨️"@)
    } else if b == "dev.warp.Warp-Stable"@ {
        Some("🚀"@)
    } else if b == "com.figma.Desktop"@ {
        Some("🎨"@)
    } else if b == "com.bohemiancoding.sketch3"@ {
        Some("✏️"@)
    } else if b == "com.spotify.client"@ {
        Some("🎵"@)
    } else if b == "com.apple.mail"@ {
        Some("📧"@)
    } else {
        None
    }
}

/// The curated application-name table, used when no bundle identifier is
/// available or known.
pub open spec fn name_icon_spec(n: Seq<char>) -> Option<Seq<char>> {
    if n == "Google Chrome"@ {
        Some("🌐"@)
    } else if n == "Safari"@ {
        Some("🧭"@)
    } else if n == "Firefox"@ {
        Some("🦊"@)
    } else if n == "Microsoft Edge"@ {
        Some("🔷"@)
    } else if n == "Brave Browser"@ {
        Some("🦁"@)
    } else if n == "Opera"@ {
        Some("🔴"@)
    } else if n == "Vivaldi"@ {
        Some("🎼"@)
    } else if n == "Visual Studio Code"@ {
        Some("💻"@)
    } else if n == "Code"@ {
        Some("💻"@)
    } else if n == "Xcode"@ {
        Some("🔨"@)
    } else if n == "IntelliJ IDEA"@ {
        Some("🧠"@)
    } else if n == "Sublime Text"@ {
        Some("📝"@)
    } else if n == "Zed"@ {
        Some("⚡"@)
    } else if n == "Notes"@ {
        Some("📒"@)
    } else if n == "Notion"@ {
        Some("📓"@)
    } else if n == "Finder"@ {
        Some("📁"@)
    } else if n == "TextEdit"@ {
        Some("📄"@)
    } else if n == "Preview"@ {
        Some("🖼️"@)
    } else if n == "Slack"@ {
        Some("💬"@)
    } else if n == "Messages"@ {
        Some("💭"@)
    } else if n == "zoom.us"@ {
        Some("📹"@)
    } else if n == "Microsoft Teams"@ {
        Some("👥"@)
    } else if n == "Discord"@ {
        Some("🎮"@)
    } else if n == "Terminal"@ {
        Some("🖥️"@)
    } else if n == "iTerm2"@ {
        Some("⌨️"@)
    } else if n == "iTerm"@ {
        Some("⌨️"@)
    } else if n == "Warp"@ {
        Some("🚀"@)
    } else if n == "Figma"@ {
        Some("🎨"@)
    } else if n == "Sketch"@ {
        Some("✏️"@)
    } else if n == "Spotify"@ {
        Some("🎵"@)
    } else if n == "Mail"@ {
        Some("📧"@)
    } else {
        None
    }
}

/// Looks an emoji icon up by bundle identifier.
pub fn get_icon_by_bundle_id(bundle_id: &str) -> (r: Option<&'static str>)
    ensures
        r is Some <==> bundle_icon_spec(bundle_id@) is Some,
        r matches Some(s) ==> bundle_icon_spec(bundle_id@) matches Some(t) && s@ == t,
{
    if str_eq(bundle_id, "com.google.Chrome") {
        Some("🌐")
    } else if str_eq(bundle_id, "com.apple.Safari") {
        Some("🧭")
    } else if str_eq(bundle_id, "org.mozilla.firefox") {
        Some("🦊")
    } else if str_eq(bundle_id, "com.microsoft.edgemac") {
        Some("🔷")
    } else if str_eq(bundle_id, "com.brave.Browser") {
        Some("🦁")
    } else if str_eq(bundle_id, "com.operasoftware.Opera") {
        Some("🔴")
    } else if str_eq(bundle_id, "com.vivaldi.Vivaldi") {
        Some("🎼")
    } else if str_eq(bundle_id, "com.microsoft.VSCode") {
        Some("💻")
    } else if str_eq(bundle_id, "com.apple.dt.Xcode") {
        Some("🔨")
    } else if str_eq(bundle_id, "com.jetbrains.intellij") {
        Some("🧠")
    } else if str_eq(bundle_id, "com.sublimetext.4") {
        Some("📝")
    } else if str_eq(bundle_id, "com.sublimetext.3") {
        Some("📝")
    } else if str_eq(bundle_id, "io.zed.Zed") {
        Some("⚡")
    } else if str_eq(bundle_id, "com.apple.Notes") {
        Some("📒")
    } else if str_eq(bundle_id, "notion.id") {
        Some("📓")
    } else if str_eq(bundle_id, "com.apple.finder") {
        Some("📁")
    } else if str_eq(bundle_id, "com.apple.TextEdit") {
        Some("📄")
    } else if str_eq(bundle_id, "com.apple.Preview") {
        Some("🖼️")
    } else if str_eq(bundle_id, "com.tinyspeck.slackmacgap") {
        Some("💬")
    } else if str_eq(bundle_id, "com.apple.MobileSMS") {
        Some("💭")
    } else if str_eq(bundle_id, "us.zoom.xos") {
        Some("📹")
    } else if str_eq(bundle_id, "com.microsoft.teams") {
        Some("👥")
    } else if str_eq(bundle_id, "com.hnc.Discord") {
        Some("🎮")
    } else if str_eq(bundle_id, "com.apple.Terminal") {
        Some("🖥️")
    } else if str_eq(bundle_id, "com.googlecode.iterm2") {
        Some("⌨️")
    } else if str_eq(bundle_id, "dev.warp.Warp-Stable") {
        Some("🚀")
    } else if str_eq(bundle_id, "com.figma.Desktop") {
        Some("🎨")
    } else if str_eq(bundle_id, "com.bohemiancoding.sketch3") {
        Some("✏️")
    } else if str_eq(bundle_id, "com.spotify.client") {
        Some("🎵")
    } else if str_eq(bundle_id, "com.apple.mail") {
        Some("📧")
    } else {
        None
    }
}

/// Looks an emoji icon up by application name.
pub fn get_icon_by_name(app_name: &str) -> (r: Option<&'static str>)
    ensures
        r is Some <==> name_icon_spec(app_name@) is Some,
        r matches Some(s) ==> name_icon_spec(app_name@) matches Some(t) && s@ == t,
{
    if str_eq(app_name, "Google Chrome") {
        Some("🌐")
    } else if str_eq(app_name, "Safari") {
        Some("🧭")
    } else if str_eq(app_name, "Firefox") {
        Some("🦊")
    } else if str_eq(app_name, "Microsoft Edge") {
        Some("🔷")
    } else if str_eq(app_name, "Brave Browser") {
        Some("🦁")
    } else if str_eq(app_name, "Opera") {
        Some("🔴")
    } else if str_eq(app_name, "Vivaldi") {
        Some("🎼")
    } else if str_eq(app_name, "Visual Studio Code") {
        Some("💻")
    } else if str_eq(app_name, "Code") {
        Some("💻")
    } else if str_eq(app_name, "Xcode") {
        Some("🔨")
    } else if str_eq(app_name, "IntelliJ IDEA") {
        Some("🧠")
    } else if str_eq(app_name, "Sublime Text") {
        Some("📝")
    } else if str_eq(app_name, "Zed") {
        Some("⚡")
    } else if str_eq(app_name, "Notes") {
        Some("📒")
    } else if str_eq(app_name, "Notion") {
        Some("📓")
    } else if str_eq(app_name, "Finder") {
        Some("📁")
    } else if str_eq(app_name, "TextEdit") {
        Some("📄")
    } else if str_eq(app_name, "Preview") {
        Some("🖼️")
    } else if str_eq(app_name, "Slack") {
        Some("💬")
    } else if str_eq(app_name, "Messages") {
        Some("💭")
    } else if str_eq(app_name, "zoom.us") {
        Some("📹")
    } else if str_eq(app_name, "Microsoft Teams") {
        Some("👥")
    } else if str_eq(app_name, "Discord") {
        Some("🎮")
    } else if str_eq(app_name, "Terminal") {
        Some("🖥️")
    } else if str_eq(app_name, "iTerm2") {
        Some("⌨️")
    } else if str_eq(app_name, "iTerm") {
        Some("⌨️")
    } else if str_eq(app_name, "Warp") {
        Some("🚀")
    } else if str_eq(app_name, "Figma") {
        Some("🎨")
    } else if str_eq(app_name, "Sketch") {
        Some("✏️")
    } else if str_eq(app_name, "Spotify") {
        Some("🎵")
    } else if str_eq(app_name, "Mail") {
        Some("📧")
    } else {
        None
    }
}

/// The view of an optional string slice.
pub open spec fn opt_str_view(o: Option<&str>) -> Option<Seq<char>> {
    match o {
        Some(s) => Some(s@),
        None => None,
    }
}

/// The emoji resolution order: bundle identifier first, then name, then the
/// generic clipboard glyph.
pub open spec fn app_icon_spec(bundle: Option<Seq<char>>, name: Seq<char>) -> Seq<char> {
    if bundle matches Some(b) && bundle_icon_spec(b) is Some {
        bundle_icon_spec(bundle->0)->0
    } else if name_icon_spec(name) is Some {
        name_icon_spec(name)->0
    } else {
        "📋"@
    }
}

/// Resolves the emoji icon for an app, trying the bundle identifier first,
/// then the name, then falling back to a generic glyph.
pub fn get_app_icon(bundle_id: Option<&str>, app_name: &str) -> (r: &'static str)
    ensures
        r@ == app_icon_spec(opt_str_view(bundle_id), app_name@),
{
    if let Some(bid) = bundle_id {
        if let Some(icon) = get_icon_by_bundle_id(bid) {
            return icon;
        }
    }
    if let Some(icon) = get_icon_by_name(app_name) {
        return icon;
    }
    "📋"
}

// ---------------------------------------------------------------------------
// The per-session icon cache
// ---------------------------------------------------------------------------

/// A cache of natively fetched icons, keyed by bundle identifier. Negative
/// results are cached too, so a lookup miss is not retried every cycle.
/// Native icon extraction is comparatively expensive and bundle identifiers
/// repeat heavily during a session.
pub struct IconCache {
    pub entries: Vec<(String, Option<String>)>,
}

/// The view of an optional owned string.
pub open spec fn opt_string_view(o: Option<String>) -> Option<Seq<char>> {
    match o {
        Some(s) => Some(s@),
        None => None,
    }
}

impl IconCache {
    /// Keys are unique, so each bundle identifier caches one verdict.
    pub open spec fn wf(self) -> bool {
        forall|i: int, j: int|
            0 <= i < j < self.entries@.len() ==> (#[trigger] self.entries@[i]).0@ != (
            #[trigger] self.entries@[j]).0@
    }

    /// The cache holds a verdict for this bundle identifier.
    pub open spec fn contains_key(self, b: Seq<char>) -> bool {
        exists|i: int| 0 <= i < self.entries@.len() && (#[trigger] self.entries@[i]).0@ == b
    }

    /// The cached verdict at this key.
    pub open spec fn cached_at(self, b: Seq<char>) -> Option<Seq<char>> {
        opt_string_view(self.entries@[choose|i: int|
            0 <= i < self.entries@.len() && (#[trigger] self.entries@[i]).0@ == b].1)
    }

    /// An empty cache.
    pub fn new() -> (c: IconCache)
        ensures
            c.wf(),
            c.entries@.len() == 0,
    {
        IconCache { entries: Vec::new() }
    }

    /// Looks a bundle identifier up: `None` on a miss, the cached verdict
    /// (possibly a cached negative) on a hit.
    pub fn lookup(&self, bundle_id: &str) -> (r: Option<Option<String>>)
        requires
            self.wf(),
        ensures
            r is Some <==> self.contains_key(bundle_id@),
            r matches Some(v) ==> opt_string_view(v) == self.cached_at(bundle_id@),
    {
        let n = self.entries.len();
        let mut i: usize = 0;
        while i < n
            invariant
                self.wf(),
                n == self.entries@.len(),
                i <= n,
                forall|k: int| 0 <= k < i ==> (#[trigger] self.entries@[k]).0@ != bundle_id@,
            decreases n - i,
        {
            if str_eq(self.entries[i].0.as_str(), bundle_id) {
                let v = self.entries[i].1.clone();
                proof {
                    let w = choose|k: int|
                        0 <= k < self.entries@.len() && (#[trigger] self.entries@[k]).0@
                            == bundle_id@;
                    assert(w == i);
                }
                return Some(v);
            }
            i = i + 1;
        }
        None
    }

    /// Caches a verdict for a bundle identifier that has none yet.
    pub fn store(&mut self, bundle_id: String, icon: Option<String>)
        requires
            old(self).wf(),
            !old(self).contains_key(bundle_id@),
        ensures
            final(self).wf(),
            final(self).contains_key(bundle_id@),
            final(self).cached_at(bundle_id@) == opt_string_view(icon),
            forall|b: Seq<char>|
                b != bundle_id@ ==> (final(self).contains_key(b) <==> old(self).contains_key(b)),
            forall|b: Seq<char>|
                b != bundle_id@ && old(self).contains_key(b) ==> final(self).cached_at(b)
                    == old(self).cached_at(b),
    {
        let ghost pre = self.entries@;
        let ghost key = bundle_id@;
        let ghost val = opt_string_view(icon);
        self.entries.push((bundle_id, icon));
        proof {
            let post = self.entries@;
            assert(post.len() == pre.len() + 1);
            assert(post[pre.len() as int].0@ == key);
            assert(forall|k: int| 0 <= k < pre.len() ==> post[k] == pre[k]);
            assert(self.contains_key(key));
            let w = choose|i: int| 0 <= i < post.len() && (#[trigger] post[i]).0@ == key;
            assert(w == pre.len() as int);
            assert forall|b: Seq<char>|
                b != key && old(self).contains_key(b) implies self.contains_key(b)
                && self.cached_at(b) == old(self).cached_at(b) by {
                let i0 = choose|i: int| 0 <= i < pre.len() && (#[trigger] pre[i]).0@ == b;
                assert(post[i0].0@ == b);
                assert(self.contains_key(b));
                let wn = choose|i: int| 0 <= i < post.len() && (#[trigger] post[i]).0@ == b;
                let wo = choose|i: int| 0 <= i < pre.len() && (#[trigger] pre[i]).0@ == b;
                assert(post[wn].0@ == b);
                assert(wn < pre.len());
                assert(pre[wn].0@ == b);
                if wn != wo {
                    assert(pre[wo].0@ == b);
                }
                assert(post[wn] == pre[wn]);
            }
            assert forall|b: Seq<char>|
                b != key && self.contains_key(b) implies old(self).contains_key(b) by {
                let i0 = choose|i: int| 0 <= i < post.len() && (#[trigger] post[i]).0@ == b;
                assert(i0 != pre.len() as int);
                assert(pre[i0].0@ == b);
            }
        }
    }

    /// The cache-or-record step of icon resolution: on a hit the cached
    /// verdict is returned unchanged; on a miss the freshly fetched verdict
    /// (which the caller obtained from the platform) is cached and returned.
    pub fn resolve(&mut self, bundle_id: &str, fetched: Option<String>) -> (r: Option<String>)
        requires
            old(self).wf(),
        ensures
            final(self).wf(),
            old(self).contains_key(bundle_id@) ==> *final(self) == *old(self) && opt_string_view(r)
                == old(self).cached_at(bundle_id@),
            !old(self).contains_key(bundle_id@) ==> opt_string_view(r) == opt_string_view(fetched)
                && final(self).contains_key(bundle_id@) && final(self).cached_at(bundle_id@)
                == opt_string_view(fetched),
    {
        match self.lookup(bundle_id) {
            Some(cached) => cached,
            None => {
                let r = fetched.clone();
                self.store(bundle_id.to_owned(), fetched);
                r
            },
        }
    }
}

/// The system-icon query on platforms without a native icon service: always
/// a miss; the emoji tables take over.
pub fn get_system_icon(bundle_id: &str) -> (r: Option<String>)
    ensures
        r is None,
{
    None
}

/// Resolves the icon string handed to the UI: the natively fetched icon
/// where the platform yields one, otherwise the emoji fallback.
pub fn get_app_icon_data(bundle_id: Option<String>, app_name: String) -> (r: String)
    ensures
        r@ == app_icon_spec(
            match bundle_id {
                Some(b) => Some(b@),
                None => None,
            },
            app_name@,
        ),
{
    if let Some(ref bid) = bundle_id {
        if let Some(icon_data) = get_system_icon(bid.as_str()) {
            return icon_data;
        }
    }
    let icon = match bundle_id {
        Some(b) => get_app_icon(Some(b.as_str()), app_name.as_str()),
        None => get_app_icon(None, app_name.as_str()),
    };
    icon.to_owned()
}

} // verus!

//! Persisted-selection codec: the versioned, provider-tagged restore blob
//! and its resolution against the current monitor and window caches.

use vstd::prelude::*;

use crate::display::{spec_find_monitor, DisplayStateTracker};
use crate::window::{spec_find_window, Window, WindowStateTracker};

verus! {

/// Provider tag this implementation stamps on blobs it emits, and the only
/// tag it accepts back.
pub open spec fn spec_restore_provider() -> Seq<char> {
    "Kagayaku"@
}

pub fn restore_provider() -> (r: String)
    ensures
        r@ == spec_restore_provider(),
{
    "Kagayaku".to_owned()
}

/// Blob layout version this implementation emits and accepts.
pub const RESTORE_DATA_VERSION: u32 = 1;

/// The kind of a capture source.
#[derive(Clone, Copy, Debug, PartialEq, Eq, Structural)]
pub enum SourceKind {
    Monitor,
    Window,
    Virtual,
}

/// Numeric code a source kind is persisted under and spoken of on the bus.
pub open spec fn spec_kind_code(k: SourceKind) -> u32 {
    match k {
        SourceKind::Monitor => 1,
        SourceKind::Window => 2,
        SourceKind::Virtual => 4,
    }
}

pub fn kind_code(k: SourceKind) -> (r: u32)
    ensures
        r == spec_kind_code(k),
{
    match k {
        SourceKind::Monitor => 1,
        SourceKind::Window => 2,
        SourceKind::Virtual => 4,
    }
}

/// What one live stream remembers for persistence: enough to re-identify
/// its source in a later desktop session.
#[derive(Clone)]
pub enum GnomeStreamRestoreData {
    Monitor { match_string: String },
    Window { app_id: String, title: String },
}

/// Spec-level image of `GnomeStreamRestoreData`.
pub ghost enum RestoreDataView {
    Monitor { match_string: Seq<char> },
    Window { app_id: Seq<char>, title: Seq<char> },
}

impl View for GnomeStreamRestoreData {
    type V = RestoreDataView;

    open spec fn view(&self) -> RestoreDataView {
        match self {
            GnomeStreamRestoreData::Monitor { match_string } => RestoreDataView::Monitor {
                match_string: match_string@,
            },
            GnomeStreamRestoreData::Window { app_id, title } => RestoreDataView::Window {
                app_id: app_id@,
                title: title@,
            },
        }
    }
}

/// The source-specific variant inside one persisted entry: a bare string
/// for monitors, a 2-tuple of strings for windows.  Anything else found in
/// the variant is kept as `Malformed`, so the decoder can drop that entry.
pub enum RestoreValue {
    Text(String),
    Pair(String, String),
    Malformed,
}

/// Spec-level image of `RestoreValue`.
pub ghost enum RestoreValueView {
    Text(Seq<char>),
    Pair(Seq<char>, Seq<char>),
    Malformed,
}

impl View for RestoreValue {
    type V = RestoreValueView;

    open spec fn view(&self) -> RestoreValueView {
        match self {
            RestoreValue::Text(s) => RestoreValueView::Text(s@),
            RestoreValue::Pair(a, t) => RestoreValueView::Pair(a@, t@),
            RestoreValue::Malformed => RestoreValueView::Malformed,
        }
    }
}

/// One persisted entry: caller-assigned stream id, numeric source kind,
/// and the source-specific variant.
pub struct RestoreEntry {
    pub stream_id: u32,
    pub source_kind: u32,
    pub data: RestoreValue,
}

/// Spec-level image of `RestoreEntry`.
pub ghost struct RestoreEntryView {
    pub stream_id: u32,
    pub source_kind: u32,
    pub data: RestoreValueView,
}

impl View for RestoreEntry {
    type V = RestoreEntryView;

    open spec fn view(&self) -> RestoreEntryView {
        RestoreEntryView {
            stream_id: self.stream_id,
            source_kind: self.source_kind,
            data: self.data@,
        }
    }
}

/// The persisted blob: `(provider, version, (reserved, reserved, entries))`.
/// The two reserved fields exist for a future timestamp and are always
/// written as zero; the decoder ignores them.
pub struct RestoreBlob {
    pub provider: String,
    pub version: u32,
    pub reserved_a: i64,
    pub reserved_b: i64,
    pub entries: Vec<RestoreEntry>,
}

/// Spec-level image of `RestoreBlob`.
pub ghost struct RestoreBlobView {
    pub provider: Seq<char>,
    pub version: u32,
    pub reserved_a: i64,
    pub reserved_b: i64,
    pub entries: Seq<RestoreEntryView>,
}

impl View for RestoreBlob {
    type V = RestoreBlobView;

    open spec fn view(&self) -> RestoreBlobView {
        RestoreBlobView {
            provider: self.provider@,
            version: self.version,
            reserved_a: self.reserved_a,
            reserved_b: self.reserved_b,
            entries: self.entries@.map_values(|e: RestoreEntry| e@),
        }
    }
}

impl RestoreBlobView {
    /// Accept-or-reject gate: provider and version must match exactly.
    pub open spec fn spec_accepted(self) -> bool {
        self.provider == spec_restore_provider() && self.version == RESTORE_DATA_VERSION
    }
}

impl RestoreBlob {
    /// Accept-or-reject gate: provider and version must match exactly.
    pub open spec fn spec_accepted(&self) -> bool {
        self@.spec_accepted()
    }

    pub fn accepted(&self) -> (r: bool)
        ensures
            r == self.spec_accepted(),
    {
        self.provider == restore_provider() && self.version == RESTORE_DATA_VERSION
    }
}

/// One resolved capture source, ready to hand to the compositor adapter.
#[derive(Clone)]
pub enum ScreencastStream {
    Monitor { id: u32, connector: String, match_string: String },
    Window { id: u32, window_id: u64, app_id: String, title: String },
}

/// Spec-level image of `ScreencastStream`.
pub ghost enum StreamView {
    Monitor { id: u32, connector: Seq<char>, match_string: Seq<char> },
    Window { id: u32, window_id: u64, app_id: Seq<char>, title: Seq<char> },
}

impl View for ScreencastStream {
    type V = StreamView;

    open spec fn view(&self) -> StreamView {
        match self {
            ScreencastStream::Monitor { id, connector, match_string } => StreamView::Monitor {
                id: *id,
                connector: connector@,
                match_string: match_string@,
            },
            ScreencastStream::Window { id, window_id, app_id, title } => StreamView::Window {
                id: *id,
                window_id: *window_id,
                app_id: app_id@,
                title: title@,
            },
        }
    }
}

impl StreamView {
    /// The kind of source a resolved stream captures.
    pub open spec fn kind(self) -> SourceKind {
        match self {
            StreamView::Monitor { .. } => SourceKind::Monitor,
            StreamView::Window { .. } => SourceKind::Window,
        }
    }
}

impl ScreencastStream {
    pub fn kind(&self) -> (r: SourceKind)
        ensures
            r == self@.kind(),
    {
        match self {
            ScreencastStream::Monitor { .. } => SourceKind::Monitor,
            ScreencastStream::Window { .. } => SourceKind::Window,
        }
    }

    /// A copy that provably describes the same source.
    pub fn duplicate(&self) -> (r: ScreencastStream)
        ensures
            r@ == self@,
    {
        match self {
            ScreencastStream::Monitor { id, connector, match_string } => ScreencastStream::Monitor {
                id: *id,
                connector: connector.clone(),
                match_string: match_string.clone(),
            },
            ScreencastStream::Window { id, window_id, app_id, title } => ScreencastStream::Window {
                id: *id,
                window_id: *window_id,
                app_id: app_id.clone(),
                title: title.clone(),
            },
        }
    }
}

/// How one persisted entry resolves against the caches.
///
/// A monitor entry must carry a bare string and a window entry a 2-tuple;
/// the identity must still exist in the respective cache.  Virtual entries
/// and entries with an unrecognized kind never resolve.  A monitor entry
/// resolves to the first cached monitor with that match string, carrying
/// its current connector; a window entry resolves to the first cached
/// window with exactly that (app id, title) pair.
pub open spec fn spec_resolve_entry(
    e: RestoreEntryView,
    monitors: Seq<crate::display::Monitor>,
    windows: Seq<(u64, Window)>,
) -> Option<StreamView> {
    if e.source_kind == spec_kind_code(SourceKind::Monitor) {
        match e.data {
            RestoreValueView::Text(ms) => match spec_find_monitor(monitors, ms) {
                Some(m) => Some(
                    StreamView::Monitor {
                        id: e.stream_id,
                        connector: m.connector@,
                        match_string: m.spec_match_string(),
                    },
                ),
                None => None,
            },
            _ => None,
        }
    } else if e.source_kind == spec_kind_code(SourceKind::Window) {
        match e.data {
            RestoreValueView::Pair(a, t) => match spec_find_window(windows, a, t) {
                Some(wid) => Some(
                    StreamView::Window { id: e.stream_id, window_id: wid, app_id: a, title: t },
                ),
                None => None,
            },
            _ => None,
        }
    } else {
        None
    }
}

/// Entry-by-entry resolution; entries that do not resolve are dropped
/// silently, never failing the rest (best-effort policy).
pub open spec fn spec_resolve_entries(
    entries: Seq<RestoreEntryView>,
    monitors: Seq<crate::display::Monitor>,
    windows: Seq<(u64, Window)>,
) -> Seq<StreamView>
    decreases entries.len(),
{
    if entries.len() == 0 {
        Seq::empty()
    } else {
        let rest = spec_resolve_entries(entries.skip(1), monitors, windows);
        match spec_resolve_entry(entries[0], monitors, windows) {
            Some(s) => seq![s] + rest,
            None => rest,
        }
    }
}

/// Resolves one persisted entry against the caches.
pub fn resolve_entry(
    e: &RestoreEntry,
    displays: &DisplayStateTracker,
    windows: &WindowStateTracker,
) -> (r: Option<ScreencastStream>)
    ensures
        match r {
            Some(s) => spec_resolve_entry(e@, displays.spec_monitors(), windows.spec_windows())
                == Some(s@),
            None => spec_resolve_entry(e@, displays.spec_monitors(), windows.spec_windows())
                is None,
        },
{
    if e.source_kind == kind_code(SourceKind::Monitor) {
        match &e.data {
            RestoreValue::Text(ms) => match displays.find_monitor(ms.as_str()) {
                Some(m) => Some(
                    ScreencastStream::Monitor {
                        id: e.stream_id,
                        connector: m.connector(),
                        match_string: m.match_string(),
                    },
                ),
                None => None,
            },
            _ => None,
        }
    } else if e.source_kind == kind_code(SourceKind::Window) {
        match &e.data {
            RestoreValue::Pair(a, t) => match windows.find_window(a.as_str(), t.as_str()) {
                Some(wid) => Some(
                    ScreencastStream::Window {
                        id: e.stream_id,
                        window_id: wid,
                        app_id: a.clone(),
                        title: t.clone(),
                    },
                ),
                None => None,
            },
            _ => None,
        }
    } else {
        None
    }
}

/// Resolves a decoded blob payload against the caches, entry by entry in
/// order; entries that do not resolve are dropped without error.
pub fn restore_streams(
    entries: &Vec<RestoreEntry>,
    displays: &DisplayStateTracker,
    windows: &WindowStateTracker,
) -> (r: Vec<ScreencastStream>)
    ensures
        r@.map_values(|s: ScreencastStream| s@) =~= spec_resolve_entries(
            entries@.map_values(|e: RestoreEntry| e@),
            displays.spec_monitors(),
            windows.spec_windows(),
        ),
{
    let ghost eviews = entries@.map_values(|e: RestoreEntry| e@);
    let ghost mons = displays.spec_monitors();
    let ghost wins = windows.spec_windows();
    let mut r: Vec<ScreencastStream> = Vec::new();
    let n = entries.len();
    proof {
        assert(eviews.skip(0) =~= eviews);
    }
    for i in 0..n
        invariant
            n == entries.len(),
            eviews == entries@.map_values(|e: RestoreEntry| e@),
            mons == displays.spec_monitors(),
            wins == windows.spec_windows(),
            spec_resolve_entries(eviews, mons, wins) =~= r@.map_values(
                |s: ScreencastStream| s@,
            ) + spec_resolve_entries(eviews.skip(i as int), mons, wins),
    {
        proof {
            assert(eviews.skip(i as int)[0] == eviews[i as int]);
            assert(eviews.skip(i as int).skip(1) =~= eviews.skip(i + 1));
        }
        if let Some(s) = resolve_entry(&entries[i], displays, windows) {
            r.push(s);
            proof {
                let f = |s: ScreencastStream| s@;
                assert(r@.map_values(f) =~= r@.drop_last().map_values(f).push(r@.last()@));
            }
        }
    }
    proof {
        assert(eviews.skip(n as int) =~= Seq::<RestoreEntryView>::empty());
    }
    r
}

} // verus!

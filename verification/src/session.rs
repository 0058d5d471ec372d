//! The session protocol state machine: one entry per client session,
//! create → configure → start → close, including the two-phase start that
//! hands off to the human picker without holding the session table.
//!
//! The table itself is meant to sit behind one exclusive lock in the
//! surrounding binary.  `begin_start` computes everything the picker
//! hand-off needs from locked state; the caller then releases the lock,
//! waits for the picker, re-acquires the lock and calls `finish_start`,
//! which reads the session fresh and treats a vanished session as an
//! ordinary error.

use vstd::prelude::*;

use crate::adapter::{
    spec_restore_entries, spec_started_streams, GnomeSession, StartedStream,
};
use crate::codec::{
    spec_resolve_entries, RestoreBlob, RestoreBlobView, ScreencastStream, SourceKind, StreamView,
};
use crate::codec::restore_streams;
use crate::display::DisplayStateTracker;
use crate::window::WindowStateTracker;

verus! {

/// How the cursor is delivered inside a capture stream.
#[derive(Clone, Copy, Debug, PartialEq, Eq, Structural)]
pub enum CursorMode {
    Hidden,
    Embedded,
    Metadata,
}

/// Numeric code a cursor mode is spoken of as on the bus.
pub open spec fn spec_cursor_mode_code(m: CursorMode) -> u32 {
    match m {
        CursorMode::Hidden => 1,
        CursorMode::Embedded => 2,
        CursorMode::Metadata => 4,
    }
}

pub fn cursor_mode_code(m: CursorMode) -> (r: u32)
    ensures
        r == spec_cursor_mode_code(m),
{
    match m {
        CursorMode::Hidden => 1,
        CursorMode::Embedded => 2,
        CursorMode::Metadata => 4,
    }
}

/// Whether and how long a selection may be persisted for the client.
#[derive(Clone, Copy, Debug, PartialEq, Eq, Structural)]
pub enum PersistMode {
    /// Never persist.
    DoNot,
    /// Persist while the application is running.
    Application,
    /// Persist until explicitly revoked.
    ExplicitlyRevoked,
}

/// The set of source kinds a session may capture.
#[derive(Clone, Copy, Debug, PartialEq, Eq, Structural)]
pub struct SourceTypes {
    pub monitor: bool,
    pub window: bool,
    pub virtual_source: bool,
}

impl SourceTypes {
    pub open spec fn spec_is_empty(self) -> bool {
        !self.monitor && !self.window && !self.virtual_source
    }

    pub fn is_empty(self) -> (r: bool)
        ensures
            r == self.spec_is_empty(),
    {
        !self.monitor && !self.window && !self.virtual_source
    }

    pub open spec fn spec_contains(self, k: SourceKind) -> bool {
        match k {
            SourceKind::Monitor => self.monitor,
            SourceKind::Window => self.window,
            SourceKind::Virtual => self.virtual_source,
        }
    }

    pub fn contains(self, k: SourceKind) -> (r: bool)
        ensures
            r == self.spec_contains(k),
    {
        match k {
            SourceKind::Monitor => self.monitor,
            SourceKind::Window => self.window,
            SourceKind::Virtual => self.virtual_source,
        }
    }

    pub open spec fn spec_monitor_only() -> SourceTypes {
        SourceTypes { monitor: true, window: false, virtual_source: false }
    }

    pub fn monitor_only() -> (r: SourceTypes)
        ensures
            r == SourceTypes::spec_monitor_only(),
    {
        SourceTypes { monitor: true, window: false, virtual_source: false }
    }
}

/// Source kinds this broker can capture: monitors and windows, but no
/// virtual sources.
pub fn available_source_types() -> (r: SourceTypes)
    ensures
        r == (SourceTypes { monitor: true, window: true, virtual_source: false }),
{
    SourceTypes { monitor: true, window: true, virtual_source: false }
}

/// Cursor modes this broker offers.
#[derive(Clone, Copy, Debug, PartialEq, Eq, Structural)]
pub struct CursorModes {
    pub hidden: bool,
    pub embedded: bool,
    pub metadata: bool,
}

pub fn available_cursor_mode() -> (r: CursorModes)
    ensures
        r == (CursorModes { hidden: true, embedded: true, metadata: true }),
{
    CursorModes { hidden: true, embedded: true, metadata: true }
}

/// Typed protocol errors the caller can react to.
#[derive(Clone, Copy, Debug, PartialEq, Eq, Structural)]
pub enum SessionError {
    /// The caller referenced a token not present in the registry.
    UnknownSession,
    /// Start was attempted on a session that already has a live adapter.
    AlreadyStarted,
}

impl SessionError {
    pub fn message(&self) -> (r: String)
        ensures
            *self == SessionError::UnknownSession ==> r@ == "unknown session token"@,
            *self == SessionError::AlreadyStarted ==> r@ == "session already started"@,
    {
        match self {
            SessionError::UnknownSession => "unknown session token".to_owned(),
            SessionError::AlreadyStarted => "session already started".to_owned(),
        }
    }
}

/// Per-session state.
pub struct ScreencastSession {
    /// Whether more than one source may be selected.
    pub multiple: bool,
    pub cursor_mode: CursorMode,
    pub source_type: SourceTypes,
    pub persist_mode: PersistMode,
    /// The live compositor adapter, present once casting has started.
    pub gnome_session: Option<GnomeSession>,
    /// Pre-resolved stream choices from a successful restoration; empty
    /// when the session must prompt interactively.
    pub streams: Vec<ScreencastStream>,
}

/// Spec-level image of `ScreencastSession`.
pub ghost struct SessionView {
    pub multiple: bool,
    pub cursor_mode: CursorMode,
    pub source_type: SourceTypes,
    pub persist_mode: PersistMode,
    pub adapter: Option<Seq<crate::adapter::GnomeStreamView>>,
    pub streams: Seq<StreamView>,
}

impl View for ScreencastSession {
    type V = SessionView;

    open spec fn view(&self) -> SessionView {
        SessionView {
            multiple: self.multiple,
            cursor_mode: self.cursor_mode,
            source_type: self.source_type,
            persist_mode: self.persist_mode,
            adapter: match self.gnome_session {
                Some(g) => Some(g.spec_streams()),
                None => None,
            },
            streams: self.streams@.map_values(|s: ScreencastStream| s@),
        }
    }
}

/// The default configuration a fresh session starts with.
pub open spec fn spec_default_session() -> SessionView {
    SessionView {
        multiple: false,
        cursor_mode: CursorMode::Hidden,
        source_type: SourceTypes::spec_monitor_only(),
        persist_mode: PersistMode::DoNot,
        adapter: None,
        streams: Seq::empty(),
    }
}

impl Default for ScreencastSession {
    fn default() -> (r: Self)
        ensures
            r@ == spec_default_session(),
    {
        let r = ScreencastSession {
            multiple: false,
            cursor_mode: CursorMode::Hidden,
            source_type: SourceTypes::monitor_only(),
            persist_mode: PersistMode::DoNot,
            gnome_session: None,
            streams: Vec::new(),
        };
        proof {
            assert(r@.streams =~= spec_default_session().streams);
        }
        r
    }
}

/// The fields a select-sources call may carry; absent fields keep the
/// session's prior values (partial update).
pub struct SelectSourcesOptions {
    pub multiple: Option<bool>,
    pub cursor_mode: Option<CursorMode>,
    pub persist_mode: Option<PersistMode>,
    pub types: Option<SourceTypes>,
    pub restore_data: Option<RestoreBlob>,
}

/// Spec-level image of `SelectSourcesOptions`.
pub ghost struct OptionsView {
    pub multiple: Option<bool>,
    pub cursor_mode: Option<CursorMode>,
    pub persist_mode: Option<PersistMode>,
    pub types: Option<SourceTypes>,
    pub restore_data: Option<RestoreBlobView>,
}

impl View for SelectSourcesOptions {
    type V = OptionsView;

    open spec fn view(&self) -> OptionsView {
        OptionsView {
            multiple: self.multiple,
            cursor_mode: self.cursor_mode,
            persist_mode: self.persist_mode,
            types: self.types,
            restore_data: match &self.restore_data {
                Some(b) => Some(b@),
                None => None,
            },
        }
    }
}

/// Field-by-field partial update: each field present in the options
/// replaces the session's value; an empty requested-type set falls back to
/// monitors only.
pub open spec fn spec_apply_options(s: SessionView, o: OptionsView) -> SessionView {
    SessionView {
        multiple: match o.multiple {
            Some(m) => m,
            None => s.multiple,
        },
        cursor_mode: match o.cursor_mode {
            Some(c) => c,
            None => s.cursor_mode,
        },
        persist_mode: match o.persist_mode {
            Some(p) => p,
            None => s.persist_mode,
        },
        source_type: match o.types {
            Some(t) => if t.spec_is_empty() {
                SourceTypes::spec_monitor_only()
            } else {
                t
            },
            None => s.source_type,
        },
        ..s
    }
}

/// What restoration yields under the already-updated session `s`: entries
/// resolve only when persistence is requested and the blob's provider and
/// version match exactly; otherwise nothing resolves.
pub open spec fn spec_restored_streams(
    s: SessionView,
    o: OptionsView,
    monitors: Seq<crate::display::Monitor>,
    windows: Seq<(u64, crate::window::Window)>,
) -> Seq<StreamView> {
    match o.restore_data {
        Some(b) => if s.persist_mode != PersistMode::DoNot && b.spec_accepted() {
            spec_resolve_entries(b.entries, monitors, windows)
        } else {
            Seq::empty()
        },
        None => Seq::empty(),
    }
}

/// The full effect of one configure call.  A restoration that resolves to
/// zero streams does not overwrite an existing list: the last good list
/// wins.
pub open spec fn spec_configured(
    s: SessionView,
    o: OptionsView,
    monitors: Seq<crate::display::Monitor>,
    windows: Seq<(u64, crate::window::Window)>,
) -> SessionView {
    let s1 = spec_apply_options(s, o);
    let resolved = spec_restored_streams(s1, o, monitors, windows);
    if resolved.len() > 0 {
        SessionView { streams: resolved, ..s1 }
    } else {
        s1
    }
}

/// Streams whose kind is still in the session's requested set; a source
/// type toggled off after restoration is silently excluded.
pub open spec fn spec_filter_streams(streams: Seq<StreamView>, t: SourceTypes) -> Seq<StreamView>
    decreases streams.len(),
{
    if streams.len() == 0 {
        Seq::empty()
    } else {
        let rest = spec_filter_streams(streams.skip(1), t);
        if t.spec_contains(streams[0].kind()) {
            seq![streams[0]] + rest
        } else {
            rest
        }
    }
}

/// One registry entry.
struct SessionEntry {
    token: String,
    session: ScreencastSession,
}

/// Spec-level image of one registry entry.
pub ghost struct EntryView {
    pub token: Seq<char>,
    pub session: SessionView,
}

/// First entry registered under `token`.
pub open spec fn spec_lookup(entries: Seq<EntryView>, token: Seq<char>) -> Option<SessionView>
    decreases entries.len(),
{
    if entries.len() == 0 {
        None
    } else if entries[0].token == token {
        Some(entries[0].session)
    } else {
        spec_lookup(entries.skip(1), token)
    }
}

/// What `begin_start` decides from locked state, for use across the
/// unlocked picker hand-off.
#[derive(Clone, Copy, Debug, PartialEq, Eq, Structural)]
pub struct StartPlan {
    /// Whether the picker must be consulted: true exactly when the session
    /// has no pre-resolved stream.
    pub prompt_needed: bool,
    pub multiple: bool,
    /// Requested source types as decided before the hand-off, for the
    /// picker's benefit only.
    pub source_type: SourceTypes,
    pub persist_mode: PersistMode,
}

/// What `finish_start` reads fresh from the re-locked session: the streams
/// to register against the compositor and the current per-session options.
pub struct StartContext {
    pub registrations: Vec<ScreencastStream>,
    pub cursor_mode: CursorMode,
    pub persist_mode: PersistMode,
}

/// The session table: the protocol state machine's single mutual-exclusion
/// domain.
pub struct SessionRegistry {
    sessions: Vec<SessionEntry>,
}

impl SessionRegistry {
    pub closed spec fn spec_entries(&self) -> Seq<EntryView> {
        self.sessions@.map_values(
            |e: SessionEntry| EntryView { token: e.token@, session: e.session@ },
        )
    }

    /// No token is registered twice.
    pub open spec fn wf(&self) -> bool {
        forall|i: int, j: int|
            0 <= i < j < self.spec_entries().len() ==> #[trigger] self.spec_entries()[i].token
                != #[trigger] self.spec_entries()[j].token
    }

    pub open spec fn spec_session(&self, token: Seq<char>) -> Option<SessionView> {
        spec_lookup(self.spec_entries(), token)
    }

    pub fn new() -> (r: Self)
        ensures
            r.wf(),
            r.spec_entries() =~= Seq::<EntryView>::empty(),
    {
        SessionRegistry { sessions: Vec::new() }
    }

    /// Index of the entry registered under `token`, if any.
    fn find_index(&self, token: &String) -> (r: Option<usize>)
        ensures
            match r {
                Some(i) => i < self.spec_entries().len() && self.spec_entries()[i as int].token
                    == token@ && (forall|j: int|
                    0 <= j < i ==> self.spec_entries()[j].token != token@) && self.spec_session(
                    token@,
                ) == Some(self.spec_entries()[i as int].session),
                None => self.spec_session(token@) is None,
            },
    {
        let ghost entries = self.spec_entries();
        let n = self.sessions.len();
        proof {
            assert(entries.skip(0) =~= entries);
        }
        for i in 0..n
            invariant
                n == self.sessions.len(),
                entries == self.spec_entries(),
                forall|j: int| 0 <= j < i ==> entries[j].token != token@,
                spec_lookup(entries, token@) == spec_lookup(entries.skip(i as int), token@),
        {
            proof {
                assert(entries.skip(i as int)[0] == entries[i as int]);
                assert(entries.skip(i as int).skip(1) =~= entries.skip(i + 1));
            }
            if self.sessions[i].token == *token {
                return Some(i);
            }
        }
        proof {
            assert(entries.skip(n as int) =~= Seq::<EntryView>::empty());
        }
        None
    }

    /// The session registered under `token`, if any.
    pub fn get_session(&self, token: &String) -> (r: Option<&ScreencastSession>)
        ensures
            match r {
                Some(s) => self.spec_session(token@) == Some(s@),
                None => self.spec_session(token@) is None,
            },
    {
        match self.find_index(token) {
            Some(i) => Some(&self.sessions[i].session),
            None => None,
        }
    }

    /// Inserts a fresh, default-configured session under `token`; a token
    /// already registered is reset to the default entry.
    pub fn create_session(&mut self, token: String)
        requires
            old(self).wf(),
        ensures
            final(self).wf(),
            final(self).spec_session(token@) == Some(spec_default_session()),
            forall|t: Seq<char>|
                t != token@ ==> #[trigger] final(self).spec_session(t) == old(self).spec_session(
                    t,
                ),
    {
        let ghost old_entries = self.spec_entries();
        let idx = self.find_index(&token);
        let entry = SessionEntry { token, session: ScreencastSession::default() };
        let ghost ev = EntryView { token: entry.token@, session: entry.session@ };
        match idx {
            Some(i) => {
                let _ = self.sessions.remove(i);
                self.sessions.insert(i, entry);
                proof {
                    assert(self.spec_entries() =~= old_entries.update(i as int, ev));
                    lemma_lookup_update(old_entries, i as int, ev.session);
                    lemma_wf_update(old_entries, i as int, ev.session);
                }
            },
            None => {
                self.sessions.push(entry);
                proof {
                    lemma_lookup_none_absent(old_entries, ev.token);
                    assert(self.spec_entries() =~= old_entries.push(ev));
                    lemma_lookup_push(old_entries, ev);
                    lemma_wf_push(old_entries, ev);
                }
            },
        }
    }

    /// Partial configuration update, plus best-effort restoration: with
    /// persistence requested and an exactly matching blob, entries are
    /// resolved against the caches and a non-empty result replaces the
    /// session's pre-resolved list.
    pub fn select_sources(
        &mut self,
        token: &String,
        options: &SelectSourcesOptions,
        displays: &DisplayStateTracker,
        windows: &WindowStateTracker,
    ) -> (r: Result<(), SessionError>)
        requires
            old(self).wf(),
        ensures
            final(self).wf(),
            r is Ok <==> old(self).spec_session(token@) is Some,
            r is Err ==> r == Err::<(), SessionError>(SessionError::UnknownSession) && *final(self)
                == *old(self),
            r is Ok ==> final(self).spec_session(token@) == Some(
                spec_configured(
                    old(self).spec_session(token@).unwrap(),
                    options@,
                    displays.spec_monitors(),
                    windows.spec_windows(),
                ),
            ),
            forall|t: Seq<char>|
                t != token@ ==> #[trigger] final(self).spec_session(t) == old(self).spec_session(
                    t,
                ),
    {
        let ghost old_entries = self.spec_entries();
        let idx = match self.find_index(token) {
            Some(i) => i,
            None => {
                return Err(SessionError::UnknownSession);
            },
        };
        let mut entry = self.sessions.remove(idx);
        let ghost s0 = entry.session@;
        if let Some(m) = options.multiple {
            entry.session.multiple = m;
        }
        if let Some(c) = options.cursor_mode {
            entry.session.cursor_mode = c;
        }
        if let Some(p) = options.persist_mode {
            entry.session.persist_mode = p;
        }
        if let Some(t) = options.types {
            entry.session.source_type = if t.is_empty() {
                SourceTypes::monitor_only()
            } else {
                t
            };
        }
        proof {
            assert(entry.session@ == spec_apply_options(s0, options@));
        }
        if entry.session.persist_mode != PersistMode::DoNot {
            if let Some(blob) = &options.restore_data {
                if blob.accepted() {
                    let resolved = restore_streams(&blob.entries, displays, windows);
                    if resolved.len() > 0 {
                        entry.session.streams = resolved;
                    }
                }
            }
        }
        proof {
            assert(entry.session@ == spec_configured(
                s0,
                options@,
                displays.spec_monitors(),
                windows.spec_windows(),
            ));
        }
        let ghost ev = EntryView { token: entry.token@, session: entry.session@ };
        self.sessions.insert(idx, entry);
        proof {
            assert(self.spec_entries() =~= old_entries.update(idx as int, ev));
            lemma_lookup_update(old_entries, idx as int, ev.session);
            lemma_wf_update(old_entries, idx as int, ev.session);
        }
        Ok(())
    }

    /// Phase one of start: decided under the table lock, before the picker
    /// hand-off.  A session with a non-empty pre-resolved stream list never
    /// needs the picker; a session that already has a live adapter is
    /// rejected.
    pub fn begin_start(&self, token: &String) -> (r: Result<StartPlan, SessionError>)
        ensures
            r is Ok <==> (self.spec_session(token@) matches Some(s) && s.adapter is None),
            r == Err::<StartPlan, SessionError>(SessionError::UnknownSession) <==> self.spec_session(
                token@,
            ) is None,
            r == Err::<StartPlan, SessionError>(SessionError::AlreadyStarted) <==> (
            self.spec_session(token@) matches Some(s) && s.adapter is Some),
            r matches Ok(plan) ==> {
                let s = self.spec_session(token@).unwrap();
                &&& plan.prompt_needed <==> s.streams.len() == 0
                &&& plan.multiple == s.multiple
                &&& plan.source_type == s.source_type
                &&& plan.persist_mode == s.persist_mode
            },
    {
        let idx = match self.find_index(token) {
            Some(i) => i,
            None => {
                return Err(SessionError::UnknownSession);
            },
        };
        let session = &self.sessions[idx].session;
        if session.gnome_session.is_some() {
            return Err(SessionError::AlreadyStarted);
        }
        Ok(
            StartPlan {
                prompt_needed: session.streams.len() == 0,
                multiple: session.multiple,
                source_type: session.source_type,
                persist_mode: session.persist_mode,
            },
        )
    }

    /// Phase three of start, after the lock is re-acquired: reads the
    /// session fresh (a configure that ran during the hand-off is visible
    /// here), treats a session removed by a racing close as an error, and
    /// keeps only the sources whose kind is still requested — restoration
    /// first, then the picker's answer.
    pub fn finish_start(&self, token: &String, prompted: &Vec<ScreencastStream>) -> (r: Result<
        StartContext,
        SessionError,
    >)
        ensures
            r is Ok <==> self.spec_session(token@) is Some,
            r is Err ==> r == Err::<StartContext, SessionError>(SessionError::UnknownSession),
            r matches Ok(ctx) ==> {
                let s = self.spec_session(token@).unwrap();
                &&& ctx.registrations@.map_values(|x: ScreencastStream| x@) =~= spec_filter_streams(
                    s.streams + prompted@.map_values(|x: ScreencastStream| x@),
                    s.source_type,
                )
                &&& ctx.cursor_mode == s.cursor_mode
                &&& ctx.persist_mode == s.persist_mode
            },
    {
        let idx = match self.find_index(token) {
            Some(i) => i,
            None => {
                return Err(SessionError::UnknownSession);
            },
        };
        let session = &self.sessions[idx].session;
        let ghost svs = session@.streams;
        let ghost pvs = prompted@.map_values(|x: ScreencastStream| x@);
        let mut registrations: Vec<ScreencastStream> = Vec::new();
        let t = session.source_type;
        filter_into(&session.streams, t, &mut registrations);
        proof {
            assert(registrations@.map_values(|x: ScreencastStream| x@) =~= spec_filter_streams(
                svs,
                t,
            ));
        }
        filter_into(prompted, t, &mut registrations);
        proof {
            lemma_filter_concat(svs, pvs, t);
        }
        Ok(
            StartContext {
                registrations,
                cursor_mode: session.cursor_mode,
                persist_mode: session.persist_mode,
            },
        )
    }

    /// Commits a started adapter to its session, promoting it to started.
    pub fn complete_start(&mut self, token: &String, adapter: GnomeSession) -> (r: Result<
        (),
        SessionError,
    >)
        requires
            old(self).wf(),
        ensures
            final(self).wf(),
            r is Ok <==> old(self).spec_session(token@) is Some,
            r is Err ==> r == Err::<(), SessionError>(SessionError::UnknownSession) && *final(self)
                == *old(self),
            r is Ok ==> final(self).spec_session(token@) == Some(
                SessionView {
                    adapter: Some(adapter.spec_streams()),
                    ..old(self).spec_session(token@).unwrap()
                },
            ),
            forall|t: Seq<char>|
                t != token@ ==> #[trigger] final(self).spec_session(t) == old(self).spec_session(
                    t,
                ),
    {
        let ghost old_entries = self.spec_entries();
        let idx = match self.find_index(token) {
            Some(i) => i,
            None => {
                return Err(SessionError::UnknownSession);
            },
        };
        let mut entry = self.sessions.remove(idx);
        entry.session.gnome_session = Some(adapter);
        let ghost ev = EntryView { token: entry.token@, session: entry.session@ };
        self.sessions.insert(idx, entry);
        proof {
            assert(self.spec_entries() =~= old_entries.update(idx as int, ev));
            lemma_lookup_update(old_entries, idx as int, ev.session);
            lemma_wf_update(old_entries, idx as int, ev.session);
        }
        Ok(())
    }

    /// Removes the session.  A live adapter is handed back so the caller
    /// can stop the compositor session; the entry is removed regardless of
    /// how that stop goes.  An unknown token is a protocol error and has no
    /// side effect.
    pub fn session_closed(&mut self, token: &String) -> (r: Result<
        Option<GnomeSession>,
        SessionError,
    >)
        requires
            old(self).wf(),
        ensures
            final(self).wf(),
            r is Ok <==> old(self).spec_session(token@) is Some,
            r is Err ==> r == Err::<Option<GnomeSession>, SessionError>(
                SessionError::UnknownSession,
            ) && *final(self) == *old(self),
            r matches Ok(opt) ==> {
                let s = old(self).spec_session(token@).unwrap();
                &&& final(self).spec_session(token@) is None
                &&& match opt {
                    Some(g) => s.adapter == Some(g.spec_streams()),
                    None => s.adapter is None,
                }
            },
            forall|t: Seq<char>|
                t != token@ ==> #[trigger] final(self).spec_session(t) == old(self).spec_session(
                    t,
                ),
    {
        let ghost old_entries = self.spec_entries();
        let idx = match self.find_index(token) {
            Some(i) => i,
            None => {
                return Err(SessionError::UnknownSession);
            },
        };
        let entry = self.sessions.remove(idx);
        proof {
            assert(self.spec_entries() =~= old_entries.remove(idx as int));
            lemma_lookup_remove(old_entries, idx as int);
            lemma_wf_remove(old_entries, idx as int);
        }
        Ok(entry.session.gnome_session)
    }
}

/// The start-cast reply: the streams that actually started, and a fresh
/// restore blob when the session asked for persistence.
pub struct StartCastResponse {
    pub streams: Vec<StartedStream>,
    pub restore_data: Option<RestoreBlob>,
}

/// Builds the reply from what the adapter actually managed to start — not
/// from what was requested.  The blob is attached exactly when persistence
/// was requested.
pub fn build_start_response(adapter: &GnomeSession, persist_mode: PersistMode) -> (r:
    StartCastResponse)
    ensures
        r.streams@ =~= spec_started_streams(adapter.spec_streams()),
        persist_mode == PersistMode::DoNot ==> r.restore_data is None,
        persist_mode != PersistMode::DoNot ==> (r.restore_data matches Some(b) && b@.spec_accepted()
            && b@.reserved_a == 0 && b@.reserved_b == 0 && b@.entries =~= spec_restore_entries(
            adapter.spec_streams(),
        )),
{
    let streams = adapter.started_streams();
    let restore_data = if !matches!(persist_mode, PersistMode::DoNot) {
        Some(adapter.encode_restore())
    } else {
        None
    };
    StartCastResponse { streams, restore_data }
}

/// Two configure calls whose option sets are disjoint compose to the union
/// of both effects: each field present in either call ends at that call's
/// value, and a field present in neither keeps the session's prior value.
pub proof fn lemma_configure_disjoint(
    s: SessionView,
    o1: OptionsView,
    o2: OptionsView,
    monitors: Seq<crate::display::Monitor>,
    windows: Seq<(u64, crate::window::Window)>,
)
    requires
        o1.restore_data is None,
        o2.restore_data is None,
        o1.multiple is Some ==> o2.multiple is None,
        o1.cursor_mode is Some ==> o2.cursor_mode is None,
        o1.persist_mode is Some ==> o2.persist_mode is None,
        o1.types is Some ==> o2.types is None,
    ensures
        spec_configured(spec_configured(s, o1, monitors, windows), o2, monitors, windows)
            == spec_disjoint_union(s, o1, o2),
{
}

/// The union of two disjoint option sets' effects on a session: each field
/// present in either set ends at that set's value, every other field keeps
/// the session's prior value.
pub open spec fn spec_disjoint_union(s: SessionView, o1: OptionsView, o2: OptionsView)
    -> SessionView {
    SessionView {
        multiple: match o1.multiple {
            Some(m) => m,
            None => match o2.multiple {
                Some(m) => m,
                None => s.multiple,
            },
        },
        cursor_mode: match o1.cursor_mode {
            Some(c) => c,
            None => match o2.cursor_mode {
                Some(c) => c,
                None => s.cursor_mode,
            },
        },
        persist_mode: match o1.persist_mode {
            Some(p) => p,
            None => match o2.persist_mode {
                Some(p) => p,
                None => s.persist_mode,
            },
        },
        source_type: match o1.types {
            Some(t) => if t.spec_is_empty() {
                SourceTypes::spec_monitor_only()
            } else {
                t
            },
            None => match o2.types {
                Some(t) => if t.spec_is_empty() {
                    SourceTypes::spec_monitor_only()
                } else {
                    t
                },
                None => s.source_type,
            },
        },
        ..s
    }
}

/// A configure whose restoration resolves to zero streams never erases a
/// previously resolved list: the last good list wins.
pub proof fn lemma_configure_keeps_streams(
    s: SessionView,
    o: OptionsView,
    monitors: Seq<crate::display::Monitor>,
    windows: Seq<(u64, crate::window::Window)>,
)
    requires
        spec_restored_streams(spec_apply_options(s, o), o, monitors, windows).len() == 0,
    ensures
        spec_configured(s, o, monitors, windows).streams == s.streams,
{
}

/// Appends the streams whose kind is in `t`, preserving order.
fn filter_into(streams: &Vec<ScreencastStream>, t: SourceTypes, out: &mut Vec<ScreencastStream>)
    ensures
        final(out)@.map_values(|x: ScreencastStream| x@) =~= old(out)@.map_values(
            |x: ScreencastStream| x@,
        ) + spec_filter_streams(streams@.map_values(|x: ScreencastStream| x@), t),
{
    let ghost base = out@.map_values(|x: ScreencastStream| x@);
    let ghost views = streams@.map_values(|x: ScreencastStream| x@);
    let n = streams.len();
    proof {
        assert(views.skip(0) =~= views);
    }
    for i in 0..n
        invariant
            n == streams.len(),
            views == streams@.map_values(|x: ScreencastStream| x@),
            base == old(out)@.map_values(|x: ScreencastStream| x@),
            base + spec_filter_streams(views, t) =~= out@.map_values(|x: ScreencastStream| x@)
                + spec_filter_streams(views.skip(i as int), t),
    {
        proof {
            assert(views.skip(i as int)[0] == views[i as int]);
            assert(views.skip(i as int).skip(1) =~= views.skip(i + 1));
        }
        let s = &streams[i];
        if t.contains(s.kind()) {
            out.push(s.duplicate());
            proof {
                let f = |x: ScreencastStream| x@;
                assert(out@.map_values(f) =~= out@.drop_last().map_values(f).push(out@.last()@));
            }
        }
    }
    proof {
        assert(views.skip(n as int) =~= Seq::<StreamView>::empty());
        assert(out@.map_values(|x: ScreencastStream| x@) + spec_filter_streams(
            Seq::<StreamView>::empty(),
            t,
        ) =~= out@.map_values(|x: ScreencastStream| x@));
    }
}

/// Filtering distributes over concatenation.
pub proof fn lemma_filter_concat(a: Seq<StreamView>, b: Seq<StreamView>, t: SourceTypes)
    ensures
        spec_filter_streams(a + b, t) =~= spec_filter_streams(a, t) + spec_filter_streams(b, t),
    decreases a.len(),
{
    if a.len() == 0 {
        assert(a + b =~= b);
        assert(spec_filter_streams(a, t) + spec_filter_streams(b, t) =~= spec_filter_streams(
            b,
            t,
        ));
    } else {
        assert((a + b)[0] == a[0]);
        assert((a + b).skip(1) =~= a.skip(1) + b);
        lemma_filter_concat(a.skip(1), b, t);
        if t.spec_contains(a[0].kind()) {
            assert(seq![a[0]] + (spec_filter_streams(a.skip(1), t) + spec_filter_streams(b, t))
                =~= (seq![a[0]] + spec_filter_streams(a.skip(1), t)) + spec_filter_streams(b, t));
        }
    }
}

/// Replacing the first entry registered under a token, by one under the
/// same token, changes that token's lookup to the new session and no other
/// token's lookup.
proof fn lemma_lookup_update_at(entries: Seq<EntryView>, i: int, e: EntryView, t: Seq<char>)
    requires
        0 <= i < entries.len(),
        e.token == entries[i].token,
        forall|j: int| 0 <= j < i ==> entries[j].token != entries[i].token,
    ensures
        spec_lookup(entries.update(i, e), t) == (if t == e.token {
            Some(e.session)
        } else {
            spec_lookup(entries, t)
        }),
    decreases i,
{
    let updated = entries.update(i, e);
    if i == 0 {
        assert(updated[0] == e);
        assert(updated.skip(1) =~= entries.skip(1));
    } else {
        assert(updated[0] == entries[0]);
        assert(updated.skip(1) =~= entries.skip(1).update(i - 1, e));
        assert(entries.skip(1)[i - 1] == entries[i]);
        assert(forall|j: int|
            0 <= j < i - 1 ==> #[trigger] entries.skip(1)[j].token == entries[j + 1].token);
        lemma_lookup_update_at(entries.skip(1), i - 1, e, t);
        assert(entries[0].token != entries[i].token);
    }
}

/// Wrapper over all probe tokens.
proof fn lemma_lookup_update(entries: Seq<EntryView>, i: int, v: SessionView)
    requires
        0 <= i < entries.len(),
        forall|j: int| 0 <= j < i ==> entries[j].token != entries[i].token,
    ensures
        spec_lookup(
            entries.update(i, EntryView { token: entries[i].token, session: v }),
            entries[i].token,
        ) == Some(v),
        forall|t: Seq<char>|
            t != entries[i].token ==> #[trigger] spec_lookup(
                entries.update(i, EntryView { token: entries[i].token, session: v }),
                t,
            ) == spec_lookup(entries, t),
{
    let e = EntryView { token: entries[i].token, session: v };
    lemma_lookup_update_at(entries, i, e, e.token);
    assert forall|t: Seq<char>| t != entries[i].token implies #[trigger] spec_lookup(
        entries.update(i, e),
        t,
    ) == spec_lookup(entries, t) by {
        lemma_lookup_update_at(entries, i, e, t);
    }
}

/// Appending an entry under a token no earlier entry carries makes that
/// token found and leaves every other token's lookup unchanged.
proof fn lemma_lookup_push_at(entries: Seq<EntryView>, e: EntryView, t: Seq<char>)
    requires
        forall|j: int| 0 <= j < entries.len() ==> entries[j].token != e.token,
    ensures
        spec_lookup(entries.push(e), t) == (if t == e.token {
            Some(e.session)
        } else {
            spec_lookup(entries, t)
        }),
    decreases entries.len(),
{
    let pushed = entries.push(e);
    if entries.len() == 0 {
        assert(pushed[0] == e);
        assert(pushed.skip(1) =~= Seq::<EntryView>::empty());
        assert(spec_lookup(Seq::<EntryView>::empty(), t) is None);
    } else {
        assert(pushed[0] == entries[0]);
        assert(pushed.skip(1) =~= entries.skip(1).push(e));
        assert(forall|j: int|
            0 <= j < entries.len() - 1 ==> #[trigger] entries.skip(1)[j].token == entries[j
                + 1].token);
        lemma_lookup_push_at(entries.skip(1), e, t);
    }
}

/// Wrapper over all probe tokens.
proof fn lemma_lookup_push(entries: Seq<EntryView>, e: EntryView)
    requires
        forall|j: int| 0 <= j < entries.len() ==> entries[j].token != e.token,
    ensures
        spec_lookup(entries.push(e), e.token) == Some(e.session),
        forall|t: Seq<char>|
            t != e.token ==> #[trigger] spec_lookup(entries.push(e), t) == spec_lookup(entries, t),
{
    lemma_lookup_push_at(entries, e, e.token);
    assert forall|t: Seq<char>| t != e.token implies #[trigger] spec_lookup(entries.push(e), t)
        == spec_lookup(entries, t) by {
        lemma_lookup_push_at(entries, e, t);
    }
}

/// Removing the only entry registered under a token makes that token
/// unknown and leaves every other token's lookup unchanged.
proof fn lemma_lookup_remove_at(entries: Seq<EntryView>, i: int, t: Seq<char>)
    requires
        0 <= i < entries.len(),
        forall|j: int| 0 <= j < entries.len() && j != i ==> entries[j].token != entries[i].token,
    ensures
        spec_lookup(entries.remove(i), t) == (if t == entries[i].token {
            None::<SessionView>
        } else {
            spec_lookup(entries, t)
        }),
    decreases entries.len(),
{
    let removed = entries.remove(i);
    if i == 0 {
        assert(removed =~= entries.skip(1));
        if t == entries[0].token {
            lemma_lookup_absent(entries.skip(1), entries[0].token);
        }
    } else {
        assert(removed[0] == entries[0]);
        assert(removed.skip(1) =~= entries.skip(1).remove(i - 1));
        assert(entries.skip(1)[i - 1] == entries[i]);
        assert(forall|j: int|
            0 <= j < entries.len() - 1 ==> #[trigger] entries.skip(1)[j].token == entries[j
                + 1].token);
        lemma_lookup_remove_at(entries.skip(1), i - 1, t);
        assert(entries[0].token != entries[i].token);
    }
}

/// Wrapper over all probe tokens.
proof fn lemma_lookup_remove(entries: Seq<EntryView>, i: int)
    requires
        0 <= i < entries.len(),
        forall|j: int| 0 <= j < entries.len() && j != i ==> entries[j].token != entries[i].token,
    ensures
        spec_lookup(entries.remove(i), entries[i].token) is None,
        forall|t: Seq<char>|
            t != entries[i].token ==> #[trigger] spec_lookup(entries.remove(i), t) == spec_lookup(
                entries,
                t,
            ),
{
    lemma_lookup_remove_at(entries, i, entries[i].token);
    assert forall|t: Seq<char>| t != entries[i].token implies #[trigger] spec_lookup(
        entries.remove(i),
        t,
    ) == spec_lookup(entries, t) by {
        lemma_lookup_remove_at(entries, i, t);
    }
}

/// A token no entry carries is never found.
proof fn lemma_lookup_absent(entries: Seq<EntryView>, token: Seq<char>)
    requires
        forall|j: int| 0 <= j < entries.len() ==> entries[j].token != token,
    ensures
        spec_lookup(entries, token) is None,
    decreases entries.len(),
{
    if entries.len() > 0 {
        lemma_lookup_absent(entries.skip(1), token);
    }
}

/// A token whose lookup finds nothing is carried by no entry.
proof fn lemma_lookup_none_absent(entries: Seq<EntryView>, token: Seq<char>)
    requires
        spec_lookup(entries, token) is None,
    ensures
        forall|j: int| 0 <= j < entries.len() ==> entries[j].token != token,
    decreases entries.len(),
{
    if entries.len() > 0 {
        lemma_lookup_none_absent(entries.skip(1), token);
        assert forall|j: int| 0 <= j < entries.len() implies entries[j].token != token by {
            if j > 0 {
                assert(entries.skip(1)[j - 1] == entries[j]);
            }
        }
    }
}

/// Token uniqueness is kept by an in-place session update.
proof fn lemma_wf_update(entries: Seq<EntryView>, i: int, v: SessionView)
    requires
        0 <= i < entries.len(),
        forall|a: int, b: int|
            0 <= a < b < entries.len() ==> #[trigger] entries[a].token != #[trigger] entries[b].token,
    ensures
        forall|a: int, b: int|
            0 <= a < b < entries.len() ==> #[trigger] entries.update(
                i,
                EntryView { token: entries[i].token, session: v },
            )[a].token != #[trigger] entries.update(
                i,
                EntryView { token: entries[i].token, session: v },
            )[b].token,
{
    let updated = entries.update(i, EntryView { token: entries[i].token, session: v });
    assert(forall|k: int| 0 <= k < entries.len() ==> #[trigger] updated[k].token == entries[k].token);
}

/// Token uniqueness is kept by appending a token not yet present.
proof fn lemma_wf_push(entries: Seq<EntryView>, e: EntryView)
    requires
        forall|j: int| 0 <= j < entries.len() ==> entries[j].token != e.token,
        forall|a: int, b: int|
            0 <= a < b < entries.len() ==> #[trigger] entries[a].token != #[trigger] entries[b].token,
    ensures
        forall|a: int, b: int|
            0 <= a < b < entries.push(e).len() ==> #[trigger] entries.push(e)[a].token
                != #[trigger] entries.push(e)[b].token,
{
}

/// Token uniqueness is kept by removing an entry.
proof fn lemma_wf_remove(entries: Seq<EntryView>, i: int)
    requires
        0 <= i < entries.len(),
        forall|a: int, b: int|
            0 <= a < b < entries.len() ==> #[trigger] entries[a].token != #[trigger] entries[b].token,
    ensures
        forall|a: int, b: int|
            0 <= a < b < entries.remove(i).len() ==> #[trigger] entries.remove(i)[a].token
                != #[trigger] entries.remove(i)[b].token,
{
    let removed = entries.remove(i);
    assert(forall|k: int|
        0 <= k < removed.len() ==> #[trigger] removed[k].token == (if k < i {
            entries[k].token
        } else {
            entries[k + 1].token
        }));
}

} // verus!

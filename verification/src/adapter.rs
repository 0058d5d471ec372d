//! Compositor-session adapter bookkeeping: the streams registered against
//! one compositor capture session, their transport handles, and what the
//! start response is built from.
//!
//! The bus calls that open the session, register each stream and start the
//! capture are driven by the surrounding binary; this model records, in
//! registration order, exactly what was registered and which streams have
//! received their transport-ready notification.

use vstd::prelude::*;

use crate::codec::{
    kind_code, restore_provider, spec_kind_code, spec_restore_provider, GnomeStreamRestoreData,
    RestoreBlob, RestoreDataView, RestoreEntry, RestoreEntryView, RestoreValue, RestoreValueView,
    SourceKind, RESTORE_DATA_VERSION,
};

verus! {

/// One stream registered against the compositor session.
pub struct GnomeStream {
    /// Caller-assigned stream id, distinguishing simultaneous sources.
    pub id: u32,
    /// Transport node id; absent until the compositor signals it.
    pub pipewire_node_id: Option<u32>,
    pub source_type: SourceKind,
    /// What to persist so the source can be re-identified later.
    pub restore_data: GnomeStreamRestoreData,
}

/// Spec-level image of `GnomeStream`.
pub ghost struct GnomeStreamView {
    pub id: u32,
    pub pipewire_node_id: Option<u32>,
    pub source_type: SourceKind,
    pub restore_data: RestoreDataView,
}

impl View for GnomeStream {
    type V = GnomeStreamView;

    open spec fn view(&self) -> GnomeStreamView {
        GnomeStreamView {
            id: self.id,
            pipewire_node_id: self.pipewire_node_id,
            source_type: self.source_type,
            restore_data: self.restore_data@,
        }
    }
}

/// One stream of the start response: its transport handle, the
/// caller-assigned id, and the kind of source it captures.
#[derive(Clone, Copy, Debug, PartialEq, Eq, Structural)]
pub struct StartedStream {
    pub node_id: u32,
    pub stream_id: u32,
    pub source_type: SourceKind,
}

/// The response streams: one per registered stream that has a transport
/// handle, in registration order.  A stream whose transport-ready
/// notification never arrived is omitted, not treated as fatal.
pub open spec fn spec_started_streams(streams: Seq<GnomeStreamView>) -> Seq<StartedStream>
    decreases streams.len(),
{
    if streams.len() == 0 {
        Seq::empty()
    } else {
        let rest = spec_started_streams(streams.skip(1));
        match streams[0].pipewire_node_id {
            Some(n) => seq![
                StartedStream {
                    node_id: n,
                    stream_id: streams[0].id,
                    source_type: streams[0].source_type,
                },
            ] + rest,
            None => rest,
        }
    }
}

/// The persisted entry one started stream is encoded as.
pub open spec fn spec_restore_entry_of(s: GnomeStreamView) -> RestoreEntryView {
    RestoreEntryView {
        stream_id: s.id,
        source_kind: spec_kind_code(s.source_type),
        data: match s.restore_data {
            RestoreDataView::Monitor { match_string } => RestoreValueView::Text(match_string),
            RestoreDataView::Window { app_id, title } => RestoreValueView::Pair(app_id, title),
        },
    }
}

/// The blob payload: one entry per stream that actually started, in
/// registration order — built from what the adapter managed to start, not
/// from what was requested.
pub open spec fn spec_restore_entries(streams: Seq<GnomeStreamView>) -> Seq<RestoreEntryView>
    decreases streams.len(),
{
    if streams.len() == 0 {
        Seq::empty()
    } else {
        let rest = spec_restore_entries(streams.skip(1));
        match streams[0].pipewire_node_id {
            Some(_) => seq![spec_restore_entry_of(streams[0])] + rest,
            None => rest,
        }
    }
}

/// The streams attached to one compositor capture session.
pub struct GnomeSession {
    streams: Vec<GnomeStream>,
}

impl GnomeSession {
    pub closed spec fn spec_streams(&self) -> Seq<GnomeStreamView> {
        self.streams@.map_values(|s: GnomeStream| s@)
    }

    /// A freshly opened compositor session owns no streams yet.
    pub fn new() -> (r: Self)
        ensures
            r.spec_streams() =~= Seq::<GnomeStreamView>::empty(),
    {
        GnomeSession { streams: Vec::new() }
    }

    pub fn streams(&self) -> (r: &Vec<GnomeStream>)
        ensures
            r@.map_values(|s: GnomeStream| s@) == self.spec_streams(),
    {
        &self.streams
    }

    /// Registers one monitor capture stream; its transport handle is not
    /// known yet.
    pub fn record_monitor(&mut self, id: u32, match_string: String)
        ensures
            final(self).spec_streams() =~= old(self).spec_streams().push(
                GnomeStreamView {
                    id,
                    pipewire_node_id: None,
                    source_type: SourceKind::Monitor,
                    restore_data: RestoreDataView::Monitor { match_string: match_string@ },
                },
            ),
    {
        self.streams.push(
            GnomeStream {
                id,
                pipewire_node_id: None,
                source_type: SourceKind::Monitor,
                restore_data: GnomeStreamRestoreData::Monitor { match_string },
            },
        );
        proof {
            let f = |s: GnomeStream| s@;
            assert(self.streams@.map_values(f) =~= self.streams@.drop_last().map_values(f).push(
                self.streams@.last()@,
            ));
        }
    }

    /// Registers one window capture stream; its transport handle is not
    /// known yet.
    pub fn record_window(&mut self, id: u32, app_id: String, title: String)
        ensures
            final(self).spec_streams() =~= old(self).spec_streams().push(
                GnomeStreamView {
                    id,
                    pipewire_node_id: None,
                    source_type: SourceKind::Window,
                    restore_data: RestoreDataView::Window { app_id: app_id@, title: title@ },
                },
            ),
    {
        self.streams.push(
            GnomeStream {
                id,
                pipewire_node_id: None,
                source_type: SourceKind::Window,
                restore_data: GnomeStreamRestoreData::Window { app_id, title },
            },
        );
        proof {
            let f = |s: GnomeStream| s@;
            assert(self.streams@.map_values(f) =~= self.streams@.drop_last().map_values(f).push(
                self.streams@.last()@,
            ));
        }
    }

    /// Records the transport node id the compositor assigned to the stream
    /// at `index`, once its transport-ready notification has arrived.
    pub fn set_node_id(&mut self, index: usize, node_id: u32)
        requires
            index < old(self).spec_streams().len(),
        ensures
            final(self).spec_streams() =~= old(self).spec_streams().update(
                index as int,
                GnomeStreamView {
                    pipewire_node_id: Some(node_id),
                    ..old(self).spec_streams()[index as int]
                },
            ),
    {
        let s = &self.streams[index];
        let restore_data = match &s.restore_data {
            GnomeStreamRestoreData::Monitor { match_string } => GnomeStreamRestoreData::Monitor {
                match_string: match_string.clone(),
            },
            GnomeStreamRestoreData::Window { app_id, title } => GnomeStreamRestoreData::Window {
                app_id: app_id.clone(),
                title: title.clone(),
            },
        };
        let updated = GnomeStream {
            id: s.id,
            pipewire_node_id: Some(node_id),
            source_type: s.source_type,
            restore_data,
        };
        self.streams.set(index, updated);
        proof {
            let f = |s: GnomeStream| s@;
            assert(self.streams@.map_values(f) =~= old(self).streams@.map_values(f).update(
                index as int,
                self.streams@[index as int]@,
            ));
        }
    }

    /// The start response's stream list: exactly the registered streams
    /// whose transport handle arrived, in registration order.
    pub fn started_streams(&self) -> (r: Vec<StartedStream>)
        ensures
            r@ =~= spec_started_streams(self.spec_streams()),
    {
        let ghost views = self.spec_streams();
        let mut r: Vec<StartedStream> = Vec::new();
        let n = self.streams.len();
        proof {
            assert(views.skip(0) =~= views);
        }
        for i in 0..n
            invariant
                n == self.streams.len(),
                views == self.spec_streams(),
                spec_started_streams(views) =~= r@ + spec_started_streams(
                    views.skip(i as int),
                ),
        {
            proof {
                assert(views.skip(i as int)[0] == views[i as int]);
                assert(views.skip(i as int).skip(1) =~= views.skip(i + 1));
            }
            let s = &self.streams[i];
            if let Some(n_id) = s.pipewire_node_id {
                r.push(
                    StartedStream { node_id: n_id, stream_id: s.id, source_type: s.source_type },
                );
            }
        }
        proof {
            assert(views.skip(n as int) =~= Seq::<GnomeStreamView>::empty());
        }
        r
    }

    /// Encodes the streams that actually started into a fresh restore
    /// blob, provider-tagged and versioned, reserved fields zero.
    pub fn encode_restore(&self) -> (r: RestoreBlob)
        ensures
            r.spec_accepted(),
            r.provider@ == spec_restore_provider(),
            r.version == RESTORE_DATA_VERSION,
            r.reserved_a == 0 && r.reserved_b == 0,
            r.entries@.map_values(|e: RestoreEntry| e@) =~= spec_restore_entries(
                self.spec_streams(),
            ),
    {
        let ghost views = self.spec_streams();
        let mut entries: Vec<RestoreEntry> = Vec::new();
        let n = self.streams.len();
        proof {
            assert(views.skip(0) =~= views);
        }
        for i in 0..n
            invariant
                n == self.streams.len(),
                views == self.spec_streams(),
                spec_restore_entries(views) =~= entries@.map_values(|e: RestoreEntry| e@)
                    + spec_restore_entries(views.skip(i as int)),
        {
            proof {
                assert(views.skip(i as int)[0] == views[i as int]);
                assert(views.skip(i as int).skip(1) =~= views.skip(i + 1));
            }
            let s = &self.streams[i];
            if s.pipewire_node_id.is_some() {
                let data = match &s.restore_data {
                    GnomeStreamRestoreData::Monitor { match_string } => RestoreValue::Text(
                        match_string.clone(),
                    ),
                    GnomeStreamRestoreData::Window { app_id, title } => RestoreValue::Pair(
                        app_id.clone(),
                        title.clone(),
                    ),
                };
                entries.push(
                    RestoreEntry { stream_id: s.id, source_kind: kind_code(s.source_type), data },
                );
                proof {
                    let f = |e: RestoreEntry| e@;
                    assert(entries@.map_values(f) =~= entries@.drop_last().map_values(f).push(
                        entries@.last()@,
                    ));
                }
            }
        }
        proof {
            assert(views.skip(n as int) =~= Seq::<GnomeStreamView>::empty());
        }
        RestoreBlob {
            provider: restore_provider(),
            version: RESTORE_DATA_VERSION,
            reserved_a: 0,
            reserved_b: 0,
            entries,
        }
    }
}

/// Round trip of a persisted monitor selection: the restore entry encoded
/// for a started monitor stream, resolved against an unchanged cache in
/// which that monitor is the first to carry its match string, yields that
/// same monitor — its current connector and its match string.
pub proof fn lemma_monitor_round_trip(
    s: GnomeStreamView,
    monitors: Seq<crate::display::Monitor>,
    windows: Seq<(u64, crate::window::Window)>,
    i: int,
)
    requires
        s.source_type == SourceKind::Monitor,
        s.restore_data == (RestoreDataView::Monitor {
            match_string: monitors[i].spec_match_string(),
        }),
        0 <= i < monitors.len(),
        forall|j: int|
            0 <= j < i ==> #[trigger] monitors[j].spec_match_string()
                != monitors[i].spec_match_string(),
    ensures
        crate::codec::spec_resolve_entry(spec_restore_entry_of(s), monitors, windows) == Some(
            crate::codec::StreamView::Monitor {
                id: s.id,
                connector: monitors[i].connector@,
                match_string: monitors[i].spec_match_string(),
            },
        ),
{
    crate::display::lemma_find_monitor_first(monitors, i);
}

} // verus!

//! On-screen window cache, keyed by an opaque window id.

use vstd::prelude::*;

verus! {

/// One on-screen window.  The id it is cached under is valid only for the
/// lifetime of the desktop session that produced it and is never persisted;
/// identity for persistence purposes is the pair (app id, title).
#[derive(Clone)]
pub struct Window {
    pub app_id: String,
    pub title: String,
}

/// Raw per-window data of one window-list snapshot, already unpacked from
/// the bus reply into plain values.  Either property may be missing from
/// the reply's property bag.
pub struct WindowSnapshot {
    pub id: u64,
    pub app_id: Option<String>,
    pub title: Option<String>,
}

/// Why a window-list snapshot was rejected.
#[derive(Clone, Copy, Debug, PartialEq, Eq, Structural)]
pub enum WindowRefreshError {
    MissingAppId,
    MissingTitle,
}

/// A snapshot is complete when every entry carries both properties.
pub open spec fn spec_snapshot_complete(snap: Seq<WindowSnapshot>) -> bool {
    forall|i: int|
        0 <= i < snap.len() ==> #[trigger] snap[i].app_id is Some && snap[i].title is Some
}

/// The cache entry a complete snapshot entry yields.
pub open spec fn spec_window_of(s: WindowSnapshot) -> (u64, Window)
    recommends
        s.app_id is Some,
        s.title is Some,
{
    (s.id, Window { app_id: s.app_id.unwrap(), title: s.title.unwrap() })
}

/// First cached window whose (app id, title) pair equals the key exactly.
pub open spec fn spec_find_window(
    windows: Seq<(u64, Window)>,
    app_id: Seq<char>,
    title: Seq<char>,
) -> Option<u64>
    decreases windows.len(),
{
    if windows.len() == 0 {
        None
    } else if windows[0].1.app_id@ == app_id && windows[0].1.title@ == title {
        Some(windows[0].0)
    } else {
        spec_find_window(windows.skip(1), app_id, title)
    }
}

/// First cached window under `id`.
pub open spec fn spec_find_by_id(windows: Seq<(u64, Window)>, id: u64) -> Option<Window>
    decreases windows.len(),
{
    if windows.len() == 0 {
        None
    } else if windows[0].0 == id {
        Some(windows[0].1)
    } else {
        spec_find_by_id(windows.skip(1), id)
    }
}

/// Cache of the on-screen windows, replaced wholesale on every refresh.
pub struct WindowStateTracker {
    windows: Vec<(u64, Window)>,
}

impl WindowStateTracker {
    pub closed spec fn spec_windows(&self) -> Seq<(u64, Window)> {
        self.windows@
    }

    /// Starts empty; the surrounding binary fills it from the first
    /// window-list snapshot before handing it to anyone.
    pub fn new() -> (r: Self)
        ensures
            r.spec_windows() == Seq::<(u64, Window)>::empty(),
    {
        WindowStateTracker { windows: Vec::new() }
    }

    pub fn windows(&self) -> (r: &Vec<(u64, Window)>)
        ensures
            r@ == self.spec_windows(),
    {
        &self.windows
    }

    /// Replaces the whole cache atomically from one snapshot.  An entry
    /// with a missing property fails the refresh as a whole, and the
    /// previous contents stay intact; partial updates are never merged.
    pub fn refresh_from(&mut self, snapshot: &Vec<WindowSnapshot>) -> (r: Result<
        (),
        WindowRefreshError,
    >)
        ensures
            r is Ok <==> spec_snapshot_complete(snapshot@),
            r is Ok ==> final(self).spec_windows() =~= snapshot@.map_values(
                |s: WindowSnapshot| spec_window_of(s),
            ),
            r is Err ==> *final(self) == *old(self),
            r == Ok::<(), WindowRefreshError>(()) || (r is Err && exists|i: int|
                0 <= i < snapshot@.len() && (#[trigger] snapshot@[i].app_id is None
                    || snapshot@[i].title is None)),
    {
        let ghost snap = snapshot@;
        let mut windows: Vec<(u64, Window)> = Vec::new();
        let n = snapshot.len();
        for i in 0..n
            invariant
                n == snap.len(),
                snapshot@ == snap,
                forall|k: int|
                    0 <= k < i ==> #[trigger] snap[k].app_id is Some && snap[k].title is Some,
                windows@ =~= snap.take(i as int).map_values(|s: WindowSnapshot| spec_window_of(s)),
        {
            let s = &snapshot[i];
            let app_id = match &s.app_id {
                Some(a) => a.clone(),
                None => {
                    return Err(WindowRefreshError::MissingAppId);
                },
            };
            let title = match &s.title {
                Some(t) => t.clone(),
                None => {
                    return Err(WindowRefreshError::MissingTitle);
                },
            };
            windows.push((s.id, Window { app_id, title }));
            proof {
                let f = |s: WindowSnapshot| spec_window_of(s);
                assert(snap.take(i + 1).map_values(f) =~= snap.take(i as int).map_values(f).push(
                    f(snap[i as int]),
                ));
            }
        }
        proof {
            assert(snap.take(n as int) =~= snap);
        }
        self.windows = windows;
        Ok(())
    }

    /// Linear scan for the window cached under `id`.
    pub fn find_by_id(&self, id: u64) -> (r: Option<&Window>)
        ensures
            match r {
                Some(w) => spec_find_by_id(self.spec_windows(), id) == Some(*w),
                None => spec_find_by_id(self.spec_windows(), id) is None,
            },
    {
        let n = self.windows.len();
        proof {
            assert(self.spec_windows().skip(0) =~= self.spec_windows());
        }
        for i in 0..n
            invariant
                n == self.windows.len(),
                spec_find_by_id(self.spec_windows(), id) == spec_find_by_id(
                    self.spec_windows().skip(i as int),
                    id,
                ),
        {
            proof {
                assert(self.spec_windows().skip(i as int)[0] == self.spec_windows()[i as int]);
                assert(self.spec_windows().skip(i as int).skip(1) =~= self.spec_windows().skip(
                    i + 1,
                ));
            }
            if self.windows[i].0 == id {
                return Some(&self.windows[i].1);
            }
        }
        proof {
            assert(self.spec_windows().skip(n as int) =~= Seq::<(u64, Window)>::empty());
        }
        None
    }

    /// Linear scan for the first window matching both app id and title
    /// exactly; no fuzzy title matching is attempted.
    pub fn find_window(&self, app_id: &str, title: &str) -> (r: Option<u64>)
        ensures
            r == spec_find_window(self.spec_windows(), app_id@, title@),
    {
        let want_app: String = app_id.to_owned();
        let want_title: String = title.to_owned();
        let n = self.windows.len();
        proof {
            assert(self.spec_windows().skip(0) =~= self.spec_windows());
        }
        for i in 0..n
            invariant
                n == self.windows.len(),
                want_app@ == app_id@,
                want_title@ == title@,
                spec_find_window(self.spec_windows(), app_id@, title@) == spec_find_window(
                    self.spec_windows().skip(i as int),
                    app_id@,
                    title@,
                ),
        {
            proof {
                lemma_find_window_step(self.spec_windows(), app_id@, title@, i as int);
            }
            let w = &self.windows[i].1;
            if w.app_id == want_app && w.title == want_title {
                return Some(self.windows[i].0);
            }
        }
        proof {
            assert(self.spec_windows().skip(n as int) =~= Seq::<(u64, Window)>::empty());
        }
        None
    }
}

/// Unfolds the linear search by one position.
proof fn lemma_find_window_step(
    windows: Seq<(u64, Window)>,
    app_id: Seq<char>,
    title: Seq<char>,
    i: int,
)
    requires
        0 <= i < windows.len(),
    ensures
        spec_find_window(windows.skip(i), app_id, title) == (if windows[i].1.app_id@ == app_id
            && windows[i].1.title@ == title {
            Some(windows[i].0)
        } else {
            spec_find_window(windows.skip(i + 1), app_id, title)
        }),
{
    assert(windows.skip(i)[0] == windows[i]);
    assert(windows.skip(i).skip(1) =~= windows.skip(i + 1));
}

} // verus!

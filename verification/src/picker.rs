//! Selection model behind the human picker: which kinds are shown, which
//! sources are ticked, and how a finished selection becomes stream
//! choices.  The widgets around it live in the surrounding binary; every
//! decision they delegate to is here.

use vstd::prelude::*;

use crate::codec::{ScreencastStream, SourceKind, StreamView};
use crate::display::{spec_find_by_connector, DisplayStateTracker};
use crate::window::{spec_find_by_id, WindowStateTracker};

verus! {

/// Whether `x` occurs in `s`.
pub open spec fn spec_has<T>(s: Seq<T>, x: T) -> bool {
    exists|i: int| 0 <= i < s.len() && s[i] == x
}

/// `s` with its first occurrence of `x` removed, if any.
pub open spec fn spec_remove_one<T>(s: Seq<T>, x: T) -> Seq<T>
    decreases s.len(),
{
    if s.len() == 0 {
        Seq::empty()
    } else if s[0] == x {
        s.skip(1)
    } else {
        seq![s[0]] + spec_remove_one(s.skip(1), x)
    }
}

/// The picker's mutable state: per-kind include filters, the ticked
/// sources, and whether the choice should be remembered.
pub struct State {
    pub include_monitor: bool,
    pub include_window: bool,
    pub include_virtual: bool,
    /// Connectors of the ticked monitors, in tick order, without repeats.
    pub selected_monitors: Vec<String>,
    /// Ids of the ticked windows, in tick order, without repeats.
    pub selected_windows: Vec<u64>,
    pub remember_choice: bool,
}

impl Default for State {
    /// Every kind shown, nothing ticked, remembering on.
    fn default() -> (r: Self)
        ensures
            r.include_monitor && r.include_window && r.include_virtual,
            r.remember_choice,
            r.spec_monitors() =~= Seq::<Seq<char>>::empty(),
            r.selected_windows@ =~= Seq::<u64>::empty(),
            r.wf(),
    {
        State {
            include_monitor: true,
            include_window: true,
            include_virtual: true,
            selected_monitors: Vec::new(),
            selected_windows: Vec::new(),
            remember_choice: true,
        }
    }
}

impl State {
    pub open spec fn spec_monitors(&self) -> Seq<Seq<char>> {
        self.selected_monitors@.map_values(|s: String| s@)
    }

    /// No source is ticked twice.
    pub open spec fn wf(&self) -> bool {
        &&& forall|i: int, j: int|
            0 <= i < j < self.spec_monitors().len() ==> #[trigger] self.spec_monitors()[i]
                != #[trigger] self.spec_monitors()[j]
        &&& forall|i: int, j: int|
            0 <= i < j < self.selected_windows@.len() ==> #[trigger] self.selected_windows@[i]
                != #[trigger] self.selected_windows@[j]
    }

    /// How many sources are ticked in all.
    pub fn selected_count(&self) -> (r: usize)
        requires
            self.spec_monitors().len() + self.selected_windows@.len() <= usize::MAX,
        ensures
            r == self.spec_monitors().len() + self.selected_windows@.len(),
    {
        self.selected_monitors.len() + self.selected_windows.len()
    }

    /// Ticks or unticks a monitor.  Ticking is ignored when a source is
    /// already ticked and the session does not allow multiple sources;
    /// unticking always removes.
    pub fn toggle_monitor(&mut self, connector: &String, checked: bool, multiple: bool)
        requires
            old(self).wf(),
            old(self).spec_monitors().len() + old(self).selected_windows@.len() < usize::MAX,
        ensures
            final(self).wf(),
            final(self).selected_windows@ == old(self).selected_windows@,
            final(self).include_monitor == old(self).include_monitor,
            final(self).include_window == old(self).include_window,
            final(self).include_virtual == old(self).include_virtual,
            final(self).remember_choice == old(self).remember_choice,
            checked && (multiple || old(self).spec_monitors().len() + old(
                self,
            ).selected_windows@.len() == 0) ==> final(self).spec_monitors() =~= (if spec_has(
                old(self).spec_monitors(),
                connector@,
            ) {
                old(self).spec_monitors()
            } else {
                old(self).spec_monitors().push(connector@)
            }),
            checked && !(multiple || old(self).spec_monitors().len() + old(
                self,
            ).selected_windows@.len() == 0) ==> final(self).spec_monitors() == old(
                self,
            ).spec_monitors(),
            !checked ==> final(self).spec_monitors() =~= spec_remove_one(
                old(self).spec_monitors(),
                connector@,
            ),
    {
        let idx = index_of_string(&self.selected_monitors, connector);
        proof {
            assert(forall|j: int|
                0 <= j < self.selected_monitors@.len() ==> #[trigger] self.spec_monitors()[j]
                    == self.selected_monitors@[j]@);
            match idx {
                Some(i) => {
                    assert(old(self).spec_monitors()[i as int] == connector@);
                    assert(spec_has(old(self).spec_monitors(), connector@));
                },
                None => {
                    assert(forall|j: int|
                        0 <= j < old(self).spec_monitors().len() ==> #[trigger] old(
                            self,
                        ).spec_monitors()[j] != connector@);
                },
            }
        }
        if checked {
            if multiple || self.selected_count() < 1 {
                if idx.is_none() {
                    self.selected_monitors.push(connector.clone());
                    proof {
                        let f = |s: String| s@;
                        assert(self.selected_monitors@.map_values(f)
                            =~= self.selected_monitors@.drop_last().map_values(f).push(
                            self.selected_monitors@.last()@,
                        ));
                        let ghost oldm = old(self).spec_monitors();
                        assert(forall|k: int|
                            0 <= k < oldm.len() ==> #[trigger] self.spec_monitors()[k] == oldm[k]);
                        assert(self.spec_monitors()[oldm.len() as int] == connector@);
                    }
                }
            }
        } else {
            if let Some(i) = idx {
                let _ = self.selected_monitors.remove(i);
                proof {
                    let f = |s: String| s@;
                    assert(self.selected_monitors@.map_values(f) =~= old(
                        self,
                    ).selected_monitors@.map_values(f).remove(i as int));
                    lemma_remove_one_at(old(self).spec_monitors(), connector@, i as int);
                    let ghost oldm = old(self).spec_monitors();
                    assert(forall|k: int|
                        0 <= k < self.spec_monitors().len() ==> #[trigger] self.spec_monitors()[k]
                            == (if k < i as int {
                            oldm[k]
                        } else {
                            oldm[k + 1]
                        }));
                }
            } else {
                proof {
                    lemma_remove_one_absent(self.spec_monitors(), connector@);
                }
            }
        }
    }

    /// Ticks or unticks a window, under the same rules as monitors.
    pub fn toggle_window(&mut self, window_id: u64, checked: bool, multiple: bool)
        requires
            old(self).wf(),
            old(self).spec_monitors().len() + old(self).selected_windows@.len() < usize::MAX,
        ensures
            final(self).wf(),
            final(self).spec_monitors() == old(self).spec_monitors(),
            final(self).include_monitor == old(self).include_monitor,
            final(self).include_window == old(self).include_window,
            final(self).include_virtual == old(self).include_virtual,
            final(self).remember_choice == old(self).remember_choice,
            checked && (multiple || old(self).spec_monitors().len() + old(
                self,
            ).selected_windows@.len() == 0) ==> final(self).selected_windows@ =~= (if spec_has(
                old(self).selected_windows@,
                window_id,
            ) {
                old(self).selected_windows@
            } else {
                old(self).selected_windows@.push(window_id)
            }),
            checked && !(multiple || old(self).spec_monitors().len() + old(
                self,
            ).selected_windows@.len() == 0) ==> final(self).selected_windows@ == old(
                self,
            ).selected_windows@,
            !checked ==> final(self).selected_windows@ =~= spec_remove_one(
                old(self).selected_windows@,
                window_id,
            ),
    {
        let idx = index_of_id(&self.selected_windows, window_id);
        proof {
            if let Some(i) = idx {
                assert(old(self).selected_windows@[i as int] == window_id);
                assert(spec_has(old(self).selected_windows@, window_id));
            }
        }
        if checked {
            if multiple || self.selected_count() < 1 {
                if idx.is_none() {
                    self.selected_windows.push(window_id);
                }
            }
        } else {
            if let Some(i) = idx {
                let _ = self.selected_windows.remove(i);
                proof {
                    lemma_remove_one_at(old(self).selected_windows@, window_id, i as int);
                    let ghost oldw = old(self).selected_windows@;
                    assert(forall|k: int|
                        0 <= k < self.selected_windows@.len() ==> #[trigger] self.selected_windows@[k]
                            == (if k < i as int {
                            oldw[k]
                        } else {
                            oldw[k + 1]
                        }));
                }
            } else {
                proof {
                    lemma_remove_one_absent(self.selected_windows@, window_id);
                }
            }
        }
    }

    /// Shows or hides one kind of source.
    pub fn set_include(&mut self, kind: SourceKind, on: bool)
        ensures
            final(self).include_monitor == (if kind == SourceKind::Monitor {
                on
            } else {
                old(self).include_monitor
            }),
            final(self).include_window == (if kind == SourceKind::Window {
                on
            } else {
                old(self).include_window
            }),
            final(self).include_virtual == (if kind == SourceKind::Virtual {
                on
            } else {
                old(self).include_virtual
            }),
            final(self).selected_monitors@ == old(self).selected_monitors@,
            final(self).selected_windows@ == old(self).selected_windows@,
            final(self).remember_choice == old(self).remember_choice,
    {
        match kind {
            SourceKind::Monitor => self.include_monitor = on,
            SourceKind::Window => self.include_window = on,
            SourceKind::Virtual => self.include_virtual = on,
        }
    }

    /// Sets whether the finished choice should be persisted.
    pub fn set_remember(&mut self, on: bool)
        ensures
            *final(self) == (State { remember_choice: on, ..*old(self) }),
    {
        self.remember_choice = on;
    }

    /// Turns the ticked sources into stream choices: the ticked monitors
    /// first, then the ticked windows, stream ids assigned by position.
    /// Every ticked source must still be in its cache.
    pub fn build_choices(
        &self,
        displays: &DisplayStateTracker,
        windows: &WindowStateTracker,
    ) -> (r: Vec<ScreencastStream>)
        requires
            forall|i: int|
                0 <= i < self.spec_monitors().len() ==> spec_find_by_connector(
                    displays.spec_monitors(),
                    #[trigger] self.spec_monitors()[i],
                ) is Some,
            forall|i: int|
                0 <= i < self.selected_windows@.len() ==> spec_find_by_id(
                    windows.spec_windows(),
                    #[trigger] self.selected_windows@[i],
                ) is Some,
            self.spec_monitors().len() + self.selected_windows@.len() <= u32::MAX,
        ensures
            r@.len() == self.spec_monitors().len() + self.selected_windows@.len(),
            forall|k: int|
                0 <= k < self.spec_monitors().len() ==> #[trigger] r@[k]@ == (StreamView::Monitor {
                    id: k as u32,
                    connector: spec_find_by_connector(
                        displays.spec_monitors(),
                        self.spec_monitors()[k],
                    ).unwrap().connector@,
                    match_string: spec_find_by_connector(
                        displays.spec_monitors(),
                        self.spec_monitors()[k],
                    ).unwrap().spec_match_string(),
                }),
            forall|k: int|
                self.spec_monitors().len() <= k < r@.len() ==> #[trigger] r@[k]@ == (
                StreamView::Window {
                    id: k as u32,
                    window_id: self.selected_windows@[k - self.spec_monitors().len()],
                    app_id: spec_find_by_id(
                        windows.spec_windows(),
                        self.selected_windows@[k - self.spec_monitors().len()],
                    ).unwrap().app_id@,
                    title: spec_find_by_id(
                        windows.spec_windows(),
                        self.selected_windows@[k - self.spec_monitors().len()],
                    ).unwrap().title@,
                }),
    {
        let mut r: Vec<ScreencastStream> = Vec::new();
        let nm = self.selected_monitors.len();
        for i in 0..nm
            invariant
                nm == self.selected_monitors.len(),
                r@.len() == i,
                forall|j: int|
                    0 <= j < self.spec_monitors().len() ==> spec_find_by_connector(
                        displays.spec_monitors(),
                        #[trigger] self.spec_monitors()[j],
                    ) is Some,
                nm + self.selected_windows@.len() <= u32::MAX,
                forall|k: int|
                    0 <= k < i ==> #[trigger] r@[k]@ == (StreamView::Monitor {
                        id: k as u32,
                        connector: spec_find_by_connector(
                            displays.spec_monitors(),
                            self.spec_monitors()[k],
                        ).unwrap().connector@,
                        match_string: spec_find_by_connector(
                            displays.spec_monitors(),
                            self.spec_monitors()[k],
                        ).unwrap().spec_match_string(),
                    }),
        {
            let connector = &self.selected_monitors[i];
            proof {
                assert(self.spec_monitors()[i as int] == connector@);
            }
            let m = displays.find_by_connector(connector).unwrap();
            r.push(
                ScreencastStream::Monitor {
                    id: i as u32,
                    connector: m.connector(),
                    match_string: m.match_string(),
                },
            );
        }
        let nw = self.selected_windows.len();
        for i in 0..nw
            invariant
                nm == self.selected_monitors.len(),
                nw == self.selected_windows.len(),
                r@.len() == nm + i,
                forall|j: int|
                    0 <= j < self.selected_windows@.len() ==> spec_find_by_id(
                        windows.spec_windows(),
                        #[trigger] self.selected_windows@[j],
                    ) is Some,
                nm + nw <= u32::MAX,
                forall|k: int|
                    0 <= k < nm ==> #[trigger] r@[k]@ == (StreamView::Monitor {
                        id: k as u32,
                        connector: spec_find_by_connector(
                            displays.spec_monitors(),
                            self.spec_monitors()[k],
                        ).unwrap().connector@,
                        match_string: spec_find_by_connector(
                            displays.spec_monitors(),
                            self.spec_monitors()[k],
                        ).unwrap().spec_match_string(),
                    }),
                forall|k: int|
                    nm <= k < nm + i ==> #[trigger] r@[k]@ == (StreamView::Window {
                        id: k as u32,
                        window_id: self.selected_windows@[k - nm],
                        app_id: spec_find_by_id(
                            windows.spec_windows(),
                            self.selected_windows@[k - nm],
                        ).unwrap().app_id@,
                        title: spec_find_by_id(
                            windows.spec_windows(),
                            self.selected_windows@[k - nm],
                        ).unwrap().title@,
                    }),
        {
            let wid = self.selected_windows[i];
            let w = windows.find_by_id(wid).unwrap();
            r.push(
                ScreencastStream::Window {
                    id: (nm + i) as u32,
                    window_id: wid,
                    app_id: w.app_id.clone(),
                    title: w.title.clone(),
                },
            );
        }
        r
    }
}

/// First position of `x` in `v`, scanning by string content.
fn index_of_string(v: &Vec<String>, x: &String) -> (r: Option<usize>)
    ensures
        match r {
            Some(i) => i < v@.len() && v@[i as int]@ == x@ && (forall|j: int|
                0 <= j < i ==> v@[j]@ != x@),
            None => forall|j: int| 0 <= j < v@.len() ==> v@[j]@ != x@,
        },
{
    let n = v.len();
    for i in 0..n
        invariant
            n == v@.len(),
            forall|j: int| 0 <= j < i ==> v@[j]@ != x@,
    {
        if v[i] == *x {
            return Some(i);
        }
    }
    None
}

/// First position of `x` in `v`.
fn index_of_id(v: &Vec<u64>, x: u64) -> (r: Option<usize>)
    ensures
        match r {
            Some(i) => i < v@.len() && v@[i as int] == x && (forall|j: int|
                0 <= j < i ==> v@[j] != x),
            None => forall|j: int| 0 <= j < v@.len() ==> v@[j] != x,
        },
{
    let n = v.len();
    for i in 0..n
        invariant
            n == v@.len(),
            forall|j: int| 0 <= j < i ==> v@[j] != x,
    {
        if v[i] == x {
            return Some(i);
        }
    }
    None
}

/// Removing the first occurrence of `x`, found at position `i`, is the
/// same as removing position `i`.
proof fn lemma_remove_one_at<T>(s: Seq<T>, x: T, i: int)
    requires
        0 <= i < s.len(),
        s[i] == x,
        forall|j: int| 0 <= j < i ==> s[j] != x,
    ensures
        spec_remove_one(s, x) =~= s.remove(i),
    decreases i,
{
    if i == 0 {
        assert(s.remove(0) =~= s.skip(1));
    } else {
        assert(s.skip(1)[i - 1] == s[i]);
        assert(forall|j: int| 0 <= j < i - 1 ==> #[trigger] s.skip(1)[j] == s[j + 1]);
        lemma_remove_one_at(s.skip(1), x, i - 1);
        assert(seq![s[0]] + s.skip(1).remove(i - 1) =~= s.remove(i));
    }
}

/// Removing an absent value changes nothing.
proof fn lemma_remove_one_absent<T>(s: Seq<T>, x: T)
    requires
        forall|j: int| 0 <= j < s.len() ==> s[j] != x,
    ensures
        spec_remove_one(s, x) =~= s,
    decreases s.len(),
{
    if s.len() > 0 {
        assert(forall|j: int| 0 <= j < s.len() - 1 ==> #[trigger] s.skip(1)[j] == s[j + 1]);
        lemma_remove_one_absent(s.skip(1), x);
        assert(seq![s[0]] + s.skip(1) =~= s);
    }
}

} // verus!

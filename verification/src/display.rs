//! Monitor metadata cache and the durable monitor identity key.

use vstd::prelude::*;
use vstd::string::StringExecFns;

verus! {

/// One physical monitor record.  All identity fields are captured together
/// during a single cache refresh, never read piecemeal across refreshes.
#[derive(Clone)]
pub struct Monitor {
    /// Connector id: stable per cable/port, but may change across reconnects.
    pub connector: String,
    pub vendor: String,
    pub product: String,
    pub serial: String,
    /// Human-readable display name, when the compositor reports one.
    pub display_name: Option<String>,
    pub builtin: bool,
    /// Current (width, height), when some mode is marked current.
    pub size: Option<(i32, i32)>,
}

impl Monitor {
    /// Whether vendor, product and serial are all the literal "unknown"
    /// (e.g. virtual outputs), in which case they identify nothing.
    pub open spec fn identity_unknown(&self) -> bool {
        self.vendor@ == "unknown"@ && self.product@ == "unknown"@ && self.serial@ == "unknown"@
    }

    /// The durable cross-session identity key: `vendor:product:serial` when
    /// those are known, else the connector id.
    pub open spec fn spec_match_string(&self) -> Seq<char> {
        if self.identity_unknown() {
            self.connector@
        } else {
            self.vendor@ + ":"@ + self.product@ + ":"@ + self.serial@
        }
    }

    pub fn match_string(&self) -> (r: String)
        ensures
            r@ == self.spec_match_string(),
    {
        let unknown: String = "unknown".to_owned();
        if self.vendor == unknown && self.product == unknown && self.serial == unknown {
            self.connector.clone()
        } else {
            let mut r = self.vendor.clone();
            r.append(":");
            r.append(self.product.as_str());
            r.append(":");
            r.append(self.serial.as_str());
            r
        }
    }

    pub fn connector(&self) -> (r: String)
        ensures
            r@ == self.connector@,
    {
        self.connector.clone()
    }
}

/// One mode line of a monitor as the compositor reports it.
#[derive(Clone)]
pub struct MonitorMode {
    pub width: i32,
    pub height: i32,
    pub is_current: bool,
}

/// Raw per-monitor data of one display-state snapshot, already unpacked
/// from the bus reply into plain values.
pub struct MonitorSnapshot {
    pub connector: String,
    pub vendor: String,
    pub product: String,
    pub serial: String,
    pub display_name: Option<String>,
    pub builtin: Option<bool>,
    pub modes: Vec<MonitorMode>,
}

/// The current (width, height): taken from the first mode marked current.
pub open spec fn spec_current_size(modes: Seq<MonitorMode>) -> Option<(i32, i32)>
    decreases modes.len(),
{
    if modes.len() == 0 {
        None
    } else if modes[0].is_current {
        Some((modes[0].width, modes[0].height))
    } else {
        spec_current_size(modes.skip(1))
    }
}

/// The monitor record a snapshot entry yields: absent display name kept
/// absent, absent builtin flag defaulted to false, size from the current mode.
pub open spec fn spec_monitor_of(s: MonitorSnapshot) -> Monitor {
    Monitor {
        connector: s.connector,
        vendor: s.vendor,
        product: s.product,
        serial: s.serial,
        display_name: s.display_name,
        builtin: match s.builtin {
            Some(b) => b,
            None => false,
        },
        size: spec_current_size(s.modes@),
    }
}

/// First monitor in the sequence cached under `connector`.
pub open spec fn spec_find_by_connector(monitors: Seq<Monitor>, connector: Seq<char>) -> Option<
    Monitor,
>
    decreases monitors.len(),
{
    if monitors.len() == 0 {
        None
    } else if monitors[0].connector@ == connector {
        Some(monitors[0])
    } else {
        spec_find_by_connector(monitors.skip(1), connector)
    }
}

/// First monitor in the sequence whose match string equals `key`.
pub open spec fn spec_find_monitor(monitors: Seq<Monitor>, key: Seq<char>) -> Option<Monitor>
    decreases monitors.len(),
{
    if monitors.len() == 0 {
        None
    } else if monitors[0].spec_match_string() == key {
        Some(monitors[0])
    } else {
        spec_find_monitor(monitors.skip(1), key)
    }
}

/// Cache of the physical monitors, replaced wholesale on every refresh.
pub struct DisplayStateTracker {
    monitors: Vec<Monitor>,
}

impl DisplayStateTracker {
    pub closed spec fn spec_monitors(&self) -> Seq<Monitor> {
        self.monitors@
    }

    /// Starts empty; the surrounding binary fills it from the first
    /// display-state snapshot before handing it to anyone.
    pub fn new() -> (r: Self)
        ensures
            r.spec_monitors() == Seq::<Monitor>::empty(),
    {
        DisplayStateTracker { monitors: Vec::new() }
    }

    pub fn monitors(&self) -> (r: &Vec<Monitor>)
        ensures
            r@ == self.spec_monitors(),
    {
        &self.monitors
    }

    /// Replaces the whole cache atomically from one snapshot; never merges
    /// partial updates.  A snapshot that could not be fetched is simply not
    /// passed here, which leaves the previous contents intact.
    pub fn refresh_from(&mut self, snapshot: &Vec<MonitorSnapshot>)
        ensures
            final(self).spec_monitors() =~= snapshot@.map_values(
                |s: MonitorSnapshot| spec_monitor_of(s),
            ),
    {
        let ghost snap = snapshot@;
        let mut monitors: Vec<Monitor> = Vec::new();
        let n = snapshot.len();
        for i in 0..n
            invariant
                n == snap.len(),
                snapshot@ == snap,
                monitors@ =~= snap.take(i as int).map_values(|s: MonitorSnapshot| spec_monitor_of(s)),
        {
            let s = &snapshot[i];
            let builtin = match s.builtin {
                Some(b) => b,
                None => false,
            };
            let mut size: Option<(i32, i32)> = None;
            let m = s.modes.len();
            for j in 0..m
                invariant
                    m == s.modes.len(),
                    size == spec_current_size(s.modes@.take(j as int)),
            {
                proof {
                    lemma_current_size_step(s.modes@, j as int);
                }
                if size.is_none() && s.modes[j].is_current {
                    size = Some((s.modes[j].width, s.modes[j].height));
                }
            }
            proof {
                assert(s.modes@.take(s.modes@.len() as int) =~= s.modes@);
            }
            let display_name = match &s.display_name {
                Some(d) => Some(d.clone()),
                None => None,
            };
            monitors.push(Monitor {
                connector: s.connector.clone(),
                vendor: s.vendor.clone(),
                product: s.product.clone(),
                serial: s.serial.clone(),
                display_name,
                builtin,
                size,
            });
            proof {
                let f = |s: MonitorSnapshot| spec_monitor_of(s);
                assert(snap.take(i + 1).map_values(f) =~= snap.take(i as int).map_values(f).push(
                    f(snap[i as int]),
                ));
            }
        }
        proof {
            assert(snap.take(n as int) =~= snap);
        }
        self.monitors = monitors;
    }

    /// Linear scan for the monitor cached under `connector`.
    pub fn find_by_connector(&self, connector: &String) -> (r: Option<&Monitor>)
        ensures
            match r {
                Some(m) => spec_find_by_connector(self.spec_monitors(), connector@) == Some(*m),
                None => spec_find_by_connector(self.spec_monitors(), connector@) is None,
            },
    {
        let n = self.monitors.len();
        proof {
            assert(self.spec_monitors().skip(0) =~= self.spec_monitors());
        }
        for i in 0..n
            invariant
                n == self.monitors.len(),
                spec_find_by_connector(self.spec_monitors(), connector@) == spec_find_by_connector(
                    self.spec_monitors().skip(i as int),
                    connector@,
                ),
        {
            proof {
                assert(self.spec_monitors().skip(i as int)[0] == self.spec_monitors()[i as int]);
                assert(self.spec_monitors().skip(i as int).skip(1) =~= self.spec_monitors().skip(
                    i + 1,
                ));
            }
            if self.monitors[i].connector == *connector {
                return Some(&self.monitors[i]);
            }
        }
        proof {
            assert(self.spec_monitors().skip(n as int) =~= Seq::<Monitor>::empty());
        }
        None
    }

    /// Linear scan for the first monitor whose match string equals the key
    /// exactly; identity lookup, no fuzzy matching.
    pub fn find_monitor(&self, match_string: &str) -> (r: Option<&Monitor>)
        ensures
            match r {
                Some(m) => spec_find_monitor(self.spec_monitors(), match_string@) == Some(*m),
                None => spec_find_monitor(self.spec_monitors(), match_string@) is None,
            },
    {
        let key: String = match_string.to_owned();
        let n = self.monitors.len();
        proof {
            assert(self.spec_monitors().skip(0) =~= self.spec_monitors());
        }
        for i in 0..n
            invariant
                n == self.monitors.len(),
                key@ == match_string@,
                spec_find_monitor(self.spec_monitors(), match_string@) == spec_find_monitor(
                    self.spec_monitors().skip(i as int),
                    match_string@,
                ),
        {
            proof {
                lemma_find_monitor_step(self.spec_monitors(), key@, i as int);
            }
            if self.monitors[i].match_string() == key {
                return Some(&self.monitors[i]);
            }
        }
        proof {
            assert(self.spec_monitors().skip(n as int) =~= Seq::<Monitor>::empty());
        }
        None
    }
}

/// Scanning one more mode keeps the "first current mode" result: a current
/// mode already seen in the prefix wins, else the next mode decides.
proof fn lemma_current_size_step(modes: Seq<MonitorMode>, j: int)
    requires
        0 <= j < modes.len(),
    ensures
        spec_current_size(modes.take(j + 1)) == (if spec_current_size(modes.take(j)) is Some {
            spec_current_size(modes.take(j))
        } else if modes[j].is_current {
            Some((modes[j].width, modes[j].height))
        } else {
            None::<(i32, i32)>
        }),
    decreases j,
{
    if j == 0 {
        assert(modes.take(0) =~= Seq::<MonitorMode>::empty());
        assert(modes.take(1) =~= seq![modes[0]]);
        assert(modes.take(1).skip(1) =~= Seq::<MonitorMode>::empty());
    } else {
        assert(modes.take(j + 1)[0] == modes[0]);
        assert(modes.take(j)[0] == modes[0]);
        assert(modes.take(j + 1).skip(1) =~= modes.skip(1).take(j));
        assert(modes.take(j).skip(1) =~= modes.skip(1).take(j - 1));
        lemma_current_size_step(modes.skip(1), j - 1);
        assert(modes.skip(1)[j - 1] == modes[j]);
    }
}

/// The search for a monitor's own match string finds that monitor, when no
/// earlier monitor carries the same match string.
pub proof fn lemma_find_monitor_first(monitors: Seq<Monitor>, i: int)
    requires
        0 <= i < monitors.len(),
        forall|j: int|
            0 <= j < i ==> #[trigger] monitors[j].spec_match_string()
                != monitors[i].spec_match_string(),
    ensures
        spec_find_monitor(monitors, monitors[i].spec_match_string()) == Some(monitors[i]),
    decreases i,
{
    if i == 0 {
    } else {
        assert(monitors.skip(1)[i - 1] == monitors[i]);
        assert(forall|j: int|
            0 <= j < i - 1 ==> #[trigger] monitors.skip(1)[j] == monitors[j + 1]);
        lemma_find_monitor_first(monitors.skip(1), i - 1);
    }
}

/// Unfolds the linear search by one position.
proof fn lemma_find_monitor_step(monitors: Seq<Monitor>, key: Seq<char>, i: int)
    requires
        0 <= i < monitors.len(),
    ensures
        spec_find_monitor(monitors.skip(i), key) == (if monitors[i].spec_match_string() == key {
            Some(monitors[i])
        } else {
            spec_find_monitor(monitors.skip(i + 1), key)
        }),
{
    assert(monitors.skip(i)[0] == monitors[i]);
    assert(monitors.skip(i).skip(1) =~= monitors.skip(i + 1));
}

} // verus!

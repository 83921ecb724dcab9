use vstd::prelude::*;
use std::collections::HashMap;
use crate::cycle::{StatusCycle, unique_keys, has_key, lemma_key_position, cycle_insert, cycle_remove, cycle_status, cursor_slot, cursor_next, lemma_insert_unique, lemma_remove_unique};
use crate::status::{StreamStatus, monitor_step, starts_recording};

verus! {

broadcast use vstd::std_specs::hash::group_hash_axioms;

/// What the runtime is to do with a platform's monitor task after a registry change.
#[derive(Clone, Copy, Debug, PartialEq, Eq, Structural)]
pub enum TaskCommand {
    /// Nothing to start or stop.
    Nothing,
    /// Start the monitor task of this platform.
    Spawn(u64),
    /// Abort the monitor task of this platform.
    Abort(u64),
}

/// Every registered platform has a non-empty cycle with unique sources.
pub open spec fn model_wf(m: Map<u64, Seq<(Seq<char>, StreamStatus)>>) -> bool {
    &&& m.dom().finite()
    &&& forall|p: u64| #[trigger] m.contains_key(p) ==> unique_keys(m[p]) && m[p].len() > 0
}

/// The registry after adding source `url` of platform `p`: a source already
/// registered keeps its place and its status; a new one goes last in its
/// platform's cycle as `Idle`, and a missing platform is created.
pub open spec fn add_model(m: Map<u64, Seq<(Seq<char>, StreamStatus)>>, p: u64, url: Seq<char>) -> Map<
    u64,
    Seq<(Seq<char>, StreamStatus)>,
> {
    if m.contains_key(p) {
        if has_key(m[p], url) {
            m
        } else {
            m.insert(p, m[p].push((url, StreamStatus::Idle)))
        }
    } else {
        m.insert(p, seq![(url, StreamStatus::Idle)])
    }
}

/// A monitor task is started exactly when the platform was not registered.
pub open spec fn add_command(m: Map<u64, Seq<(Seq<char>, StreamStatus)>>, p: u64) -> TaskCommand {
    if m.contains_key(p) {
        TaskCommand::Nothing
    } else {
        TaskCommand::Spawn(p)
    }
}

/// The registry after removing source `url` of platform `p`: a platform whose
/// cycle becomes empty leaves the registry.
pub open spec fn remove_model(m: Map<u64, Seq<(Seq<char>, StreamStatus)>>, p: u64, url: Seq<char>) -> Map<
    u64,
    Seq<(Seq<char>, StreamStatus)>,
> {
    if m.contains_key(p) {
        if cycle_remove(m[p], url).len() == 0 {
            m.remove(p)
        } else {
            m.insert(p, cycle_remove(m[p], url))
        }
    } else {
        m
    }
}

/// A monitor task is aborted exactly when its platform's last source leaves.
pub open spec fn remove_command(m: Map<u64, Seq<(Seq<char>, StreamStatus)>>, p: u64, url: Seq<char>) -> TaskCommand {
    if m.contains_key(p) && cycle_remove(m[p], url).len() == 0 {
        TaskCommand::Abort(p)
    } else {
        TaskCommand::Nothing
    }
}

/// The registry after the monitor of platform `p` probed `url` and found it
/// live or not: an `Idle` source found live becomes `Downloading`, nothing
/// else changes.
pub open spec fn probe_model(m: Map<u64, Seq<(Seq<char>, StreamStatus)>>, p: u64, url: Seq<char>, live: bool) -> Map<
    u64,
    Seq<(Seq<char>, StreamStatus)>,
> {
    if probe_starts(m, p, url, live) {
        m.insert(p, cycle_insert(m[p], url, StreamStatus::Downloading))
    } else {
        m
    }
}

/// Whether such a probe starts a recording.
pub open spec fn probe_starts(m: Map<u64, Seq<(Seq<char>, StreamStatus)>>, p: u64, url: Seq<char>, live: bool) -> bool {
    m.contains_key(p) && starts_recording_status(cycle_status(m[p], url), live)
}

/// Whether a probe of a source with this registered status starts a recording.
pub open spec fn starts_recording_status(s: Option<StreamStatus>, live: bool) -> bool {
    match s {
        Some(st) => starts_recording(st, live),
        None => false,
    }
}

/// The registry after adding each of `list` in turn, skipping unrecognised sources.
pub open spec fn add_all(m: Map<u64, Seq<(Seq<char>, StreamStatus)>>, list: Seq<(Option<u64>, Seq<char>)>) -> Map<
    u64,
    Seq<(Seq<char>, StreamStatus)>,
>
    decreases list.len(),
{
    if list.len() == 0 {
        m
    } else {
        let m1 = add_all(m, list.drop_last());
        match list.last().0 {
            Some(p) => add_model(m1, p, list.last().1),
            None => m1,
        }
    }
}

/// The platforms whose monitor tasks start while adding each of `list` in turn.
pub open spec fn spawned_by(m: Map<u64, Seq<(Seq<char>, StreamStatus)>>, list: Seq<(Option<u64>, Seq<char>)>) -> Seq<u64>
    decreases list.len(),
{
    if list.len() == 0 {
        seq![]
    } else {
        let s = spawned_by(m, list.drop_last());
        let m1 = add_all(m, list.drop_last());
        match list.last().0 {
            Some(p) => if m1.contains_key(p) { s } else { s.push(p) },
            None => s,
        }
    }
}

/// The view of a list of (platform, source) pairs.
pub open spec fn sources_view(list: Seq<(Option<u64>, String)>) -> Seq<(Option<u64>, Seq<char>)> {
    list.map_values(|x: (Option<u64>, String)| (x.0, x.1@))
}

/// The registry of monitored sources, grouped by platform.
pub struct DownloadActor {
    platforms: HashMap<u64, StatusCycle>,
}

impl View for DownloadActor {
    type V = Map<u64, Seq<(Seq<char>, StreamStatus)>>;

    closed spec fn view(&self) -> Map<u64, Seq<(Seq<char>, StreamStatus)>> {
        self.platforms@.map_values(|c: StatusCycle| c@)
    }
}

impl DownloadActor {
    pub closed spec fn wf(&self) -> bool {
        &&& model_wf(self@)
        &&& forall|p: u64| #[trigger] self.platforms@.contains_key(p) ==> self.platforms@[p].wf()
    }

    /// A well-formed registry has a well-formed model: every registered
    /// platform has a non-empty cycle whose sources are unique.
    pub proof fn lemma_wf_model(&self)
        requires
            self.wf(),
        ensures
            model_wf(self@),
    {
    }

    /// An empty registry.
    pub fn new() -> (r: DownloadActor)
        ensures
            r.wf(),
            r@ == Map::<u64, Seq<(Seq<char>, StreamStatus)>>::empty(),
    {
        let r = DownloadActor { platforms: HashMap::new() };
        proof {
            assert(r@ =~= Map::<u64, Seq<(Seq<char>, StreamStatus)>>::empty());
        }
        r
    }

    /// Registers `url` under `platform` as `Idle`; a source already registered
    /// is left as it is, and an unrecognised source (`None`) is ignored. Says whether the platform's monitor task is to start.
    pub fn add_streamer(&mut self, platform: Option<u64>, url: String) -> (r: TaskCommand)
        requires
            old(self).wf(),
        ensures
            final(self).wf(),
            match platform {
                None => final(self)@ == old(self)@ && r == TaskCommand::Nothing,
                Some(p) => final(self)@ == add_model(old(self)@, p, url@) && r == add_command(
                    old(self)@,
                    p,
                ),
            },
    {
        let p = match platform {
            None => return TaskCommand::Nothing,
            Some(p) => p,
        };
        let ghost m = self@;
        let ghost u = url@;
        match self.platforms.remove(&p) {
            Some(c) => {
                let mut c = c;
                proof {
                    lemma_insert_unique(c@, u, StreamStatus::Idle);
                    lemma_key_position(c@, u);
                }
                match c.status(url.as_str()) {
                    Some(_) => {},
                    None => {
                        c.insert(url, StreamStatus::Idle);
                    },
                }
                self.platforms.insert(p, c);
                proof {
                    assert(self@ =~= add_model(m, p, u));
                }
                TaskCommand::Nothing
            },
            None => {
                let c = StatusCycle::with_source(url, StreamStatus::Idle);
                self.platforms.insert(p, c);
                proof {
                    assert(self@ =~= add_model(m, p, u));
                }
                TaskCommand::Spawn(p)
            },
        }
    }

    /// Unregisters `url` from `platform`; an unrecognised source (`None`) is
    /// ignored. When the platform's last source leaves, the platform leaves
    /// the registry and its monitor task is to be aborted.
    pub fn remove_streamer(&mut self, platform: Option<u64>, url: &str) -> (r: TaskCommand)
        requires
            old(self).wf(),
        ensures
            final(self).wf(),
            match platform {
                None => final(self)@ == old(self)@ && r == TaskCommand::Nothing,
                Some(p) => final(self)@ == remove_model(old(self)@, p, url@) && r == remove_command(
                    old(self)@,
                    p,
                    url@,
                ),
            },
    {
        let p = match platform {
            None => return TaskCommand::Nothing,
            Some(p) => p,
        };
        let ghost m = self@;
        match self.platforms.remove(&p) {
            Some(c) => {
                let mut c = c;
                proof {
                    lemma_remove_unique(c@, url@);
                }
                c.remove(url);
                if c.len() == 0 {
                    proof {
                        assert(self@ =~= remove_model(m, p, url@));
                    }
                    TaskCommand::Abort(p)
                } else {
                    self.platforms.insert(p, c);
                    proof {
                        assert(self@ =~= remove_model(m, p, url@));
                    }
                    TaskCommand::Nothing
                }
            },
            None => {
                proof {
                    assert(self@ =~= m);
                }
                TaskCommand::Nothing
            },
        }
    }

    /// Registers each of `list` in turn, as `add_streamer` does; returns the
    /// platforms whose monitor tasks are to start, in the order they appeared.
    pub fn run(&mut self, list: Vec<(Option<u64>, String)>) -> (r: Vec<u64>)
        requires
            old(self).wf(),
        ensures
            final(self).wf(),
            final(self)@ == add_all(old(self)@, sources_view(list@)),
            r@ == spawned_by(old(self)@, sources_view(list@)),
    {
        let ghost m0 = self@;
        let ghost lv = sources_view(list@);
        let mut spawned: Vec<u64> = Vec::new();
        let mut i: usize = 0;
        while i < list.len()
            invariant
                self.wf(),
                0 <= i <= list@.len(),
                lv == sources_view(list@),
                self@ == add_all(m0, lv.subrange(0, i as int)),
                spawned@ == spawned_by(m0, lv.subrange(0, i as int)),
            decreases list@.len() - i,
        {
            let platform: Option<u64> = list[i].0;
            let url = list[i].1.clone();
            proof {
                assert(lv.subrange(0, i + 1).drop_last() =~= lv.subrange(0, i as int));
                assert(lv.subrange(0, i + 1).last() == lv[i as int]);
            }
            let cmd = self.add_streamer(platform, url);
            match cmd {
                TaskCommand::Spawn(p) => spawned.push(p),
                _ => {},
            }
            i = i + 1;
        }
        proof {
            assert(lv.subrange(0, list@.len() as int) =~= lv);
        }
        spawned
    }

    /// Whether `platform` has a monitor task, that is, at least one source.
    pub fn has_platform(&self, platform: u64) -> (r: bool)
        ensures
            r == self@.contains_key(platform),
    {
        self.platforms.contains_key(&platform)
    }

    /// The number of sources registered under `platform`.
    pub fn source_count(&self, platform: u64) -> (r: usize)
        ensures
            r == if self@.contains_key(platform) { self@[platform].len() } else { 0 },
    {
        match self.platforms.get(&platform) {
            Some(c) => c.len(),
            None => 0,
        }
    }

    /// The status of `url` under `platform`, if registered.
    pub fn status(&self, platform: u64, url: &str) -> (r: Option<StreamStatus>)
        requires
            self.wf(),
        ensures
            r == if self@.contains_key(platform) { cycle_status(self@[platform], url@) } else { None },
    {
        match self.platforms.get(&platform) {
            Some(c) => c.status(url),
            None => None,
        }
    }

    /// The next source that `platform`'s monitor polls, round-robin by
    /// `cursor`; `None` where the platform has no source.
    pub fn next_source(&self, platform: u64, cursor: &mut usize) -> (r: Option<(String, StreamStatus)>)
        requires
            self.wf(),
        ensures
            !self@.contains_key(platform) ==> r.is_none() && *final(cursor) == *old(cursor),
            self@.contains_key(platform) ==> {
                let e = self@[platform];
                let i = cursor_slot(*old(cursor) as int, e.len() as int);
                &&& *final(cursor) == cursor_next(*old(cursor), e.len() as int)
                &&& match r {
                    Some(s) => s.0@ == e[i].0 && s.1 == e[i].1,
                    None => false,
                }
            },
    {
        match self.platforms.get(&platform) {
            Some(c) => c.get(cursor),
            None => None,
        }
    }

    /// Applies the result of probing `url` of `platform` to the status that
    /// the registry holds for it now; returns whether a recording task is to
    /// be spawned. Only an `Idle` source found live moves, to `Downloading`.
    pub fn record_probe(&mut self, platform: u64, url: &str, live: bool) -> (r: bool)
        requires
            old(self).wf(),
        ensures
            final(self).wf(),
            r == probe_starts(old(self)@, platform, url@, live),
            final(self)@ == probe_model(old(self)@, platform, url@, live),
    {
        let ghost m = self@;
        match self.platforms.remove(&platform) {
            Some(c) => {
                let mut c = c;
                let cur = c.status(url);
                let started = match cur {
                    Some(s) => {
                        let (next, start) = monitor_step(s, live);
                        if start {
                            proof {
                                lemma_insert_unique(c@, url@, next);
                            }
                            c.set_existing(url, next);
                        }
                        start
                    },
                    None => false,
                };
                self.platforms.insert(platform, c);
                proof {
                    if started {
                        assert(self@ =~= m.insert(
                            platform,
                            cycle_insert(m[platform], url@, StreamStatus::Downloading),
                        ));
                    } else {
                        assert(self@ =~= m);
                    }
                }
                started
            },
            None => {
                proof {
                    assert(self@ =~= m);
                }
                false
            },
        }
    }
}

} // verus!

//! The rollout monitor's state and its transitions: the session the render
//! loop owns, the discovery tick that keeps the pod roster current and
//! decides which tail workers to spawn, the draining of parsed records into
//! the display buffers, and the quit transition.
//!
//! The surrounding shell performs the cluster calls, runs the workers and
//! draws the frames; every decision those activities feed is taken here.

use vstd::prelude::*;
use crate::buffer::{append_spec, GenerationBuffer};
use crate::classify::{classify, classify_spec, Generation};
use crate::logparse::{display_line_spec, LogRecord};
use crate::tailset::TailedSet;
use crate::text;

verus! {

/// What one discovery tick reads from the cluster for one pod: its name, its
/// status phase, and its first container's image, each of which the cluster
/// may omit.
pub struct PodSnapshot {
    pub name: Option<String>,
    pub phase: Option<String>,
    pub image: Option<String>,
}

/// The mathematical value of a `PodSnapshot`.
pub ghost struct PodSnapshotV {
    pub name: Option<Seq<char>>,
    pub phase: Option<Seq<char>>,
    pub image: Option<Seq<char>>,
}

impl View for PodSnapshot {
    type V = PodSnapshotV;

    open spec fn view(&self) -> PodSnapshotV {
        PodSnapshotV {
            name: self.name.deep_view(),
            phase: self.phase.deep_view(),
            image: self.image.deep_view(),
        }
    }
}

impl DeepView for PodSnapshot {
    type V = PodSnapshotV;

    open spec fn deep_view(&self) -> PodSnapshotV {
        self.view()
    }
}

/// One entry of the pod roster, rebuilt wholesale on every successful tick.
pub struct PodRecord {
    pub name: String,
    pub phase: String,
    pub generation: Generation,
}

/// The mathematical value of a `PodRecord`.
pub ghost struct PodRecordV {
    pub name: Seq<char>,
    pub phase: Seq<char>,
    pub generation: Generation,
}

impl View for PodRecord {
    type V = PodRecordV;

    open spec fn view(&self) -> PodRecordV {
        PodRecordV { name: self.name@, phase: self.phase@, generation: self.generation }
    }
}

impl DeepView for PodRecord {
    type V = PodRecordV;

    open spec fn deep_view(&self) -> PodRecordV {
        self.view()
    }
}

/// An instruction to the shell: start one tail worker for this pod, with the
/// generation frozen at spawn time.
pub struct SpawnRequest {
    pub pod_name: String,
    pub generation: Generation,
}

/// The mathematical value of a `SpawnRequest`.
pub ghost struct SpawnRequestV {
    pub pod_name: Seq<char>,
    pub generation: Generation,
}

impl View for SpawnRequest {
    type V = SpawnRequestV;

    open spec fn view(&self) -> SpawnRequestV {
        SpawnRequestV { pod_name: self.pod_name@, generation: self.generation }
    }
}

impl DeepView for SpawnRequest {
    type V = SpawnRequestV;

    open spec fn deep_view(&self) -> SpawnRequestV {
        self.view()
    }
}

/// The render/input loop's state machine: it runs until the quit key stops
/// it.
#[derive(Clone, Copy, PartialEq, Eq, Structural, Debug)]
pub enum LoopState {
    Running,
    Terminated,
}

/// A terminal event as the loop classifies it: a plain key press with its
/// character, or anything else (mouse events included), which is ignored.
#[derive(Clone, Copy, PartialEq, Eq, Structural, Debug)]
pub enum InputEvent {
    Key(char),
    Other,
}

/// The one event that stops the loop.
pub open spec fn is_quit_event(ev: InputEvent) -> bool {
    ev == InputEvent::Key('q')
}

/// The pod name a tick works with: the reported name, or empty when the
/// cluster omitted it.
pub open spec fn snapshot_name(s: PodSnapshotV) -> Seq<char> {
    match s.name {
        Some(n) => n,
        None => Seq::<char>::empty(),
    }
}

/// The displayed phase: the reported one, or `Unknown` when omitted.
pub open spec fn snapshot_phase(s: PodSnapshotV) -> Seq<char> {
    match s.phase {
        Some(p) => p,
        None => "Unknown"@,
    }
}

/// The generation a tick assigns: classification of the first container's
/// image against the deployed tag, `Old` when no image is reported.
pub open spec fn snapshot_generation(s: PodSnapshotV, tag: Seq<char>) -> Generation {
    match s.image {
        Some(img) => classify_spec(img, tag),
        None => Generation::Old,
    }
}

/// The roster entry one snapshot becomes.
pub open spec fn record_of_snapshot(s: PodSnapshotV, tag: Seq<char>) -> PodRecordV {
    PodRecordV {
        name: snapshot_name(s),
        phase: snapshot_phase(s),
        generation: snapshot_generation(s, tag),
    }
}

/// A tick spawns a worker for a pod exactly when the pod is `Running` and no
/// worker was ever spawned for its name.
pub open spec fn wants_spawn(tailed: Seq<Seq<char>>, s: PodSnapshotV) -> bool {
    snapshot_phase(s) == "Running"@ && !tailed.contains(snapshot_name(s))
}

/// The tailed-name list after one pod of a tick is considered.
pub open spec fn tick_tailed_one(tailed: Seq<Seq<char>>, s: PodSnapshotV) -> Seq<Seq<char>> {
    if wants_spawn(tailed, s) {
        tailed.push(snapshot_name(s))
    } else {
        tailed
    }
}

/// The tailed-name list after a whole tick over the listed pods.
pub open spec fn tick_tailed(tailed: Seq<Seq<char>>, ps: Seq<PodSnapshotV>) -> Seq<Seq<char>>
    decreases ps.len(),
{
    if ps.len() == 0 {
        tailed
    } else {
        tick_tailed(tick_tailed_one(tailed, ps[0]), ps.drop_first())
    }
}

/// The spawn requests one pod of a tick contributes.
pub open spec fn spawn_one(tailed: Seq<Seq<char>>, s: PodSnapshotV, tag: Seq<char>) -> Seq<
    SpawnRequestV,
> {
    if wants_spawn(tailed, s) {
        seq![
            SpawnRequestV {
                pod_name: snapshot_name(s),
                generation: snapshot_generation(s, tag),
            },
        ]
    } else {
        Seq::<SpawnRequestV>::empty()
    }
}

/// The spawn requests a whole tick issues, in roster order.
pub open spec fn tick_spawns(
    tailed: Seq<Seq<char>>,
    ps: Seq<PodSnapshotV>,
    tag: Seq<char>,
) -> Seq<SpawnRequestV>
    decreases ps.len(),
{
    if ps.len() == 0 {
        Seq::<SpawnRequestV>::empty()
    } else {
        spawn_one(tailed, ps[0], tag) + tick_spawns(
            tick_tailed_one(tailed, ps[0]),
            ps.drop_first(),
            tag,
        )
    }
}

proof fn lemma_tick_snoc(
    tailed: Seq<Seq<char>>,
    ps: Seq<PodSnapshotV>,
    x: PodSnapshotV,
    tag: Seq<char>,
)
    ensures
        tick_tailed(tailed, ps.push(x)) == tick_tailed_one(tick_tailed(tailed, ps), x),
        tick_spawns(tailed, ps.push(x), tag) == tick_spawns(tailed, ps, tag) + spawn_one(
            tick_tailed(tailed, ps),
            x,
            tag,
        ),
    decreases ps.len(),
{
    if ps.len() == 0 {
        let p1 = ps.push(x);
        assert(p1[0] == x);
        assert(p1.drop_first() =~= Seq::<PodSnapshotV>::empty());
        assert(tick_tailed(tailed, ps) == tailed);
        assert(tick_tailed(tailed, p1) == tick_tailed(tick_tailed_one(tailed, x), p1.drop_first()));
        assert(tick_tailed(tick_tailed_one(tailed, x), p1.drop_first()) == tick_tailed_one(
            tailed,
            x,
        ));
        assert(tick_spawns(tailed, ps, tag) =~= Seq::<SpawnRequestV>::empty());
        assert(tick_spawns(tailed, p1, tag) == spawn_one(tailed, x, tag) + tick_spawns(
            tick_tailed_one(tailed, x),
            p1.drop_first(),
            tag,
        ));
        assert(tick_spawns(tick_tailed_one(tailed, x), p1.drop_first(), tag)
            =~= Seq::<SpawnRequestV>::empty());
        assert(tick_spawns(tailed, p1, tag) =~= tick_spawns(tailed, ps, tag) + spawn_one(
            tick_tailed(tailed, ps),
            x,
            tag,
        ));
    } else {
        assert(ps.push(x)[0] == ps[0]);
        assert(ps.push(x).drop_first() =~= ps.drop_first().push(x));
        lemma_tick_snoc(tick_tailed_one(tailed, ps[0]), ps.drop_first(), x, tag);
        assert(tick_spawns(tailed, ps.push(x), tag) =~= tick_spawns(tailed, ps, tag) + spawn_one(
            tick_tailed(tailed, ps),
            x,
            tag,
        ));
    }
}

/// The session the render/input loop owns: the identity of the rollout being
/// watched, the current roster, the ever-tailed names, and the two display
/// buffers.
pub struct Session {
    pub service: String,
    pub env_name: String,
    pub tag: String,
    pub namespace: Option<String>,
    pub selector: Option<String>,
    pub container_name: String,
    pub pods: Vec<PodRecord>,
    pub tailed: TailedSet,
    pub old_buffer: GenerationBuffer,
    pub new_buffer: GenerationBuffer,
    pub state: LoopState,
}

/// The fields a session never changes after construction.
pub open spec fn same_identity(a: Session, b: Session) -> bool {
    &&& a.service == b.service
    &&& a.env_name == b.env_name
    &&& a.tag == b.tag
    &&& a.namespace == b.namespace
    &&& a.selector == b.selector
    &&& a.container_name == b.container_name
}

impl Session {
    /// Every collection the session owns is well formed.
    pub open spec fn wf(&self) -> bool {
        &&& self.tailed.wf()
        &&& self.old_buffer.wf()
        &&& self.new_buffer.wf()
    }

    /// A fresh session: empty roster, nothing tailed, empty buffers, the
    /// loop ready to run.
    pub fn new(
        service: String,
        env_name: String,
        tag: String,
        namespace: Option<String>,
        selector: Option<String>,
        container_name: String,
    ) -> (r: Session)
        ensures
            r.wf(),
            r.service == service,
            r.env_name == env_name,
            r.tag == tag,
            r.namespace == namespace,
            r.selector == selector,
            r.container_name == container_name,
            r.pods@.len() == 0,
            r.tailed.names_seq() == Seq::<Seq<char>>::empty(),
            r.old_buffer@ == Seq::<Seq<char>>::empty(),
            r.new_buffer@ == Seq::<Seq<char>>::empty(),
            r.state == LoopState::Running,
    {
        Session {
            service,
            env_name,
            tag,
            namespace,
            selector,
            container_name,
            pods: Vec::new(),
            tailed: TailedSet::new(),
            old_buffer: GenerationBuffer::new(),
            new_buffer: GenerationBuffer::new(),
            state: LoopState::Running,
        }
    }

    /// One discovery tick. `list` is what the cluster returned, or `None`
    /// when the list call failed, in which case the tick is skipped and
    /// nothing changes. On a successful list the roster is replaced
    /// wholesale, and one spawn request is returned for every `Running` pod
    /// whose name was never tailed before, each such name being recorded as
    /// tailed.
    pub fn discovery_tick(&mut self, list: Option<Vec<PodSnapshot>>) -> (spawns: Vec<SpawnRequest>)
        requires
            old(self).wf(),
        ensures
            final(self).wf(),
            same_identity(*final(self), *old(self)),
            final(self).state == old(self).state,
            final(self).old_buffer == old(self).old_buffer,
            final(self).new_buffer == old(self).new_buffer,
            match list {
                None => {
                    &&& final(self).pods == old(self).pods
                    &&& final(self).tailed == old(self).tailed
                    &&& spawns@.len() == 0
                },
                Some(ps) => {
                    &&& final(self).tailed.names_seq() == tick_tailed(
                        old(self).tailed.names_seq(),
                        ps.deep_view(),
                    )
                    &&& spawns.deep_view() == tick_spawns(
                        old(self).tailed.names_seq(),
                        ps.deep_view(),
                        old(self).tag@,
                    )
                    &&& final(self).pods.deep_view() == ps.deep_view().map_values(
                        |s: PodSnapshotV| record_of_snapshot(s, old(self).tag@),
                    )
                },
            },
    {
        let list = match list {
            Some(l) => l,
            None => {
                return Vec::new();
            },
        };
        let ghost s0 = *self;
        let ghost tailed0 = self.tailed.names_seq();
        let ghost tag0 = self.tag@;
        let ghost psv = list.deep_view();
        let mut spawns: Vec<SpawnRequest> = Vec::new();
        let mut roster: Vec<PodRecord> = Vec::new();
        let n = list.len();
        proof {
            assert(psv.take(0) =~= Seq::<PodSnapshotV>::empty());
            assert(spawns.deep_view() =~= Seq::<SpawnRequestV>::empty());
            assert(roster.deep_view() =~= Seq::<PodRecordV>::empty());
            assert(psv.take(0).map_values(|s: PodSnapshotV| record_of_snapshot(s, tag0))
                =~= Seq::<PodRecordV>::empty());
        }
        let mut i: usize = 0;
        while i < n
            invariant
                n == list@.len(),
                psv == list.deep_view(),
                psv.len() == list@.len(),
                tag0 == self.tag@,
                same_identity(*self, s0),
                self.state == s0.state,
                self.old_buffer == s0.old_buffer,
                self.new_buffer == s0.new_buffer,
                self.pods == s0.pods,
                s0.old_buffer.wf(),
                s0.new_buffer.wf(),
                self.tailed.wf(),
                0 <= i <= n,
                self.tailed.names_seq() == tick_tailed(tailed0, psv.take(i as int)),
                spawns.deep_view() == tick_spawns(tailed0, psv.take(i as int), tag0),
                roster.deep_view() == psv.take(i as int).map_values(
                    |s: PodSnapshotV| record_of_snapshot(s, tag0),
                ),
            decreases n - i,
        {
            let ghost tailed_cur = self.tailed.names_seq();
            let ghost sv = psv[i as int];
            proof {
                assert(psv[i as int] == list@[i as int].deep_view());
            }
            let snap = &list[i];
            let name: String = match &snap.name {
                Some(nm) => nm.clone(),
                None => String::new(),
            };
            let phase: String = match &snap.phase {
                Some(p) => p.clone(),
                None => String::from_str("Unknown"),
            };
            let generation = match &snap.image {
                Some(img) => classify(img.as_str(), self.tag.as_str()),
                None => Generation::Old,
            };
            proof {
                assert(name@ == snapshot_name(sv));
                assert(phase@ == snapshot_phase(sv));
                assert(generation == snapshot_generation(sv, tag0));
            }
            if text::str_eq(phase.as_str(), "Running") && !self.tailed.contains_name(
                name.as_str(),
            ) {
                proof {
                    assert(wants_spawn(tailed_cur, sv));
                }
                let ghost spawns_before = spawns.deep_view();
                self.tailed.insert(name.clone());
                spawns.push(SpawnRequest { pod_name: name.clone(), generation });
                proof {
                    assert(spawns.deep_view() =~= spawns_before + spawn_one(
                        tailed_cur,
                        sv,
                        tag0,
                    ));
                }
            } else {
                proof {
                    assert(!wants_spawn(tailed_cur, sv));
                    assert(spawns.deep_view() =~= tick_spawns(tailed0, psv.take(i as int), tag0)
                        + spawn_one(tailed_cur, sv, tag0));
                }
            }
            let ghost roster_before = roster.deep_view();
            roster.push(PodRecord { name, phase, generation });
            proof {
                assert(psv.take(i as int).push(sv) =~= psv.take(i + 1));
                lemma_tick_snoc(tailed0, psv.take(i as int), sv, tag0);
                assert(roster.deep_view() =~= roster_before.push(record_of_snapshot(sv, tag0)));
                assert(psv.take(i + 1).map_values(|s: PodSnapshotV| record_of_snapshot(s, tag0))
                    =~= psv.take(i as int).map_values(|s: PodSnapshotV| record_of_snapshot(s, tag0))
                    .push(record_of_snapshot(sv, tag0)));
            }
            i = i + 1;
        }
        proof {
            assert(psv.take(n as int) =~= psv);
        }
        self.pods = roster;
        spawns
    }

    /// Appends one parsed record's display line to the buffer of its
    /// generation, the other buffer and all other state untouched.
    pub fn ingest_record(&mut self, rec: LogRecord)
        requires
            old(self).wf(),
        ensures
            final(self).wf(),
            same_identity(*final(self), *old(self)),
            final(self).state == old(self).state,
            final(self).pods == old(self).pods,
            final(self).tailed == old(self).tailed,
            rec@.generation == Generation::New ==> final(self).new_buffer@ == append_spec(
                old(self).new_buffer@,
                display_line_spec(rec@),
            ) && final(self).old_buffer == old(self).old_buffer,
            rec@.generation == Generation::Old ==> final(self).old_buffer@ == append_spec(
                old(self).old_buffer@,
                display_line_spec(rec@),
            ) && final(self).new_buffer == old(self).new_buffer,
    {
        let line = rec.display_line();
        match rec.generation {
            Generation::New => self.new_buffer.append_line(line),
            Generation::Old => self.old_buffer.append_line(line),
        }
    }

    /// Reacts to one terminal event. The quit key while the loop is running
    /// moves it to `Terminated` and reports that the loop should return
    /// successfully; every other event leaves the session unchanged.
    pub fn handle_event(&mut self, ev: InputEvent) -> (quit: bool)
        ensures
            quit == (old(self).state == LoopState::Running && is_quit_event(ev)),
            quit ==> final(self).state == LoopState::Terminated,
            !quit ==> final(self).state == old(self).state,
            same_identity(*final(self), *old(self)),
            final(self).pods == old(self).pods,
            final(self).tailed == old(self).tailed,
            final(self).old_buffer == old(self).old_buffer,
            final(self).new_buffer == old(self).new_buffer,
    {
        let quit = match ev {
            InputEvent::Key(c) => c == 'q' && self.state == LoopState::Running,
            InputEvent::Other => false,
        };
        if quit {
            self.state = LoopState::Terminated;
        }
        quit
    }
}

/// The names of a list of spawn requests, in order.
pub open spec fn names_of(reqs: Seq<SpawnRequestV>) -> Seq<Seq<char>> {
    reqs.map_values(|r: SpawnRequestV| r.pod_name)
}

/// The spawn requests of a whole run: any number of discovery ticks, each
/// fed the pod list its list call returned, starting from the tailed names
/// accumulated so far.
pub open spec fn run_spawns(
    tailed: Seq<Seq<char>>,
    ticks: Seq<Seq<PodSnapshotV>>,
    tag: Seq<char>,
) -> Seq<SpawnRequestV>
    decreases ticks.len(),
{
    if ticks.len() == 0 {
        Seq::<SpawnRequestV>::empty()
    } else {
        tick_spawns(tailed, ticks[0], tag) + run_spawns(
            tick_tailed(tailed, ticks[0]),
            ticks.drop_first(),
            tag,
        )
    }
}

proof fn lemma_tick_spawns_fresh(tailed: Seq<Seq<char>>, ps: Seq<PodSnapshotV>, tag: Seq<char>)
    ensures
        names_of(tick_spawns(tailed, ps, tag)).no_duplicates(),
        forall|j: int|
            0 <= j < tick_spawns(tailed, ps, tag).len() ==> !tailed.contains(
                tick_spawns(tailed, ps, tag)[j].pod_name,
            ),
        forall|x: Seq<char>| tailed.contains(x) ==> tick_tailed(tailed, ps).contains(x),
        forall|j: int|
            0 <= j < tick_spawns(tailed, ps, tag).len() ==> tick_tailed(tailed, ps).contains(
                tick_spawns(tailed, ps, tag)[j].pod_name,
            ),
    decreases ps.len(),
{
    broadcast use vstd::seq_lib::lemma_seq_contains_after_push;

    if ps.len() == 0 {
    } else {
        let t1 = tick_tailed_one(tailed, ps[0]);
        let rest = ps.drop_first();
        lemma_tick_spawns_fresh(t1, rest, tag);
        let head = spawn_one(tailed, ps[0], tag);
        let tail_spawns = tick_spawns(t1, rest, tag);
        let all = tick_spawns(tailed, ps, tag);
        assert(all == head + tail_spawns);
        assert forall|j: int| 0 <= j < all.len() implies !tailed.contains(all[j].pod_name)
            && tick_tailed(tailed, ps).contains(all[j].pod_name) by {
            if j < head.len() {
                assert(all[j] == head[j]);
                assert(wants_spawn(tailed, ps[0]));
                assert(t1.contains(snapshot_name(ps[0])));
            } else {
                assert(all[j] == tail_spawns[j - head.len()]);
                assert(!t1.contains(all[j].pod_name));
                if tailed.contains(all[j].pod_name) {
                    assert(t1.contains(all[j].pod_name));
                }
            }
        }
        assert forall|x: Seq<char>| tailed.contains(x) implies tick_tailed(tailed, ps).contains(
            x,
        ) by {
            assert(t1.contains(x));
        }
        let all_names = names_of(all);
        assert forall|j1: int, j2: int|
            0 <= j1 < j2 < all_names.len() implies all_names[j1] != all_names[j2] by {
            let head_names = names_of(head);
            let tail_names = names_of(tail_spawns);
            assert(all_names[j1] == all[j1].pod_name);
            assert(all_names[j2] == all[j2].pod_name);
            if j1 < head.len() && j2 < head.len() {
                assert(head.len() <= 1);
                assert(false);
            } else if j1 < head.len() {
                // j2 lands in the tail, whose names avoid t1, while the head
                // name is in t1.
                assert(all[j1] == head[j1]);
                assert(wants_spawn(tailed, ps[0]));
                assert(t1.contains(all[j1].pod_name));
                assert(all[j2] == tail_spawns[j2 - head.len()]);
                assert(!t1.contains(all[j2].pod_name));
            } else {
                assert(all[j1] == tail_spawns[j1 - head.len()]);
                assert(all[j2] == tail_spawns[j2 - head.len()]);
                assert(names_of(tail_spawns).no_duplicates());
                assert(names_of(tail_spawns)[j1 - head.len()] == all[j1].pod_name);
                assert(names_of(tail_spawns)[j2 - head.len()] == all[j2].pod_name);
            }
        }
    }
}

/// A tail worker is spawned at most once per pod name across the monitor's
/// lifetime: over any run of discovery ticks, the spawn requests repeat no
/// name, and never name a pod that was already tailed when the run began —
/// however often a pod reappears in later ticks.
pub proof fn lemma_spawn_at_most_once(
    tailed: Seq<Seq<char>>,
    ticks: Seq<Seq<PodSnapshotV>>,
    tag: Seq<char>,
)
    ensures
        names_of(run_spawns(tailed, ticks, tag)).no_duplicates(),
        forall|j: int|
            0 <= j < run_spawns(tailed, ticks, tag).len() ==> !tailed.contains(
                run_spawns(tailed, ticks, tag)[j].pod_name,
            ),
    decreases ticks.len(),
{
    if ticks.len() == 0 {
    } else {
        let first = tick_spawns(tailed, ticks[0], tag);
        let t1 = tick_tailed(tailed, ticks[0]);
        let rest = run_spawns(t1, ticks.drop_first(), tag);
        let all = run_spawns(tailed, ticks, tag);
        assert(all == first + rest);
        lemma_tick_spawns_fresh(tailed, ticks[0], tag);
        lemma_spawn_at_most_once(t1, ticks.drop_first(), tag);
        assert forall|j: int| 0 <= j < all.len() implies !tailed.contains(all[j].pod_name) by {
            if j < first.len() {
                assert(all[j] == first[j]);
            } else {
                assert(all[j] == rest[j - first.len()]);
                assert(!t1.contains(all[j].pod_name));
                if tailed.contains(all[j].pod_name) {
                    assert(t1.contains(all[j].pod_name));
                }
            }
        }
        let all_names = names_of(all);
        assert forall|j1: int, j2: int|
            0 <= j1 < j2 < all_names.len() implies all_names[j1] != all_names[j2] by {
            assert(all_names[j1] == all[j1].pod_name);
            assert(all_names[j2] == all[j2].pod_name);
            if j1 < first.len() && j2 < first.len() {
                assert(names_of(first)[j1] == all[j1].pod_name);
                assert(names_of(first)[j2] == all[j2].pod_name);
                assert(names_of(first).no_duplicates());
            } else if j1 < first.len() {
                // The earlier name is already tailed after the first tick;
                // the later one is not.
                assert(all[j1] == first[j1]);
                assert(t1.contains(all[j1].pod_name));
                assert(all[j2] == rest[j2 - first.len()]);
                assert(!t1.contains(all[j2].pod_name));
            } else {
                assert(all[j1] == rest[j1 - first.len()]);
                assert(all[j2] == rest[j2 - first.len()]);
                assert(names_of(rest)[j1 - first.len()] == all[j1].pod_name);
                assert(names_of(rest)[j2 - first.len()] == all[j2].pod_name);
                assert(names_of(rest).no_duplicates());
            }
        }
    }
}

} // verus!

//! The registry of build jobs: which jobs exist, whether a cancel was asked
//! for, whether they finished and the artifacts they produced.

use vstd::prelude::*;

use crate::compiler::package::{artifact_view, artifacts_view, ArtifactView};
use crate::text::{chars_of, concat, dec, decimal, string_of};
use crate::types::{copy_opt, BuildArtifact, BuildFinishedEvent, BuildLogEvent};

verus! {

/// The state of one job: its artifacts, and whether it was cancelled and
/// finished.
pub struct JobState {
    pub artifacts: Vec<BuildArtifact>,
    pub cancelled: bool,
    pub finished: bool,
}

/// A registered job.
pub struct JobEntry {
    pub id: String,
    pub state: JobState,
}

/// The view of a job's state.
pub type StateView = (Seq<ArtifactView>, bool, bool);

/// The view of an entry: its id and state.
pub type EntryView = (Seq<char>, StateView);

pub open spec fn state_view(s: JobState) -> StateView {
    (artifacts_view(s.artifacts@), s.cancelled, s.finished)
}

pub open spec fn entries_view(s: Seq<JobEntry>) -> Seq<EntryView> {
    s.map_values(|e: JobEntry| (e.id@, state_view(e.state)))
}

/// The registry as a map from job id to state.
pub open spec fn jobs_map(s: Seq<EntryView>) -> Map<Seq<char>, StateView>
    decreases s.len(),
{
    if s.len() == 0 {
        Map::empty()
    } else {
        jobs_map(s.drop_last()).insert(s.last().0, s.last().1)
    }
}

/// No id is registered twice.
pub open spec fn unique_ids(s: Seq<EntryView>) -> bool {
    forall|i: int, j: int| 0 <= i < j < s.len() ==> s[i].0 != s[j].0
}

/// The state a job starts in.
pub open spec fn fresh_state() -> StateView {
    (Seq::empty(), false, false)
}

/// Registering `id`: it starts afresh, replacing any state it had.
pub open spec fn spec_register(m: Map<Seq<char>, StateView>, id: Seq<char>) -> Map<
    Seq<char>,
    StateView,
> {
    m.insert(id, fresh_state())
}

/// Cancelling `id`: marked cancelled when registered; the answer says
/// whether it was.
pub open spec fn spec_cancel(m: Map<Seq<char>, StateView>, id: Seq<char>) -> (
    Map<Seq<char>, StateView>,
    bool,
) {
    if m.dom().contains(id) {
        (m.insert(id, (m[id].0, true, m[id].2)), true)
    } else {
        (m, false)
    }
}

/// The artifacts of `id`, none when it is not registered.
pub open spec fn spec_list_artifacts(m: Map<Seq<char>, StateView>, id: Seq<char>) -> Seq<
    ArtifactView,
> {
    if m.dom().contains(id) {
        m[id].0
    } else {
        Seq::empty()
    }
}

/// Recording the artifacts of a registered job.
pub open spec fn spec_set_artifacts(
    m: Map<Seq<char>, StateView>,
    id: Seq<char>,
    artifacts: Seq<ArtifactView>,
) -> Map<Seq<char>, StateView> {
    if m.dom().contains(id) {
        m.insert(id, (artifacts, m[id].1, m[id].2))
    } else {
        m
    }
}

/// Marking a registered job finished.
pub open spec fn spec_finish(m: Map<Seq<char>, StateView>, id: Seq<char>) -> Map<
    Seq<char>,
    StateView,
> {
    if m.dom().contains(id) {
        m.insert(id, (m[id].0, m[id].1, true))
    } else {
        m
    }
}

proof fn lemma_jobs_map_lookup(s: Seq<EntryView>, i: int)
    requires
        unique_ids(s),
        0 <= i < s.len(),
    ensures
        jobs_map(s).dom().contains(s[i].0),
        jobs_map(s)[s[i].0] == s[i].1,
    decreases s.len(),
{
    if i < s.len() - 1 {
        lemma_jobs_map_lookup(s.drop_last(), i);
        assert(s.drop_last()[i] == s[i]);
        assert(s.last().0 != s[i].0);
    }
}

proof fn lemma_jobs_map_absent(s: Seq<EntryView>, k: Seq<char>)
    requires
        forall|i: int| 0 <= i < s.len() ==> s[i].0 != k,
    ensures
        !jobs_map(s).dom().contains(k),
    decreases s.len(),
{
    if s.len() > 0 {
        assert(s.last().0 != k);
        assert forall|i: int| 0 <= i < s.drop_last().len() implies s.drop_last()[i].0 != k by {
            assert(s.drop_last()[i] == s[i]);
        }
        lemma_jobs_map_absent(s.drop_last(), k);
    }
}

proof fn lemma_jobs_map_update(s: Seq<EntryView>, i: int, v: StateView)
    requires
        unique_ids(s),
        0 <= i < s.len(),
    ensures
        jobs_map(s.update(i, (s[i].0, v))) == jobs_map(s).insert(s[i].0, v),
        unique_ids(s.update(i, (s[i].0, v))),
    decreases s.len(),
{
    let t = s.update(i, (s[i].0, v));
    if i == s.len() - 1 {
        assert(t.drop_last() =~= s.drop_last());
        assert(jobs_map(t) =~= jobs_map(s).insert(s[i].0, v));
    } else {
        let d = s.drop_last();
        assert(unique_ids(d));
        lemma_jobs_map_update(d, i, v);
        assert(t.drop_last() =~= d.update(i, (d[i].0, v)));
        assert(s.last().0 != s[i].0);
        assert(jobs_map(t) =~= jobs_map(s).insert(s[i].0, v));
    }
}

/// The registry of build jobs.
pub struct JobManager {
    pub jobs: Vec<JobEntry>,
}

impl JobManager {
    /// The registry as a map from job id to state.
    pub open spec fn view_map(&self) -> Map<Seq<char>, StateView> {
        jobs_map(entries_view(self.jobs@))
    }

    /// Each job id is registered once.
    pub open spec fn wf(&self) -> bool {
        unique_ids(entries_view(self.jobs@))
    }

    /// An empty registry.
    pub fn new() -> (r: JobManager)
        ensures
            r.wf(),
            r.view_map() == Map::<Seq<char>, StateView>::empty(),
    {
        let r = JobManager { jobs: Vec::new() };
        assert(entries_view(r.jobs@) =~= Seq::<EntryView>::empty());
        r
    }

    /// The position of job `id`.
    fn position(&self, id: &str) -> (r: Option<usize>)
        requires
            self.wf(),
        ensures
            r matches Some(i) ==> i < self.jobs@.len() && self.jobs@[i as int].id@ == id@,
            r is None ==> !self.view_map().dom().contains(id@),
    {
        let ghost ev = entries_view(self.jobs@);
        let target = chars_of(id);
        let mut i: usize = 0;
        while i < self.jobs.len()
            invariant
                i <= self.jobs.len(),
                ev == entries_view(self.jobs@),
                target@ == id@,
                forall|k: int| 0 <= k < i ==> ev[k].0 != id@,
            decreases self.jobs.len() - i,
        {
            let c = chars_of(self.jobs[i].id.as_str());
            if crate::text::chars_eq(&c, &target) {
                return Some(i);
            }
            assert(ev[i as int].0 == self.jobs@[i as int].id@);
            i += 1;
        }
        proof {
            lemma_jobs_map_absent(ev, id@);
        }
        None
    }

    /// Registers job `id` with a fresh state (replacing one it had).
    pub fn register(&mut self, id: &str)
        requires
            old(self).wf(),
        ensures
            final(self).wf(),
            final(self).view_map() == spec_register(old(self).view_map(), id@),
    {
        let ghost ev = entries_view(self.jobs@);
        let fresh = JobState { artifacts: Vec::new(), cancelled: false, finished: false };
        assert(artifacts_view(fresh.artifacts@) =~= Seq::<ArtifactView>::empty());
        match self.position(id) {
            Some(i) => {
                self.jobs.set(i, JobEntry { id: crate::text::owned(id), state: fresh });
                proof {
                    lemma_jobs_map_update(ev, i as int, fresh_state());
                    assert(entries_view(self.jobs@) =~= ev.update(i as int, (ev[i as int].0, fresh_state())));
                }
            },
            None => {
                self.jobs.push(JobEntry { id: crate::text::owned(id), state: fresh });
                proof {
                    let nv = entries_view(self.jobs@);
                    assert(nv =~= ev.push((id@, fresh_state())));
                    assert(nv.drop_last() =~= ev);
                    assert forall|a: int, b: int| 0 <= a < b < nv.len() implies nv[a].0 != nv[b].0 by {
                        if b == nv.len() - 1 {
                            if nv[a].0 == id@ {
                                lemma_jobs_map_lookup(ev, a);
                            }
                        }
                    }
                }
            },
        }
    }

    /// Marks job `id` cancelled; whether it is registered.
    pub fn cancel_build(&mut self, job_id: &str) -> (r: bool)
        requires
            old(self).wf(),
        ensures
            final(self).wf(),
            (final(self).view_map(), r) == spec_cancel(old(self).view_map(), job_id@),
    {
        let ghost ev = entries_view(self.jobs@);
        match self.position(job_id) {
            Some(i) => {
                proof {
                    lemma_jobs_map_lookup(ev, i as int);
                }
                let ghost old_state = ev[i as int].1;
                let mut entry = self.jobs.remove(i);
                entry.state.cancelled = true;
                let ghost new_state = state_view(entry.state);
                assert(new_state == (old_state.0, true, old_state.2));
                self.jobs.insert(i, entry);
                proof {
                    lemma_jobs_map_update(ev, i as int, new_state);
                    assert(entries_view(self.jobs@) =~= ev.update(i as int, (ev[i as int].0, new_state)));
                }
                true
            },
            None => false,
        }
    }

    /// The artifacts of job `id`; none when it is not registered.
    pub fn list_artifacts(&self, job_id: &str) -> (r: Vec<BuildArtifact>)
        requires
            self.wf(),
        ensures
            artifacts_view(r@) == spec_list_artifacts(self.view_map(), job_id@),
    {
        match self.position(job_id) {
            Some(i) => {
                proof {
                    lemma_jobs_map_lookup(entries_view(self.jobs@), i as int);
                }
                copy_artifacts(&self.jobs[i].state.artifacts)
            },
            None => {
                let r: Vec<BuildArtifact> = Vec::new();
                assert(artifacts_view(r@) =~= Seq::<ArtifactView>::empty());
                r
            },
        }
    }

    /// Records the artifacts of job `id`, when it is registered.
    pub fn set_artifacts(&mut self, job_id: &str, artifacts: Vec<BuildArtifact>)
        requires
            old(self).wf(),
        ensures
            final(self).wf(),
            final(self).view_map() == spec_set_artifacts(
                old(self).view_map(),
                job_id@,
                artifacts_view(artifacts@),
            ),
    {
        let ghost ev = entries_view(self.jobs@);
        match self.position(job_id) {
            Some(i) => {
                proof {
                    lemma_jobs_map_lookup(ev, i as int);
                }
                let ghost old_state = ev[i as int].1;
                let mut entry = self.jobs.remove(i);
                entry.state.artifacts = artifacts;
                let ghost new_state = state_view(entry.state);
                self.jobs.insert(i, entry);
                proof {
                    lemma_jobs_map_update(ev, i as int, new_state);
                    assert(entries_view(self.jobs@) =~= ev.update(i as int, (ev[i as int].0, new_state)));
                }
            },
            None => {},
        }
    }

    /// Marks job `id` finished, when it is registered.
    pub fn finish(&mut self, job_id: &str)
        requires
            old(self).wf(),
        ensures
            final(self).wf(),
            final(self).view_map() == spec_finish(old(self).view_map(), job_id@),
    {
        let ghost ev = entries_view(self.jobs@);
        match self.position(job_id) {
            Some(i) => {
                proof {
                    lemma_jobs_map_lookup(ev, i as int);
                }
                let mut entry = self.jobs.remove(i);
                entry.state.finished = true;
                let ghost new_state = state_view(entry.state);
                self.jobs.insert(i, entry);
                proof {
                    lemma_jobs_map_update(ev, i as int, new_state);
                    assert(entries_view(self.jobs@) =~= ev.update(i as int, (ev[i as int].0, new_state)));
                }
            },
            None => {},
        }
    }
}

/// A copy of an artifact.
pub fn copy_artifact(a: &BuildArtifact) -> (r: BuildArtifact)
    ensures
        artifact_view(r) == artifact_view(*a),
{
    BuildArtifact {
        version: copy_opt(&a.version),
        configuration: copy_opt(&a.configuration),
        kind: a.kind.clone(),
        path: a.path.clone(),
    }
}

/// A copy of a list of artifacts.
pub fn copy_artifacts(s: &Vec<BuildArtifact>) -> (r: Vec<BuildArtifact>)
    ensures
        artifacts_view(r@) == artifacts_view(s@),
{
    let mut r: Vec<BuildArtifact> = Vec::new();
    let mut i: usize = 0;
    while i < s.len()
        invariant
            i <= s.len(),
            artifacts_view(r@) == artifacts_view(s@).take(i as int),
        decreases s.len() - i,
    {
        let ghost prev = r@;
        r.push(copy_artifact(&s[i]));
        assert(artifacts_view(r@) =~= artifacts_view(prev).push(artifact_view(s@[i as int])));
        assert(artifacts_view(r@) =~= artifacts_view(s@).take(i + 1));
        i += 1;
    }
    assert(artifacts_view(s@).take(s.len() as int) =~= artifacts_view(s@));
    r
}

/// `build-<millis>`: the id of a job started `millis` milliseconds after the
/// Unix epoch.
pub fn create_job_id(millis: u64) -> (r: String)
    ensures
        r@ == "build-"@ + dec(millis as nat),
{
    let p = chars_of("build-");
    string_of(&concat(&p, &decimal(millis)))
}

/// What the end of a build job reports: the artifacts to announce, the
/// error line for the log when it failed, and the finish event.
pub struct BuildOutcome {
    pub artifacts: Vec<BuildArtifact>,
    pub error_log: Option<BuildLogEvent>,
    pub finished: BuildFinishedEvent,
}

/// The view of a log event: job, level, category, timestamp, message.
pub open spec fn log_view(e: BuildLogEvent) -> (Seq<char>, Seq<char>, Seq<char>, Seq<char>, Seq<char>) {
    (e.job_id@, e.level@, e.category@, e.timestamp@, e.message@)
}

impl JobManager {
    /// Records how job `id` ended. A success stores its artifacts, marks it
    /// finished and announces them with `Build finished`; a failure marks
    /// it finished, logs the error (level `error`, category `system`) and
    /// announces the failure with the error as message.
    pub fn finish_build(
        &mut self,
        job_id: &str,
        result: Result<Vec<BuildArtifact>, String>,
        timestamp: &str,
    ) -> (r: BuildOutcome)
        requires
            old(self).wf(),
        ensures
            final(self).wf(),
            r.finished.job_id@ == job_id@,
            r.finished.success == (result is Ok),
            match result {
                Ok(a) => {
                    &&& final(self).view_map() == spec_finish(
                        spec_set_artifacts(old(self).view_map(), job_id@, artifacts_view(a@)),
                        job_id@,
                    )
                    &&& artifacts_view(r.artifacts@) == artifacts_view(a@)
                    &&& r.error_log is None
                    &&& r.finished.message@ == "Build finished"@
                },
                Err(e) => {
                    &&& final(self).view_map() == spec_finish(old(self).view_map(), job_id@)
                    &&& r.artifacts@.len() == 0
                    &&& r.error_log matches Some(l) && log_view(l) == (
                        job_id@,
                        "error"@,
                        "system"@,
                        timestamp@,
                        e@,
                    )
                    &&& r.finished.message@ == e@
                },
            },
    {
        match result {
            Ok(a) => {
                let announced = copy_artifacts(&a);
                self.set_artifacts(job_id, a);
                self.finish(job_id);
                BuildOutcome {
                    artifacts: announced,
                    error_log: None,
                    finished: BuildFinishedEvent {
                        job_id: crate::text::owned(job_id),
                        success: true,
                        message: crate::text::owned("Build finished"),
                    },
                }
            },
            Err(e) => {
                self.finish(job_id);
                let log = BuildLogEvent {
                    job_id: crate::text::owned(job_id),
                    level: crate::text::owned("error"),
                    category: crate::text::owned("system"),
                    timestamp: crate::text::owned(timestamp),
                    message: e.clone(),
                };
                BuildOutcome {
                    artifacts: Vec::new(),
                    error_log: Some(log),
                    finished: BuildFinishedEvent {
                        job_id: crate::text::owned(job_id),
                        success: false,
                        message: e,
                    },
                }
            },
        }
    }
}

// ---------------------------------------------------------------------------
// Laws of the registry
// ---------------------------------------------------------------------------

/// The artifacts recorded for a registered job are the ones listed for it.
pub proof fn law_list_after_set(
    m: Map<Seq<char>, StateView>,
    id: Seq<char>,
    artifacts: Seq<ArtifactView>,
)
    requires
        m.dom().contains(id),
    ensures
        spec_list_artifacts(spec_set_artifacts(m, id, artifacts), id) == artifacts,
{
}

/// Recording artifacts for one job leaves every other job's list alone.
pub proof fn law_set_leaves_others(
    m: Map<Seq<char>, StateView>,
    id: Seq<char>,
    other: Seq<char>,
    artifacts: Seq<ArtifactView>,
)
    requires
        id != other,
    ensures
        spec_list_artifacts(spec_set_artifacts(m, id, artifacts), other) == spec_list_artifacts(
            m,
            other,
        ),
{
}

/// A cancel is answered `true` exactly when the job is registered, and it
/// neither adds nor drops jobs nor touches their artifacts.
pub proof fn law_cancel_answers_registration(m: Map<Seq<char>, StateView>, id: Seq<char>, k: Seq<char>)
    ensures
        spec_cancel(m, id).1 == m.dom().contains(id),
        spec_cancel(m, id).0.dom() =~= m.dom(),
        spec_list_artifacts(spec_cancel(m, id).0, k) == spec_list_artifacts(m, k),
{
}

/// A job just registered lists no artifacts and can be cancelled.
pub proof fn law_registered_job(m: Map<Seq<char>, StateView>, id: Seq<char>)
    ensures
        spec_list_artifacts(spec_register(m, id), id) == Seq::<ArtifactView>::empty(),
        spec_cancel(spec_register(m, id), id).1,
{
}

/// Finishing a job keeps every job's artifacts.
pub proof fn law_finish_keeps_artifacts(m: Map<Seq<char>, StateView>, id: Seq<char>, k: Seq<char>)
    ensures
        spec_list_artifacts(spec_finish(m, id), k) == spec_list_artifacts(m, k),
        spec_finish(m, id).dom() =~= m.dom(),
{
}

} // verus!

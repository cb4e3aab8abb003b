//! Timed jobs: each registered job has a schedule and the time it runs
//! next; every minute the jobs that are due run. The jobs themselves are
//! values of types that implement `CronJobTrait`.
use vstd::prelude::*;
use crate::errors::MudError;
use crate::text::{push_str, string_of, int_digits};
use crate::util::{Keyed, key_get, key_in, keys_unique, find_key, get_key, put_key};
use crate::outside::current_timestamp;

verus! {

/// A job that runs on a schedule.
pub trait CronJobTrait: Send + Sync {
    /// The job's name.
    fn name(&self) -> &str;

    /// The job's schedule, in cron notation.
    fn schedule(&self) -> &str;

    /// Runs the job.
    fn execute(&self) -> Result<(), MudError>;
}

/// A registered job: its name, schedule, next run and whether it is on.
#[derive(Debug)]
pub struct CronTask {
    pub name: String,
    pub schedule: String,
    pub next_run: i64,
    pub enabled: bool,
}

impl Keyed for CronTask {
    open spec fn key_view(&self) -> Seq<char> {
        self.name@
    }

    fn key(&self) -> (r: &String) {
        &self.name
    }
}

/// The code that runs a registered job, under the job's name.
pub struct CronHandler {
    pub name: String,
    pub job: Box<dyn CronJobTrait>,
}

impl Keyed for CronHandler {
    open spec fn key_view(&self) -> Seq<char> {
        self.name@
    }

    fn key(&self) -> (r: &String) {
        &self.name
    }
}

/// The registered jobs, by name, and the code that runs each.
pub struct CronDaemon {
    pub tasks: Vec<CronTask>,
    pub handlers: Vec<CronHandler>,
}

/// Whether code to run job `name` is registered.
pub open spec fn has_handler(d: CronDaemon, name: Seq<char>) -> bool {
    key_get(d.handlers@, name) is Some
}

/// The job named `name`.
pub open spec fn task_of(d: CronDaemon, name: Seq<char>) -> Option<CronTask> {
    key_get(d.tasks@, name)
}

/// The names of the jobs of `s` on and due at `now`, in order.
pub open spec fn due_names(s: Seq<CronTask>, now: int) -> Seq<Seq<char>>
    decreases s.len(),
{
    if s.len() == 0 {
        seq![]
    } else {
        let rest = due_names(s.drop_last(), now);
        if s.last().enabled && now >= s.last().next_run { rest.push(s.last().name@) } else { rest }
    }
}

impl CronDaemon {
    /// One job per name.
    pub open spec fn wf(&self) -> bool {
        keys_unique(self.tasks@) && keys_unique(self.handlers@)
    }

    /// No jobs.
    pub fn new() -> (r: Self)
        ensures
            r.wf(),
            r.tasks@.len() == 0 && r.handlers@.len() == 0,
    {
        CronDaemon { tasks: Vec::new(), handlers: Vec::new() }
    }

    /// When a job with schedule `cron_expr` runs next after `now`: a minute
    /// later, whatever the schedule says.
    pub fn calculate_next_run_at(cron_expr: &str, now: i64) -> (r: i64)
        requires
            now <= i64::MAX - 60,
        ensures
            calculate_next_run_done(cron_expr, now, r),
    {
        now + 60
    }

    /// When a job runs next: a minute from now.
    pub fn calculate_next_run(cron_expr: &str) -> (r: i64)
        ensures
            exists|now: i64| #[trigger] calculate_next_run_done(cron_expr, now, r),
            -200_000_000_000_000 + 60 <= r <= 200_000_000_000_000 + 60,
    {
        let now = current_timestamp();
        Self::calculate_next_run_at(cron_expr, now)
    }

    /// Registers job `name` with `schedule` at `now`, on, to run a minute
    /// later, with `handler` to run it; a job of that name is replaced.
    pub fn register_at(&mut self, name: String, schedule: String, handler: Box<dyn CronJobTrait>, now: i64)
        requires
            old(self).wf(),
            now <= i64::MAX - 60,
        ensures
            register_done(*old(self), *final(self), name, schedule, now),
    {
        let next_run = Self::calculate_next_run_at("* * * * *", now);
        let key = name.clone();
        put_key(&mut self.tasks, CronTask { name, schedule, next_run, enabled: true });
        put_key(&mut self.handlers, CronHandler { name: key, job: handler });
    }

    /// Registers job `name` now (see `register_at`).
    pub fn register(&mut self, name: String, schedule: String, handler: Box<dyn CronJobTrait>)
        requires
            old(self).wf(),
        ensures
            exists|now: i64| #[trigger] register_done(*old(self), *final(self), name, schedule, now),
            final(self).wf(),
            task_of(*final(self), name@) matches Some(t) && t.name == name && t.schedule == schedule && t.enabled,
            forall|k: Seq<char>| k != name@ ==> #[trigger] task_of(*final(self), k) == task_of(*old(self), k),
            has_handler(*final(self), name@),
            forall|k: Seq<char>| k != name@ ==> #[trigger] key_get(final(self).handlers@, k) == key_get(old(self).handlers@, k),
    {
        let now = current_timestamp();
        self.register_at(name, schedule, handler, now);
    }

    /// Runs job `name` now, whatever its schedule: what its code gives, or
    /// `任务 <name> 不存在` when no code is registered for it.
    pub fn trigger(&self, name: &str) -> (r: Result<(), MudError>)
        ensures
            !has_handler(*self, name@) ==> (r matches Err(MudError::NotFound(m)) && m@ == "任务 "@ + name@ + " 不存在"@),
    {
        match get_key(&self.handlers, name) {
            Some(h) => h.job.execute(),
            None => Err(Self::missing_task(name)),
        }
    }

    /// The names of the jobs on and due at `now`, in order.
    pub fn due_tasks_at(&self, now: i64) -> (r: Vec<String>)
        ensures
            r@.map_values(|s: String| s@) == due_names(self.tasks@, now as int),
    {
        let s = &self.tasks;
        let mut r: Vec<String> = Vec::new();
        let mut i: usize = 0;
        while i < s.len()
            invariant
                i <= s@.len(),
                r@.map_values(|x: String| x@) == due_names(s@.take(i as int), now as int),
            decreases s.len() - i,
        {
            assert(s@.take(i as int + 1).drop_last() == s@.take(i as int));
            assert(s@.take(i as int + 1).last() == s@[i as int]);
            if s[i].enabled && now >= s[i].next_run {
                r.push(s[i].name.clone());
            }
            assert(r@.map_values(|x: String| x@) =~= due_names(s@.take(i as int + 1), now as int));
            i = i + 1;
        }
        assert(s@.take(s@.len() as int) == s@);
        r
    }

    /// Whether a job named `name` is registered.
    pub fn has_task(&self, name: &str) -> (r: bool)
        ensures
            r == task_of(*self, name@) is Some,
    {
        get_key(&self.tasks, name).is_some()
    }

    /// The refusal for a job that is not registered: `任务 <name> 不存在`.
    pub fn missing_task(name: &str) -> (r: MudError)
        ensures
            r matches MudError::NotFound(m) && m@ == "任务 "@ + name@ + " 不存在"@,
    {
        let mut m = string_of("任务 ");
        push_str(&mut m, name);
        push_str(&mut m, " 不存在");
        MudError::NotFound(m)
    }
}

impl Default for CronDaemon {
    fn default() -> (r: Self)
        ensures
            r.wf(),
            r.tasks@.len() == 0,
    {
        CronDaemon::new()
    }
}

/// Every five minutes: drop users that went idle.
pub struct CleanupIdleUsersJob;

impl CronJobTrait for CleanupIdleUsersJob {
    fn name(&self) -> &str {
        "cleanup_idle_users"
    }

    fn schedule(&self) -> &str {
        "*/5 * * * *"
    }

    fn execute(&self) -> Result<(), MudError> {
        Ok(())
    }
}

/// Every thirty minutes: save all data.
pub struct SaveAllDataJob;

impl CronJobTrait for SaveAllDataJob {
    fn name(&self) -> &str {
        "save_all_data"
    }

    fn schedule(&self) -> &str {
        "*/30 * * * *"
    }

    fn execute(&self) -> Result<(), MudError> {
        Ok(())
    }
}

/// Every hour: update the rankings.
pub struct UpdateRankingsJob;

impl CronJobTrait for UpdateRankingsJob {
    fn name(&self) -> &str {
        "update_rankings"
    }

    fn schedule(&self) -> &str {
        "0 * * * *"
    }

    fn execute(&self) -> Result<(), MudError> {
        Ok(())
    }
}

/// What `CronDaemon::calculate_next_run_at` promises: for the arguments given, `r` what it gives back.
pub open spec fn calculate_next_run_done(cron_expr: &str, now: i64, r: i64) -> bool {
    &&& (r == now + 60)
}

/// What `CronDaemon::register_at` promises: `o` is the value before the call, `f` the value after.
pub open spec fn register_done(
    o: CronDaemon, f: CronDaemon, name: String, schedule: String, now: i64) -> bool {
    &&& (f.wf())
    &&& (task_of(f, name@) == Some(CronTask { name, schedule, next_run: (now + 60) as i64, enabled: true }))
    &&& (forall|k: Seq<char>| k != name@ ==> #[trigger] task_of(f, k) == task_of(o, k))
    &&& (has_handler(f, name@))
    &&& (forall|k: Seq<char>| k != name@ ==> #[trigger] key_get(f.handlers@, k) == key_get(o.handlers@, k))
}

} // verus!

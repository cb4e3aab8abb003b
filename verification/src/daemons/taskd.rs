//! Tasks: their templates, which a player may take by level, prerequisite
//! and what they completed, and the players' task states.
use vstd::prelude::*;
use crate::text::{push_str, push_u64, push_i64, push_char, string_of, nat_digits, int_digits, str_eq};
use crate::util::{Keyed, key_get, key_in, keys_unique, get_key, put_key, has_str, contains_str};
use crate::player_state::PlayerState;

verus! {

/// The kind of a task.
#[derive(Clone, Copy, Debug, PartialEq, Eq, Structural)]
pub enum TaskType {
    Kill,
    Collect,
    Escort,
    Explore,
    Talk,
    Dungeon,
}

/// Where a player's task stands.
#[derive(Clone, Copy, Debug, PartialEq, Eq, Structural)]
pub enum TaskStatus {
    NotStarted,
    InProgress,
    Completed,
    Failed,
}

/// A task.
#[derive(Debug)]
pub struct Task {
    pub id: String,
    pub name: String,
    pub description: String,
    pub task_type: TaskType,
    pub target_id: String,
    pub target_count: i32,
    pub min_level: i32,
    pub max_level: i32,
    pub reward_exp: u32,
    pub reward_gold: u32,
    pub reward_items: Vec<(String, i32)>,
    pub prerequisite: Option<String>,
    pub auto_accept: bool,
}

/// Two tasks hold the same data.
pub open spec fn same_task(a: Task, b: Task) -> bool {
    &&& a.id == b.id && a.name == b.name && a.description == b.description && a.task_type == b.task_type
    &&& a.target_id == b.target_id && a.target_count == b.target_count && a.min_level == b.min_level && a.max_level == b.max_level
    &&& a.reward_exp == b.reward_exp && a.reward_gold == b.reward_gold && a.reward_items@ == b.reward_items@
    &&& a.prerequisite == b.prerequisite && a.auto_accept == b.auto_accept
}

impl Clone for Task {
    fn clone(&self) -> (r: Self)
        ensures
            same_task(r, *self),
    {
        let mut items: Vec<(String, i32)> = Vec::new();
        let mut i: usize = 0;
        while i < self.reward_items.len()
            invariant
                i <= self.reward_items@.len(),
                items@ == self.reward_items@.take(i as int),
            decreases self.reward_items.len() - i,
        {
            items.push((self.reward_items[i].0.clone(), self.reward_items[i].1));
            assert(items@ =~= self.reward_items@.take(i + 1));
            i = i + 1;
        }
        assert(self.reward_items@.take(i as int) =~= self.reward_items@);
        Task {
            id: self.id.clone(),
            name: self.name.clone(),
            description: self.description.clone(),
            task_type: self.task_type,
            target_id: self.target_id.clone(),
            target_count: self.target_count,
            min_level: self.min_level,
            max_level: self.max_level,
            reward_exp: self.reward_exp,
            reward_gold: self.reward_gold,
            reward_items: items,
            prerequisite: match &self.prerequisite {
                Some(p) => Some(p.clone()),
                None => None,
            },
            auto_accept: self.auto_accept,
        }
    }
}

/// A task with the events it triggers.
#[derive(Debug)]
pub struct TaskTemplate {
    pub task: Task,
    pub on_accept: Option<String>,
    pub on_complete: Option<String>,
    pub on_fail: Option<String>,
}

impl Keyed for TaskTemplate {
    open spec fn key_view(&self) -> Seq<char> {
        self.task.id@
    }

    fn key(&self) -> (r: &String) {
        &self.task.id
    }
}

/// The state of one task of a player.
#[derive(Debug)]
pub struct TaskState {
    pub task_id: String,
    pub status: TaskStatus,
}

/// A player's task states.
#[derive(Debug)]
pub struct PlayerTasks {
    pub userid: String,
    pub states: Vec<TaskState>,
}

impl Keyed for PlayerTasks {
    open spec fn key_view(&self) -> Seq<char> {
        self.userid@
    }

    fn key(&self) -> (r: &String) {
        &self.userid
    }
}

/// The task register and the players' task states.
#[derive(Debug)]
pub struct TaskDaemon {
    pub tasks: Vec<TaskTemplate>,
    pub player_tasks: Vec<PlayerTasks>,
}

/// A player may take the task: their level (as a signed 32-bit number) is
/// within its range, they completed its prerequisite, and not the task.
pub open spec fn task_open(t: Task, p: PlayerState) -> bool {
    let level = p.level as i32;
    &&& t.min_level <= level <= t.max_level
    &&& (t.prerequisite matches Some(q) ==> has_str(p.completed_quests@, q@))
    &&& !has_str(p.completed_quests@, t.id@)
}

/// The open tasks of the templates, in order.
pub open spec fn open_tasks(ts: Seq<TaskTemplate>, p: PlayerState) -> Seq<Task>
    decreases ts.len(),
{
    if ts.len() == 0 {
        Seq::empty()
    } else {
        let rest = open_tasks(ts.drop_last(), p);
        if task_open(ts.last().task, p) { rest.push(ts.last().task) } else { rest }
    }
}

/// The name of a kind of task.
pub open spec fn task_type_name(t: TaskType) -> Seq<char> {
    match t {
        TaskType::Kill => "击杀"@,
        TaskType::Collect => "收集"@,
        TaskType::Escort => "护送"@,
        TaskType::Explore => "探索"@,
        TaskType::Talk => "对话"@,
        TaskType::Dungeon => "副本"@,
    }
}

/// The first line of a task in the list.
pub open spec fn task_head(t: Task) -> Seq<char> {
    "§Y["@ + task_type_name(t.task_type) + "]§N "@ + t.name@ + " (Lv."@ + int_digits(t.min_level as int) + "-"@
        + int_digits(t.max_level as int) + ")\n"@
}

/// The lines of a task in the list.
pub open spec fn task_entry(t: Task) -> Seq<char> {
    task_head(t) + "  "@ + t.description@ + "\n  奖励: "@ + nat_digits(t.reward_exp as nat) + "经验, "@
        + nat_digits(t.reward_gold as nat) + "金币\n\n"@
}

fn push_task_entry(out: &mut String, t: &Task)
    ensures
        final(out)@ == old(out)@ + task_entry(*t),
{
    push_str(out, "§Y[");
    push_str(out, TaskDaemon::format_task_type(&t.task_type));
    push_str(out, "]§N ");
    push_str(out, t.name.as_str());
    push_str(out, " (Lv.");
    push_i64(out, t.min_level as i64);
    push_str(out, "-");
    push_i64(out, t.max_level as i64);
    push_str(out, ")\n");
    let ghost a = out@;
    assert(a =~= old(out)@ + task_head(*t));
    push_str(out, "  ");
    push_str(out, t.description.as_str());
    push_str(out, "\n  奖励: ");
    push_u64(out, t.reward_exp as u64);
    push_str(out, "经验, ");
    push_u64(out, t.reward_gold as u64);
    push_str(out, "金币\n\n");
}

/// The entries of tasks.
pub open spec fn task_entries(ts: Seq<Task>) -> Seq<char>
    decreases ts.len(),
{
    if ts.len() == 0 {
        Seq::empty()
    } else {
        task_entries(ts.drop_last()) + task_entry(ts.last())
    }
}

/// The ids of the player's tasks in progress whose template targets
/// `target`, in the player's order.
pub open spec fn progressed(states: Seq<TaskState>, tasks: Seq<TaskTemplate>, target: Seq<char>) -> Seq<Seq<char>>
    decreases states.len(),
{
    if states.len() == 0 {
        Seq::empty()
    } else {
        let rest = progressed(states.drop_last(), tasks, target);
        let s = states.last();
        if s.status == TaskStatus::InProgress && (key_get(tasks, s.task_id@) matches Some(t) && t.task.target_id@ == target) {
            rest.push(s.task_id@)
        } else {
            rest
        }
    }
}

/// `c` is a copy of the task of the template with the id.
pub open spec fn copy_of_task(c: Task, tasks: Seq<TaskTemplate>, id: Seq<char>) -> bool {
    key_get(tasks, id) matches Some(t) && same_task(c, t.task)
}

impl TaskDaemon {
    /// One template per id and one record per player.
    pub open spec fn wf(&self) -> bool {
        keys_unique(self.tasks@) && keys_unique(self.player_tasks@)
    }

    /// No tasks and no player states.
    pub fn new() -> (r: Self)
        ensures
            r.wf(),
            r.tasks@.len() == 0 && r.player_tasks@.len() == 0,
    {
        TaskDaemon { tasks: Vec::new(), player_tasks: Vec::new() }
    }

    /// Adds a task, replacing the one with the same id.
    pub fn add_task(&mut self, task: TaskTemplate)
        requires
            old(self).wf(),
        ensures
            final(self).wf(),
            final(self).player_tasks@ == old(self).player_tasks@,
            key_get(final(self).tasks@, task.task.id@) == Some(task),
            forall|k: Seq<char>| k != task.task.id@ ==> #[trigger] key_get(final(self).tasks@, k) == key_get(old(self).tasks@, k),
    {
        put_key(&mut self.tasks, task);
    }

    /// The task with the id.
    pub fn get_task(&self, task_id: &str) -> (r: Option<&TaskTemplate>)
        ensures
            r matches Some(t) ==> key_get(self.tasks@, task_id@) == Some(*t),
            r is None <==> key_get(self.tasks@, task_id@) is None,
    {
        get_key(&self.tasks, task_id)
    }

    /// The tasks the player may take, in the register's order.
    pub fn get_available_tasks(&self, player: &PlayerState) -> (r: Vec<&Task>)
        ensures
            r@.map_values(|t: &Task| *t) == open_tasks(self.tasks@, *player),
    {
        let level = player.level as i32;
        let mut r: Vec<&Task> = Vec::new();
        let mut i: usize = 0;
        while i < self.tasks.len()
            invariant
                i <= self.tasks@.len(),
                level == player.level as i32,
                r@.map_values(|t: &Task| *t) == open_tasks(self.tasks@.take(i as int), *player),
            decreases self.tasks.len() - i,
        {
            assert(self.tasks@.take(i + 1).drop_last() =~= self.tasks@.take(i as int));
            let task = &self.tasks[i].task;
            let mut ok = task.min_level <= level && level <= task.max_level;
            if ok {
                match &task.prerequisite {
                    Some(q) => {
                        if !contains_str(&player.completed_quests, q.as_str()) {
                            ok = false;
                        }
                    },
                    None => {},
                }
            }
            if ok && contains_str(&player.completed_quests, task.id.as_str()) {
                ok = false;
            }
            if ok {
                let ghost r0 = r@.map_values(|t: &Task| *t);
                r.push(task);
                assert(r@.map_values(|t: &Task| *t) =~= r0.push(*task));
            }
            i = i + 1;
        }
        assert(self.tasks@.take(i as int) =~= self.tasks@);
        r
    }

    /// The player's tasks in progress whose target is `target_id`, as
    /// copies, in the player's order. Progress itself is not counted yet:
    /// the count is not used.
    pub fn check_progress(&mut self, userid: &str, target_id: &str, count: i32) -> (r: Vec<Task>)
        ensures
            final(self).tasks@ == old(self).tasks@ && final(self).player_tasks@ == old(self).player_tasks@,
            ({
                let ids = match key_get(old(self).player_tasks@, userid@) {
                    Some(p) => progressed(p.states@, old(self).tasks@, target_id@),
                    None => Seq::empty(),
                };
                &&& r@.len() == ids.len()
                &&& forall|j: int| 0 <= j < r@.len() ==> copy_of_task(#[trigger] r@[j], old(self).tasks@, ids[j])
            }),
    {
        let mut out: Vec<Task> = Vec::new();
        match get_key(&self.player_tasks, userid) {
            Some(p) => {
                let ghost ss = p.states@;
                let mut i: usize = 0;
                while i < p.states.len()
                    invariant
                        i <= ss.len(),
                        ss == p.states@,
                        key_get(self.player_tasks@, userid@) == Some(*p),
                        out@.len() == progressed(ss.take(i as int), self.tasks@, target_id@).len(),
                        forall|j: int| 0 <= j < out@.len() ==> copy_of_task(#[trigger] out@[j], self.tasks@,
                            progressed(ss.take(i as int), self.tasks@, target_id@)[j]),
                    decreases p.states.len() - i,
                {
                    assert(ss.take(i + 1).drop_last() =~= ss.take(i as int));
                    assert(ss.take(i + 1).last() == ss[i as int]);
                    let ghost prog0 = progressed(ss.take(i as int), self.tasks@, target_id@);
                    let ghost o0 = out@;
                    let s = &p.states[i];
                    if s.status == TaskStatus::InProgress {
                        match get_key(&self.tasks, s.task_id.as_str()) {
                            Some(t) => {
                                if str_eq(t.task.target_id.as_str(), target_id) {
                                    let c = t.task.clone();
                                    out.push(c);
                                    proof {
                                        let prog1 = progressed(ss.take(i + 1), self.tasks@, target_id@);
                                        assert(prog1 == prog0.push(s.task_id@));
                                        assert forall|j: int| 0 <= j < out@.len() implies copy_of_task(#[trigger] out@[j], self.tasks@, prog1[j]) by {
                                            if j < o0.len() {
                                                assert(out@[j] == o0[j]);
                                                assert(prog1[j] == prog0[j]);
                                            } else {
                                                assert(prog1[j] == s.task_id@);
                                                assert(key_get(self.tasks@, s.task_id@) == Some(*t));
                                                assert(same_task(out@[j], t.task));
                                            }
                                        }
                                    }
                                } else {
                                    assert(progressed(ss.take(i + 1), self.tasks@, target_id@) == prog0);
                                }
                            },
                            None => {
                                assert(progressed(ss.take(i + 1), self.tasks@, target_id@) == prog0);
                            },
                        }
                    } else {
                        assert(progressed(ss.take(i + 1), self.tasks@, target_id@) == prog0);
                    }
                    i = i + 1;
                }
                assert(ss.take(i as int) =~= ss);
            },
            None => {},
        }
        out
    }

    /// The list of tasks, or a line saying there are none.
    pub fn format_task_list(&self, tasks: &[&Task]) -> (r: String)
        ensures
            r@ == "§H=== 可接任务 ===§N\n"@ + if tasks@.len() == 0 {
                "暂时没有可接任务。\n"@
            } else {
                task_entries(tasks@.map_values(|t: &Task| *t))
            },
    {
        let mut out = string_of("§H=== 可接任务 ===§N\n");
        if tasks.len() == 0 {
            push_str(&mut out, "暂时没有可接任务。\n");
        } else {
            let ghost base = out@;
            let ghost s = tasks@.map_values(|t: &Task| *t);
            let mut i: usize = 0;
            while i < tasks.len()
                invariant
                    i <= tasks@.len(),
                    s == tasks@.map_values(|t: &Task| *t),
                    out@ == base + task_entries(s.take(i as int)),
                decreases tasks.len() - i,
            {
                assert(s.take(i + 1).drop_last() =~= s.take(i as int));
                let t = tasks[i];
                push_task_entry(&mut out, t);
                i = i + 1;
            }
            assert(s.take(i as int) =~= s);
        }
        out
    }

    /// The name of a kind of task.
    pub fn format_task_type(task_type: &TaskType) -> (r: &'static str)
        ensures
            r@ == task_type_name(*task_type),
    {
        match task_type {
            TaskType::Kill => "击杀",
            TaskType::Collect => "收集",
            TaskType::Escort => "护送",
            TaskType::Explore => "探索",
            TaskType::Talk => "对话",
            TaskType::Dungeon => "副本",
        }
    }

    /// Adds the starting task 野猪威胁: kill five boars at levels 1 to 10,
    /// for 100 experience and 50 gold.
    pub fn init_default_tasks(&mut self)
        requires
            old(self).wf(),
        ensures
            final(self).wf(),
            final(self).player_tasks@ == old(self).player_tasks@,
            key_get(final(self).tasks@, "quest_kill_boars"@) matches Some(t) && {
                &&& t.task.name@ == "野猪威胁"@ && t.task.task_type == TaskType::Kill && t.task.target_id@ == "boar"@
                &&& t.task.target_count == 5 && t.task.min_level == 1 && t.task.max_level == 10
                &&& t.task.reward_exp == 100 && t.task.reward_gold == 50 && t.task.reward_items@.len() == 0
                &&& t.task.prerequisite is None && t.task.auto_accept
                &&& t.on_accept is None && t.on_fail is None
                &&& t.on_complete matches Some(c) && c@ == "give_newbie_weapon"@
            },
    {
        let kill_boars = TaskTemplate {
            task: Task {
                id: string_of("quest_kill_boars"),
                name: string_of("野猪威胁"),
                description: string_of("新手村外的野猪最近很猖獗，去解决5只野猪吧！"),
                task_type: TaskType::Kill,
                target_id: string_of("boar"),
                target_count: 5,
                min_level: 1,
                max_level: 10,
                reward_exp: 100,
                reward_gold: 50,
                reward_items: Vec::new(),
                prerequisite: None,
                auto_accept: true,
            },
            on_accept: None,
            on_complete: Some(string_of("give_newbie_weapon")),
            on_fail: None,
        };
        self.add_task(kill_boars);
    }
}

impl Default for TaskDaemon {
    fn default() -> (r: Self)
        ensures
            r.wf(),
            r.player_tasks@.len() == 0,
            key_get(r.tasks@, "quest_kill_boars"@) is Some,
    {
        let mut d = Self::new();
        d.init_default_tasks();
        d
    }
}

} // verus!

//! The configuration model: tasks, their run steps, and packages of tasks.
use vstd::prelude::*;

use crate::names::{parse_task_name, TaskName, TaskNameView};
use crate::vec_map::{first_index, VecMap};

verus! {

/// One step of a task, in mathematical form.
pub enum RunView {
    Command { command: Seq<char>, silent: Option<bool> },
    Task(TaskNameView),
}

/// A task in mathematical form.
pub struct TaskView {
    pub internal: bool,
    pub description: Option<Seq<char>>,
    pub run: Seq<RunView>,
    pub silent: bool,
}

/// A command string with a leading `@` removed, and whether there was one.
pub open spec fn strip_at(s: Seq<char>) -> (Seq<char>, bool) {
    if s.len() > 0 && s[0] == '@' {
        (s.skip(1), true)
    } else {
        (s, false)
    }
}

/// The silence of a command step: its own setting, else the task's.
pub open spec fn effective_silent(step: Option<bool>, task: bool) -> bool {
    match step {
        Some(s) => s,
        None => task,
    }
}

/// One step of a task: a shell command, or a reference to another task.
#[derive(Debug, Clone, PartialEq, Eq)]
pub enum Run {
    Command { command: String, silent: Option<bool> },
    Task(TaskName),
}

impl View for Run {
    type V = RunView;

    open spec fn view(&self) -> RunView {
        match self {
            Run::Command { command, silent } => RunView::Command { command: command@, silent: *silent },
            Run::Task(name) => RunView::Task(name@),
        }
    }
}

/// Splits a leading `@` off a command string.
fn split_at_sign(s: &str) -> (r: (String, bool))
    ensures
        r.0@ == strip_at(s@).0,
        r.1 == strip_at(s@).1,
{
    let n = s.unicode_len();
    if n > 0 && s.get_char(0) == '@' {
        let rest = s.substring_char(1, n).to_owned();
        assert(rest@ =~= s@.skip(1));
        (rest, true)
    } else {
        (s.to_owned(), false)
    }
}

impl Run {
    /// Reads a step written as a bare string: a command, silent when it starts with `@`.
    pub fn shorthand(s: &str) -> (r: Run)
        ensures
            r@ == (RunView::Command {
                command: strip_at(s@).0,
                silent: if strip_at(s@).1 {
                    Some(true)
                } else {
                    None
                },
            }),
    {
        let (command, at) = split_at_sign(s);
        let silent = if at {
            Some(true)
        } else {
            None
        };
        Run::Command { command, silent }
    }
}

/// A named unit of work: an ordered list of steps.
#[derive(Debug, Clone, PartialEq, Eq)]
pub struct Task {
    internal: bool,
    description: Option<String>,
    run: Vec<Run>,
    silent: bool,
}

pub open spec fn runs_view(run: Seq<Run>) -> Seq<RunView> {
    run.map_values(|r: Run| r@)
}

impl View for Task {
    type V = TaskView;

    closed spec fn view(&self) -> TaskView {
        TaskView {
            internal: self.internal,
            description: match self.description {
                Some(d) => Some(d@),
                None => None,
            },
            run: runs_view(self.run@),
            silent: self.silent,
        }
    }
}

impl Task {
    /// A task from its parts: hidden from default listings when `internal`; `silent`
    /// is the default of its command steps.
    pub fn new(internal: bool, description: Option<String>, run: Vec<Run>, silent: bool) -> (r: Task)
        ensures
            r@ == (TaskView {
                internal,
                description: match description {
                    Some(d) => Some(d@),
                    None => None,
                },
                run: runs_view(run@),
                silent,
            }),
    {
        Task { internal, description, run, silent }
    }

    /// Reads a task written as a bare string: one command, with the whole task
    /// silent when the string starts with `@`.
    pub fn shorthand(s: &str) -> (r: Task)
        ensures
            r@ == (TaskView {
                internal: false,
                description: None,
                run: seq![RunView::Command { command: strip_at(s@).0, silent: None }],
                silent: strip_at(s@).1,
            }),
    {
        let (command, silent) = split_at_sign(s);
        let mut run: Vec<Run> = Vec::new();
        run.push(Run::Command { command, silent: None });
        let r = Task { internal: false, description: None, run, silent };
        assert(r@.run =~= seq![RunView::Command { command: strip_at(s@).0, silent: None }]);
        r
    }

    pub fn description(&self) -> (r: Option<&str>)
        ensures
            match self@.description {
                Some(d) => r matches Some(s) && s@ == d,
                None => r is None,
            },
    {
        match &self.description {
            Some(d) => Some(d.as_str()),
            None => None,
        }
    }

    pub fn is_internal(&self) -> (r: bool)
        ensures
            r == self@.internal,
    {
        self.internal
    }

    /// Whether command steps without their own setting run silently.
    pub fn is_silent(&self) -> (r: bool)
        ensures
            r == self@.silent,
    {
        self.silent
    }

    /// The steps, in order.
    pub fn steps(&self) -> (r: &[Run])
        ensures
            r@.len() == self@.run.len(),
            forall|i: int| 0 <= i < r@.len() ==> (#[trigger] r@[i])@ == self@.run[i],
    {
        self.run.as_slice()
    }
}

/// The tasks of one package, by name, in declaration order.
#[derive(Debug, Clone)]
pub struct Tasks(pub(crate) VecMap<Task>);

pub open spec fn tasks_view(s: Seq<(Seq<char>, Task)>) -> Seq<(Seq<char>, TaskView)> {
    s.map_values(|e: (Seq<char>, Task)| (e.0, e.1@))
}

impl View for Tasks {
    type V = Seq<(Seq<char>, TaskView)>;

    closed spec fn view(&self) -> Seq<(Seq<char>, TaskView)> {
        tasks_view(self.0@)
    }
}

/// Indices, in order, of the tasks among the first `n` that are not internal: those
/// a default listing shows.
pub open spec fn public_before(s: Seq<(Seq<char>, TaskView)>, n: int) -> Seq<int>
    decreases n,
{
    if n <= 0 {
        Seq::empty()
    } else if s[n - 1].1.internal {
        public_before(s, n - 1)
    } else {
        public_before(s, n - 1).push(n - 1)
    }
}

impl Tasks {
    /// Indices of the tasks that are not internal, in declaration order.
    pub fn public(&self) -> (r: Vec<usize>)
        ensures
            r@.map_values(|i: usize| i as int) == public_before(self@, self@.len() as int),
    {
        let mut out: Vec<usize> = Vec::new();
        let n = self.0.len();
        let mut i: usize = 0;
        assert(out@.map_values(|i: usize| i as int) =~= Seq::<int>::empty());
        while i < n
            invariant
                i <= n,
                n == self@.len(),
                out@.map_values(|i: usize| i as int) == public_before(self@, i as int),
            decreases n - i,
        {
            let task = self.get_by_index(i);
            if !task.is_internal() {
                let ghost before = out@;
                out.push(i);
                assert(out@.map_values(|i: usize| i as int) =~= before.map_values(|i: usize| i as int).push(i as int));
            }
            i = i + 1;
        }
        out
    }

    /// No tasks.
    pub fn new() -> (r: Tasks)
        ensures
            r@ == Seq::<(Seq<char>, TaskView)>::empty(),
    {
        let r = Tasks(VecMap::new());
        assert(r@ =~= Seq::<(Seq<char>, TaskView)>::empty());
        r
    }

    /// Adds a task after the existing ones.
    pub fn insert(&mut self, name: String, task: Task)
        ensures
            final(self)@ == old(self)@.push((name@, task@)),
    {
        let ghost t = task@;
        self.0.insert(name, task);
        assert(final(self)@ =~= old(self)@.push((name@, t)));
    }

    pub fn len(&self) -> (r: usize)
        ensures
            r == self@.len(),
    {
        self.0.len()
    }

    /// The task that a lookup of `name` finds: the first one declared under it.
    pub fn get(&self, name: &str) -> (r: Option<&Task>)
        ensures
            match first_index(self@, name@) {
                None => r is None,
                Some(i) => r matches Some(t) && t@ == self@[i].1,
            },
    {
        proof {
            crate::vec_map::lemma_first_index_keys(self.0@, self@, name@, self@.len() as int);
            crate::vec_map::lemma_first_index_before(self.0@, name@, self@.len() as int);
        }
        self.0.get(name)
    }

    /// Index of the task that a lookup of `name` finds.
    pub fn get_index(&self, name: &str) -> (r: Option<usize>)
        ensures
            r is None ==> first_index(self@, name@) is None,
            r matches Some(i) ==> first_index(self@, name@) == Some(i as int) && i < self@.len(),
    {
        proof {
            crate::vec_map::lemma_first_index_keys(self.0@, self@, name@, self@.len() as int);
        }
        self.0.get_index(name)
    }

    /// The task at `index`.
    pub fn get_by_index(&self, index: usize) -> (r: &Task)
        requires
            index < self@.len(),
        ensures
            r@ == self@[index as int].1,
    {
        self.0.get_by_index(index).unwrap()
    }

    /// The tasks with their names, in declaration order.
    pub fn iter(&self) -> (r: &[(String, Task)])
        ensures
            r@.len() == self@.len(),
            forall|i: int| 0 <= i < r@.len() ==> (#[trigger] r@[i]).0@ == self@[i].0 && r@[i].1@ == self@[i].1,
    {
        self.0.iter()
    }
}

/// A named collection of tasks, loaded from one configuration file.
#[derive(Debug, Clone)]
pub struct Package {
    pub(crate) tasks: Tasks,
}

impl View for Package {
    type V = Seq<(Seq<char>, TaskView)>;

    closed spec fn view(&self) -> Seq<(Seq<char>, TaskView)> {
        self.tasks@
    }
}

impl Package {
    pub fn new(tasks: Tasks) -> (r: Package)
        ensures
            r@ == tasks@,
    {
        Package { tasks }
    }

    pub fn tasks(&self) -> (r: &Tasks)
        ensures
            r@ == self@,
    {
        &self.tasks
    }
}

/// The field of a run table that a key fills.
#[derive(Debug, Clone, Copy, PartialEq, Eq, Structural)]
pub enum RunKey {
    Command,
    Silent,
    Task,
}

/// A value read from a run table, for the field its key named.
#[derive(Debug, Clone, PartialEq, Eq)]
pub enum RunValue {
    Command(String),
    Silent(bool),
    Task(String),
}

/// Why a run table is refused.
#[derive(Debug, Clone, PartialEq, Eq)]
pub enum RunFieldError {
    /// A key that the table's shape does not have.
    Unknown(String),
    /// A field given twice.
    Duplicate(RunKey),
    /// Neither a command nor a task.
    Missing,
}

pub enum RunFieldErrorView {
    Unknown(Seq<char>),
    Duplicate(RunKey),
    Missing,
}

impl View for RunFieldError {
    type V = RunFieldErrorView;

    open spec fn view(&self) -> RunFieldErrorView {
        match self {
            RunFieldError::Unknown(k) => RunFieldErrorView::Unknown(k@),
            RunFieldError::Duplicate(k) => RunFieldErrorView::Duplicate(*k),
            RunFieldError::Missing => RunFieldErrorView::Missing,
        }
    }
}

/// The field a key names: `command` or `cmd`, `silent`, `task`.
pub open spec fn run_key_of(k: Seq<char>) -> Option<RunKey> {
    if k == "command"@ || k == "cmd"@ {
        Some(RunKey::Command)
    } else if k == "silent"@ {
        Some(RunKey::Silent)
    } else if k == "task"@ {
        Some(RunKey::Task)
    } else {
        None
    }
}

/// The fields of a run table read so far.
pub struct RunTableView {
    pub command: Option<Seq<char>>,
    pub silent: Option<bool>,
    pub task: Option<TaskNameView>,
}

impl RunTableView {
    /// What a table in this state does with the next key: the field it fills, or why
    /// the table is refused. A command table (`command`, `silent`) and a task table
    /// (`task`) exclude each other's keys.
    pub open spec fn accept(self, k: Seq<char>) -> Result<RunKey, RunFieldErrorView> {
        match run_key_of(k) {
            None => Err(RunFieldErrorView::Unknown(k)),
            Some(RunKey::Command) => if self.task is Some {
                Err(RunFieldErrorView::Unknown(k))
            } else if self.command is Some {
                Err(RunFieldErrorView::Duplicate(RunKey::Command))
            } else {
                Ok(RunKey::Command)
            },
            Some(RunKey::Silent) => if self.task is Some {
                Err(RunFieldErrorView::Unknown(k))
            } else if self.silent is Some {
                Err(RunFieldErrorView::Duplicate(RunKey::Silent))
            } else {
                Ok(RunKey::Silent)
            },
            Some(RunKey::Task) => if self.command is Some || self.silent is Some {
                Err(RunFieldErrorView::Unknown(k))
            } else if self.task is Some {
                Err(RunFieldErrorView::Duplicate(RunKey::Task))
            } else {
                Ok(RunKey::Task)
            },
        }
    }

    /// The step a finished table stands for.
    pub open spec fn finish(self) -> Result<RunView, RunFieldErrorView> {
        match self.command {
            Some(command) => Ok(RunView::Command { command, silent: self.silent }),
            None => match self.task {
                Some(t) => Ok(RunView::Task(t)),
                None => Err(RunFieldErrorView::Missing),
            },
        }
    }
}

/// A run step written as a table, read one key and value at a time.
pub struct RunTable {
    command: Option<String>,
    silent: Option<bool>,
    task: Option<TaskName>,
}

impl View for RunTable {
    type V = RunTableView;

    closed spec fn view(&self) -> RunTableView {
        RunTableView {
            command: match self.command {
                Some(c) => Some(c@),
                None => None,
            },
            silent: self.silent,
            task: match self.task {
                Some(t) => Some(t@),
                None => None,
            },
        }
    }
}

/// Whether `s` is the text `lit`.
fn same_text(s: &str, lit: &str) -> (r: bool)
    ensures
        r == (s@ == lit@),
{
    s.to_owned() == lit.to_owned()
}

impl RunTable {
    /// A table with no field read yet.
    pub fn new() -> (r: RunTable)
        ensures
            r@ == (RunTableView { command: None, silent: None, task: None }),
    {
        RunTable { command: None, silent: None, task: None }
    }

    /// The field that `key` fills next, or why the table is refused.
    pub fn accept(&self, key: &str) -> (r: Result<RunKey, RunFieldError>)
        ensures
            match self@.accept(key@) {
                Ok(k) => r == Ok::<RunKey, RunFieldError>(k),
                Err(e) => r matches Err(f) && f@ == e,
            },
    {
        let kind = if same_text(key, "command") || same_text(key, "cmd") {
            Some(RunKey::Command)
        } else if same_text(key, "silent") {
            Some(RunKey::Silent)
        } else if same_text(key, "task") {
            Some(RunKey::Task)
        } else {
            None
        };
        let commandish = self.command.is_some() || self.silent.is_some();
        match kind {
            None => Err(RunFieldError::Unknown(key.to_owned())),
            Some(RunKey::Command) => if self.task.is_some() {
                Err(RunFieldError::Unknown(key.to_owned()))
            } else if self.command.is_some() {
                Err(RunFieldError::Duplicate(RunKey::Command))
            } else {
                Ok(RunKey::Command)
            },
            Some(RunKey::Silent) => if self.task.is_some() {
                Err(RunFieldError::Unknown(key.to_owned()))
            } else if self.silent.is_some() {
                Err(RunFieldError::Duplicate(RunKey::Silent))
            } else {
                Ok(RunKey::Silent)
            },
            Some(RunKey::Task) => if commandish {
                Err(RunFieldError::Unknown(key.to_owned()))
            } else if self.task.is_some() {
                Err(RunFieldError::Duplicate(RunKey::Task))
            } else {
                Ok(RunKey::Task)
            },
        }
    }

    /// Records a value; a task reference is read from its text.
    pub fn fill(&mut self, value: RunValue)
        ensures
            match value {
                RunValue::Command(c) => final(self)@ == (RunTableView { command: Some(c@), ..old(self)@ }),
                RunValue::Silent(b) => final(self)@ == (RunTableView { silent: Some(b), ..old(self)@ }),
                RunValue::Task(t) => final(self)@ == (RunTableView {
                    task: Some(parse_task_name(t@)),
                    ..old(self)@
                }),
            },
    {
        match value {
            RunValue::Command(c) => self.command = Some(c),
            RunValue::Silent(b) => self.silent = Some(b),
            RunValue::Task(t) => self.task = Some(TaskName::new(t.as_str())),
        }
    }

    /// The step the table stands for: a command when one was given, else a task
    /// reference; a table with neither is refused.
    pub fn finish(self) -> (r: Result<Run, RunFieldError>)
        ensures
            match self@.finish() {
                Ok(v) => r matches Ok(run) && run@ == v,
                Err(e) => r matches Err(f) && f@ == e,
            },
    {
        match self.command {
            Some(command) => Ok(Run::Command { command, silent: self.silent }),
            None => match self.task {
                Some(t) => Ok(Run::Task(t)),
                None => Err(RunFieldError::Missing),
            },
        }
    }
}

} // verus!

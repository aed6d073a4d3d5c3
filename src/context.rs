//! The project context and the plan builder that expands tasks into commands.
use vstd::prelude::*;

use crate::config::{effective_silent, Package, Run, RunView, Task, TaskView};
use crate::tools::{DownloadManager, Tool};
use crate::names::{AbsoluteTaskName, AbsoluteTaskNameView, TaskNameView};
use crate::vec_map::{first_index, first_index_before, lemma_first_index_before, lemma_first_index_keys, lemma_first_index_push, VecMap};

verus! {

/// The tasks of a package, in mathematical form.
pub type PackageView = Seq<(Seq<char>, TaskView)>;

/// A context in mathematical form.
pub struct ContextView {
    pub root: Seq<char>,
    pub env_files: Seq<Seq<char>>,
    pub local: Option<Seq<char>>,
    pub packages: Seq<(Seq<char>, PackageView)>,
    pub tools: Seq<(Seq<char>, Tool)>,
}

/// One shell invocation of a plan, in mathematical form.
pub struct PlanEntryView {
    pub task: AbsoluteTaskNameView,
    pub directory: Seq<char>,
    pub command: Seq<char>,
    pub silent: bool,
}

/// Why a task cannot be expanded, in mathematical form.
pub enum PlanErrorView {
    PackageNotLoaded(Seq<char>),
    TaskNotFound(AbsoluteTaskNameView),
    Cycle(AbsoluteTaskNameView),
}

/// Working directory of a package: the project root joined with the package's path.
pub open spec fn package_directory(root: Seq<char>, package: Seq<char>) -> Seq<char> {
    if package.len() == 0 {
        root
    } else {
        root + seq!['/'] + package
    }
}

/// Where a task lives: the index of its package and its index within that package.
pub open spec fn locate_task(cv: ContextView, name: AbsoluteTaskNameView) -> Result<(int, int), PlanErrorView> {
    match first_index(cv.packages, name.package()) {
        None => Err(PlanErrorView::PackageNotLoaded(name.package())),
        Some(p) => match first_index(cv.packages[p].1, name.task()) {
            None => Err(PlanErrorView::TaskNotFound(name)),
            Some(t) => Ok((p, t)),
        },
    }
}

/// The commands that task `name` stands for, in order. Each command step of the task
/// gives one entry in the task's package directory; each task step is resolved
/// against the package of `name`, the one it is written in, and expanded in place.
/// `path` holds the tasks being expanded around this one: meeting one of them again
/// is a cycle. Every expansion consumes one unit of `fuel`; running out also counts
/// as a cycle, and `lemma_fuel_suffices` shows that it changes nothing once the fuel
/// exceeds the number of tasks not on the path.
pub open spec fn expand(cv: ContextView, name: AbsoluteTaskNameView, path: Seq<(int, int)>, fuel: nat) -> Result<Seq<PlanEntryView>, PlanErrorView>
    decreases fuel, 0int,
{
    match locate_task(cv, name) {
        Err(e) => Err(e),
        Ok((p, t)) => if fuel == 0 || path.contains((p, t)) {
            Err(PlanErrorView::Cycle(name))
        } else {
            expand_steps(cv, name, cv.packages[p].1[t].1, path.push((p, t)), 0, (fuel - 1) as nat)
        },
    }
}

/// The commands that the steps of `task` from the `i`-th on stand for.
pub open spec fn expand_steps(cv: ContextView, name: AbsoluteTaskNameView, task: TaskView, path: Seq<(int, int)>, i: int, fuel: nat) -> Result<Seq<PlanEntryView>, PlanErrorView>
    decreases fuel, task.run.len() - i,
{
    if i < 0 || i >= task.run.len() {
        Ok(Seq::empty())
    } else {
        match task.run[i] {
            RunView::Command { command, silent } => match expand_steps(cv, name, task, path, i + 1, fuel) {
                Err(e) => Err(e),
                Ok(rest) => Ok(seq![PlanEntryView {
                    task: name,
                    directory: package_directory(cv.root, name.package()),
                    command,
                    silent: effective_silent(silent, task.silent),
                }] + rest),
            },
            RunView::Task(reference) => match expand(cv, reference.resolve(name.package()), path, fuel) {
                Err(e) => Err(e),
                Ok(first) => match expand_steps(cv, name, task, path, i + 1, fuel) {
                    Err(e) => Err(e),
                    Ok(rest) => Ok(first + rest),
                },
            },
        }
    }
}

/// How many tasks the packages hold, counting the first `n` packages.
pub open spec fn task_count_before(packages: Seq<(Seq<char>, PackageView)>, n: int) -> nat
    decreases n,
{
    if n <= 0 {
        0
    } else {
        task_count_before(packages, n - 1) + packages[n - 1].1.len()
    }
}

/// The expansion budget of a push: one more than the number of tasks, capped at the
/// largest machine word.
pub open spec fn plan_fuel(cv: ContextView) -> nat {
    let n = task_count_before(cv.packages, cv.packages.len() as int);
    if n < usize::MAX {
        (n + 1) as nat
    } else {
        usize::MAX as nat
    }
}

/// The number of tasks in the context.
pub open spec fn task_count(cv: ContextView) -> nat {
    task_count_before(cv.packages, cv.packages.len() as int)
}

/// A path of distinct tasks, each of which exists in the context.
pub open spec fn valid_path(cv: ContextView, path: Seq<(int, int)>) -> bool {
    &&& path.no_duplicates()
    &&& forall|i: int|
        0 <= i < path.len() ==> 0 <= (#[trigger] path[i]).0 < cv.packages.len() && 0 <= path[i].1
            < cv.packages[path[i].0].1.len()
}

proof fn lemma_count_monotone(packages: Seq<(Seq<char>, PackageView)>, a: int, b: int)
    requires
        0 <= a <= b,
    ensures
        task_count_before(packages, a) <= task_count_before(packages, b),
    decreases b - a,
{
    if a < b {
        lemma_count_monotone(packages, a, b - 1);
    }
}

/// Position of a task when all tasks are numbered package by package.
spec fn global_index(packages: Seq<(Seq<char>, PackageView)>, pt: (int, int)) -> int {
    task_count_before(packages, pt.0) + pt.1
}

/// A path of distinct existing tasks is no longer than the number of tasks.
proof fn lemma_path_bound(cv: ContextView, path: Seq<(int, int)>)
    requires
        valid_path(cv, path),
    ensures
        path.len() <= task_count(cv),
{
    let ps = cv.packages;
    let n = task_count(cv) as int;
    let s = path.map_values(|pt: (int, int)| global_index(ps, pt));
    assert forall|i: int| 0 <= i < s.len() implies 0 <= #[trigger] s[i] < n by {
        let (p, t) = path[i];
        assert(task_count_before(ps, p + 1) == task_count_before(ps, p) + ps[p].1.len());
        lemma_count_monotone(ps, p + 1, ps.len() as int);
    }
    assert forall|i: int, j: int| 0 <= i < s.len() && 0 <= j < s.len() && i != j implies s[i] != s[j] by {
        let (pa, ta) = path[i];
        let (pb, tb) = path[j];
        assert(task_count_before(ps, pa + 1) == task_count_before(ps, pa) + ps[pa].1.len());
        assert(task_count_before(ps, pb + 1) == task_count_before(ps, pb) + ps[pb].1.len());
        if pa < pb {
            lemma_count_monotone(ps, pa + 1, pb);
        } else if pb < pa {
            lemma_count_monotone(ps, pb + 1, pa);
        } else {
            assert(path[i] != path[j]);
        }
    }
    assert(s.no_duplicates());
    s.unique_seq_to_set();
    vstd::set_lib::lemma_int_range(0, n);
    assert(s.to_set().subset_of(vstd::set_lib::set_int_range(0, n)));
    vstd::set_lib::lemma_len_subset(s.to_set(), vstd::set_lib::set_int_range(0, n));
}

/// Fuel beyond the number of tasks that are not on the path never decides an
/// expansion: any two such budgets give the same result.
pub proof fn lemma_fuel_suffices(cv: ContextView, name: AbsoluteTaskNameView, path: Seq<(int, int)>, f1: nat, f2: nat)
    requires
        valid_path(cv, path),
        f1 + path.len() > task_count(cv),
        f2 + path.len() > task_count(cv),
    ensures
        expand(cv, name, path, f1) == expand(cv, name, path, f2),
    decreases f1, 0int,
{
    match locate_task(cv, name) {
        Err(_) => {},
        Ok((p, t)) => {
            if !path.contains((p, t)) {
                lemma_first_index_before(cv.packages, name.package(), cv.packages.len() as int);
                lemma_first_index_before(cv.packages[p].1, name.task(), cv.packages[p].1.len() as int);
                let next = path.push((p, t));
                assert forall|i: int| 0 <= i < path.len() implies path[i] != (p, t) by {
                    if path[i] == (p, t) {
                        assert(path.contains((p, t)));
                    }
                }
                assert(valid_path(cv, next)) by {
                    assert forall|i: int| 0 <= i < next.len() implies 0 <= (#[trigger] next[i]).0 < cv.packages.len()
                        && 0 <= next[i].1 < cv.packages[next[i].0].1.len() by {
                        if i < path.len() {
                            assert(next[i] == path[i]);
                        }
                    }
                }
                lemma_path_bound(cv, next);
                lemma_steps_fuel_suffices(cv, name, cv.packages[p].1[t].1, next, 0, (f1 - 1) as nat, (f2 - 1) as nat);
            }
        },
    }
}

proof fn lemma_steps_fuel_suffices(
    cv: ContextView,
    name: AbsoluteTaskNameView,
    task: TaskView,
    path: Seq<(int, int)>,
    i: int,
    f1: nat,
    f2: nat,
)
    requires
        valid_path(cv, path),
        f1 + path.len() > task_count(cv),
        f2 + path.len() > task_count(cv),
    ensures
        expand_steps(cv, name, task, path, i, f1) == expand_steps(cv, name, task, path, i, f2),
    decreases f1, task.run.len() - i,
{
    if 0 <= i < task.run.len() {
        lemma_steps_fuel_suffices(cv, name, task, path, i + 1, f1, f2);
        match task.run[i] {
            RunView::Task(reference) => {
                lemma_fuel_suffices(cv, reference.resolve(name.package()), path, f1, f2);
            },
            RunView::Command { .. } => {},
        }
    }
}

/// The budget that a push gives is enough: when the task count fits a machine word,
/// a push's result is the expansion with any larger budget.
pub proof fn lemma_plan_fuel_suffices(cv: ContextView, name: AbsoluteTaskNameView, fuel: nat)
    requires
        task_count(cv) < usize::MAX,
        fuel > task_count(cv),
    ensures
        expand(cv, name, Seq::empty(), plan_fuel(cv)) == expand(cv, name, Seq::empty(), fuel),
{
    lemma_fuel_suffices(cv, name, Seq::empty(), plan_fuel(cv), fuel);
}

/// Why the project context cannot be built.
#[derive(Debug, Clone, PartialEq, Eq)]
pub enum ContextError {
    /// The package the caller stands in is not declared by the project at this root.
    NotInPackagesList(String),
}

/// Why a task cannot be expanded.
#[derive(Debug, Clone, PartialEq, Eq)]
pub enum PlanError {
    /// The package is not loaded yet; load it and push again.
    PackageNotLoaded(String),
    /// No task of that name in its package.
    TaskNotFound(AbsoluteTaskName),
    /// The task is reached again while it is being expanded.
    Cycle(AbsoluteTaskName),
}

impl View for PlanError {
    type V = PlanErrorView;

    open spec fn view(&self) -> PlanErrorView {
        match self {
            PlanError::PackageNotLoaded(p) => PlanErrorView::PackageNotLoaded(p@),
            PlanError::TaskNotFound(n) => PlanErrorView::TaskNotFound(n@),
            PlanError::Cycle(n) => PlanErrorView::Cycle(n@),
        }
    }
}

/// One shell invocation: the command of a task step, where and how to run it.
#[derive(Debug)]
pub struct PlanEntry {
    task: AbsoluteTaskName,
    directory: String,
    command: String,
    silent: bool,
}

impl View for PlanEntry {
    type V = PlanEntryView;

    closed spec fn view(&self) -> PlanEntryView {
        PlanEntryView {
            task: self.task@,
            directory: self.directory@,
            command: self.command@,
            silent: self.silent,
        }
    }
}

pub open spec fn entries_view(s: Seq<PlanEntry>) -> Seq<PlanEntryView> {
    s.map_values(|e: PlanEntry| e@)
}

impl PlanEntry {
    /// The task the command belongs to.
    pub fn task(&self) -> (r: &AbsoluteTaskName)
        ensures
            r@ == self@.task,
    {
        &self.task
    }

    /// The command line, handed to the shell as it is.
    pub fn command(&self) -> (r: &str)
        ensures
            r@ == self@.command,
    {
        self.command.as_str()
    }

    /// Whether the command runs without being announced.
    pub fn silent(&self) -> (r: bool)
        ensures
            r == self@.silent,
    {
        self.silent
    }

    /// The working directory of the command.
    pub fn directory(&self) -> (r: &str)
        ensures
            r@ == self@.directory,
    {
        self.directory.as_str()
    }
}

/// The project: its root, its environment files, the package the caller stands in,
/// and every package loaded so far, keyed by its path. The project root is the
/// package with the empty name.
#[derive(Debug)]
pub struct Context {
    root: String,
    env_files: Vec<String>,
    local: Option<String>,
    packages: VecMap<Package>,
    tools: VecMap<Tool>,
}

pub open spec fn packages_view(s: Seq<(Seq<char>, Package)>) -> Seq<(Seq<char>, PackageView)> {
    s.map_values(|e: (Seq<char>, Package)| (e.0, e.1@))
}

impl View for Context {
    type V = ContextView;

    closed spec fn view(&self) -> ContextView {
        ContextView {
            root: self.root@,
            env_files: self.env_files@.map_values(|f: String| f@),
            local: match self.local {
                Some(l) => Some(l@),
                None => None,
            },
            packages: packages_view(self.packages@),
            tools: self.tools@,
        }
    }
}

impl ContextView {
    /// The root package is loaded, and so is the package the caller stands in.
    pub open spec fn well_formed(self) -> bool {
        &&& first_index(self.packages, Seq::empty()) is Some
        &&& self.local matches Some(l) ==> first_index(self.packages, l) is Some
    }

    /// Name of the caller's package; empty at the root or outside any package.
    pub open spec fn local_name(self) -> Seq<char> {
        match self.local {
            Some(l) => l,
            None => Seq::empty(),
        }
    }
}

/// The empty string.
fn empty_text() -> (r: &'static str)
    ensures
        r@ == Seq::<char>::empty(),
{
    let e = "";
    proof {
        reveal_strlit("");
    }
    assert(e@ =~= Seq::<char>::empty());
    e
}

/// `root` joined with `package`, or `root` itself for the root package.
fn join_directory(root: &str, package: &str) -> (r: String)
    ensures
        r@ == package_directory(root@, package@),
{
    let mut out = root.to_owned();
    if package.unicode_len() > 0 {
        let slash = "/";
        proof {
            reveal_strlit("/");
        }
        assert(slash@ =~= seq!['/']);
        out.append(slash);
        out.append(package);
    }
    out
}

/// Whether `path` holds the pair `(p, t)`.
fn path_contains(path: &Vec<(usize, usize)>, p: usize, t: usize) -> (r: bool)
    ensures
        r == path_view(path@).contains((p as int, t as int)),
{
    let mut i: usize = 0;
    while i < path.len()
        invariant
            i <= path@.len(),
            forall|j: int| 0 <= j < i ==> path_view(path@)[j] != (p as int, t as int),
        decreases path@.len() - i,
    {
        if path[i].0 == p && path[i].1 == t {
            assert(path_view(path@)[i as int] == (p as int, t as int));
            return true;
        }
        i = i + 1;
    }
    false
}

pub open spec fn path_view(path: Seq<(usize, usize)>) -> Seq<(int, int)> {
    path.map_values(|x: (usize, usize)| (x.0 as int, x.1 as int))
}

impl Context {
    /// A context for the project at `root`: its root package under the empty name,
    /// then each declared package under its path, in order. When the caller stands in
    /// a package (`local`), that package must be among them.
    pub fn new(
        root: String,
        env_files: Vec<String>,
        root_package: Package,
        declared: Vec<(String, Package)>,
        local: Option<String>,
        tools: VecMap<Tool>,
    ) -> (r: Result<Context, ContextError>)
        ensures
            ({
                let packages = seq![(Seq::<char>::empty(), root_package@)] + packages_view(
                    declared@.map_values(|e: (String, Package)| (e.0@, e.1)),
                );
                match local {
                    Some(l) => if first_index(packages, l@) is Some {
                        r matches Ok(c) && c@.well_formed() && c@ == (ContextView {
                            root: root@,
                            env_files: env_files@.map_values(|f: String| f@),
                            local: Some(l@),
                            packages,
                            tools: tools@,
                        })
                    } else {
                        r == Err::<Context, ContextError>(ContextError::NotInPackagesList(root))
                    },
                    None => r matches Ok(c) && c@.well_formed() && c@ == (ContextView {
                        root: root@,
                        env_files: env_files@.map_values(|f: String| f@),
                        local: None,
                        packages,
                        tools: tools@,
                    }),
                }
            }),
    {
        let ghost wanted = seq![(Seq::<char>::empty(), root_package@)] + packages_view(
            declared@.map_values(|e: (String, Package)| (e.0@, e.1)),
        );
        let mut all = declared;
        all.insert(0, (String::new(), root_package));
        let packages = VecMap::from_entries(all);
        assert(packages_view(packages@) =~= wanted);
        proof {
            assert(packages_view(packages@)[0].0 == Seq::<char>::empty());
            assert(first_index_before(packages_view(packages@), Seq::<char>::empty(), 0) is None);
            assert(first_index_before(packages_view(packages@), Seq::<char>::empty(), 1) == Some(0int));
            crate::vec_map::lemma_first_index_stable(
                packages_view(packages@),
                Seq::<char>::empty(),
                1,
                packages@.len() as int,
            );
        }
        match local {
            Some(l) => {
                let found = packages.get_index(l.as_str());
                proof {
                    lemma_first_index_keys(packages@, packages_view(packages@), l@, packages@.len() as int);
                }
                if found.is_some() {
                    Ok(Context { root, env_files, local: Some(l), packages, tools })
                } else {
                    Err(ContextError::NotInPackagesList(root))
                }
            },
            None => Ok(Context { root, env_files, local: None, packages, tools }),
        }
    }
}

/// Appends the commands of task `name`, as `expand` gives them, to `out`.
fn expand_into(
    ctx: &Context,
    name: &AbsoluteTaskName,
    path: &mut Vec<(usize, usize)>,
    fuel: usize,
    out: &mut Vec<PlanEntry>,
) -> (r: Result<(), PlanError>)
    ensures
        final(path)@ == old(path)@,
        old(out)@.len() <= final(out)@.len(),
        final(out)@.subrange(0, old(out)@.len() as int) == old(out)@,
        match expand(ctx@, name@, path_view(old(path)@), fuel as nat) {
            Ok(es) => r is Ok && entries_view(final(out)@) == entries_view(old(out)@) + es,
            Err(e) => r matches Err(f) && f@ == e,
        },
    decreases fuel, 0int,
{
    let package_name = name.package();
    let p = match ctx.packages.get_index(package_name) {
        None => {
            proof {
                lemma_first_index_keys(ctx.packages@, ctx@.packages, package_name@, ctx.packages@.len() as int);
            }
            assert(final(out)@.subrange(0, old(out)@.len() as int) =~= old(out)@);
            return Err(PlanError::PackageNotLoaded(package_name.to_owned()));
        },
        Some(p) => p,
    };
    proof {
        lemma_first_index_keys(ctx.packages@, ctx@.packages, package_name@, ctx.packages@.len() as int);
    }
    let package = ctx.packages.get_by_index(p).unwrap();
    let t = match package.tasks().get_index(name.task()) {
        None => {
            assert(final(out)@.subrange(0, old(out)@.len() as int) =~= old(out)@);
            return Err(PlanError::TaskNotFound(name.duplicate()));
        },
        Some(t) => t,
    };
    if fuel == 0 || path_contains(path, p, t) {
        assert(final(out)@.subrange(0, old(out)@.len() as int) =~= old(out)@);
        return Err(PlanError::Cycle(name.duplicate()));
    }
    let task = package.tasks().get_by_index(t);
    let ghost before = path@;
    path.push((p, t));
    assert(path_view(path@) =~= path_view(before).push((p as int, t as int)));
    let r = expand_steps_into(ctx, name, task, path, 0, fuel - 1, out);
    path.pop();
    assert(path@ =~= before);
    r
}

/// Appends the commands of the steps of `task` from the `i`-th on, as
/// `expand_steps` gives them, to `out`.
fn expand_steps_into(
    ctx: &Context,
    name: &AbsoluteTaskName,
    task: &Task,
    path: &mut Vec<(usize, usize)>,
    i: usize,
    fuel: usize,
    out: &mut Vec<PlanEntry>,
) -> (r: Result<(), PlanError>)
    requires
        i <= task@.run.len(),
    ensures
        final(path)@ == old(path)@,
        old(out)@.len() <= final(out)@.len(),
        final(out)@.subrange(0, old(out)@.len() as int) == old(out)@,
        match expand_steps(ctx@, name@, task@, path_view(old(path)@), i as int, fuel as nat) {
            Ok(es) => r is Ok && entries_view(final(out)@) == entries_view(old(out)@) + es,
            Err(e) => r matches Err(f) && f@ == e,
        },
    decreases fuel, task@.run.len() - i,
{
    let steps = task.steps();
    if i >= steps.len() {
        assert(entries_view(out@) =~= entries_view(out@) + Seq::<PlanEntryView>::empty());
        assert(out@.subrange(0, out@.len() as int) =~= out@);
        return Ok(());
    }
    let ghost start = out@;
    match &steps[i] {
        Run::Command { command, silent } => {
            let effective = match silent {
                Some(s) => *s,
                None => task.is_silent(),
            };
            let entry = PlanEntry {
                task: name.duplicate(),
                directory: join_directory(ctx.root.as_str(), name.package()),
                command: command.clone(),
                silent: effective,
            };
            out.push(entry);
            let ghost pushed = out@;
            let r = expand_steps_into(ctx, name, task, path, i + 1, fuel, out);
            proof {
                assert(pushed.subrange(0, start.len() as int) =~= start);
                assert(out@.subrange(0, start.len() as int) =~= pushed.subrange(0, start.len() as int));
                assert(entries_view(pushed) =~= entries_view(start).push(pushed[start.len() as int]@));
                match expand_steps(ctx@, name@, task@, path_view(path@), i + 1, fuel as nat) {
                    Ok(rest) => {
                        assert(entries_view(out@) =~= entries_view(start) + (seq![pushed[start.len() as int]@] + rest));
                    },
                    Err(_) => {},
                }
            }
            r
        },
        Run::Task(reference) => {
            let target = reference.resolve(name.package());
            match expand_into(ctx, &target, path, fuel, out) {
                Err(e) => Err(e),
                Ok(()) => {
                    let ghost middle = out@;
                    let r = expand_steps_into(ctx, name, task, path, i + 1, fuel, out);
                    proof {
                        assert(out@.subrange(0, start.len() as int) =~= middle.subrange(0, start.len() as int));
                        match expand_steps(ctx@, name@, task@, path_view(path@), i + 1, fuel as nat) {
                            Ok(rest) => {
                                let first = expand(ctx@, target@, path_view(path@), fuel as nat)->Ok_0;
                                assert(entries_view(out@) =~= entries_view(start) + (first + rest));
                            },
                            Err(_) => {},
                        }
                    }
                    r
                },
            }
        },
    }
}

/// A task whose only step refers to task `reference`, written inside its own package
/// `p`, expands to exactly what `reference` resolved inside `p` expands to, in that
/// task's own order, with the outer task on the expansion path.
pub proof fn lemma_single_reference(
    cv: ContextView,
    name: AbsoluteTaskNameView,
    reference: TaskNameView,
    path: Seq<(int, int)>,
    fuel: nat,
)
    requires
        locate_task(cv, name) is Ok,
        !path.contains(locate_task(cv, name)->Ok_0),
        cv.packages[locate_task(cv, name)->Ok_0.0].1[locate_task(cv, name)->Ok_0.1].1.run
            == seq![RunView::Task(reference)],
    ensures
        expand(cv, name, path, fuel + 1) == expand(
            cv,
            reference.resolve(name.package()),
            path.push(locate_task(cv, name)->Ok_0),
            fuel,
        ),
{
    let (p, t) = locate_task(cv, name)->Ok_0;
    let task = cv.packages[p].1[t].1;
    let inner = path.push((p, t));
    assert(expand_steps(cv, name, task, inner, 1, fuel) == Ok::<Seq<PlanEntryView>, PlanErrorView>(Seq::empty()));
    match expand(cv, reference.resolve(name.package()), inner, fuel) {
        Ok(first) => {
            assert(first + Seq::<PlanEntryView>::empty() =~= first);
        },
        Err(_) => {},
    }
}

/// A task whose first step refers back to the task itself is refused as a cycle,
/// whatever the budget.
pub proof fn lemma_self_reference_is_cycle(
    cv: ContextView,
    name: AbsoluteTaskNameView,
    reference: TaskNameView,
    fuel: nat,
)
    requires
        locate_task(cv, name) is Ok,
        cv.packages[locate_task(cv, name)->Ok_0.0].1[locate_task(cv, name)->Ok_0.1].1.run.len() > 0,
        cv.packages[locate_task(cv, name)->Ok_0.0].1[locate_task(cv, name)->Ok_0.1].1.run[0]
            == RunView::Task(reference),
        reference.resolve(name.package()) == name,
    ensures
        expand(cv, name, Seq::empty(), fuel) == Err::<Seq<PlanEntryView>, PlanErrorView>(PlanErrorView::Cycle(name)),
{
    let (p, t) = locate_task(cv, name)->Ok_0;
    let inner = Seq::<(int, int)>::empty().push((p, t));
    if fuel > 0 {
        assert(inner.contains((p, t))) by {
            assert(inner[0] == (p, t));
        }
        let f = (fuel - 1) as nat;
        assert(expand(cv, name, inner, f) == Err::<Seq<PlanEntryView>, PlanErrorView>(PlanErrorView::Cycle(name)));
    }
}

/// A plan in mathematical form: the context it reads and the entries built so far.
pub struct PlanView {
    pub context: ContextView,
    pub entries: Seq<PlanEntryView>,
}

/// An ordered list of shell invocations, built by expanding tasks of a context.
#[derive(Debug)]
pub struct Plan<'a> {
    context: &'a mut Context,
    entries: Vec<PlanEntry>,
}

impl<'a> View for Plan<'a> {
    type V = PlanView;

    closed spec fn view(&self) -> PlanView {
        PlanView { context: self.context@, entries: entries_view(self.entries@) }
    }
}

impl<'a> Plan<'a> {
    fn new(context: &'a mut Context) -> (r: Plan<'a>)
        ensures
            r@ == (PlanView { context: old(context)@, entries: Seq::empty() }),
    {
        let r = Plan { context, entries: Vec::new() };
        assert(r@.entries =~= Seq::<PlanEntryView>::empty());
        r
    }

    /// Appends the commands of task `task_name`, in order. On an error the plan is
    /// left as it was.
    pub fn push(&mut self, task_name: &AbsoluteTaskName) -> (r: Result<(), PlanError>)
        ensures
            final(self)@.context == old(self)@.context,
            match expand(old(self)@.context, task_name@, Seq::empty(), plan_fuel(old(self)@.context)) {
                Ok(es) => r is Ok && final(self)@.entries == old(self)@.entries + es,
                Err(e) => r matches Err(f) && f@ == e && final(self)@.entries == old(self)@.entries,
            },
    {
        let fuel = self.context.fuel();
        let start = self.entries.len();
        let mut path: Vec<(usize, usize)> = Vec::new();
        assert(path_view(path@) =~= Seq::<(int, int)>::empty());
        let ghost before = self.entries@;
        let r = expand_into(&*self.context, task_name, &mut path, fuel, &mut self.entries);
        if r.is_err() {
            self.entries.truncate(start);
            assert(self.entries@ =~= before);
        }
        r
    }

    /// Loads package `name` into the context, unless one of that name is loaded.
    pub fn add_package(&mut self, name: String, package: Package)
        requires
            old(self)@.context.well_formed(),
        ensures
            final(self)@.context.well_formed(),
            final(self)@.entries == old(self)@.entries,
            first_index(old(self)@.context.packages, name@) is Some ==> final(self)@.context == old(self)@.context,
            first_index(old(self)@.context.packages, name@) is None ==> final(self)@.context == (ContextView {
                packages: old(self)@.context.packages.push((name@, package@)),
                ..old(self)@.context
            }),
    {
        self.context.add_package(name, package);
    }

    /// The entries, in order.
    pub fn entries(&self) -> (r: &[PlanEntry])
        ensures
            entries_view(r@) == self@.entries,
    {
        self.entries.as_slice()
    }

    /// The context the plan reads.
    pub fn context(&self) -> (r: &Context)
        ensures
            r@ == self@.context,
    {
        &*self.context
    }
}

impl Context {
    /// The expansion budget of a push, as `plan_fuel` gives it.
    fn fuel(&self) -> (r: usize)
        ensures
            r as nat == plan_fuel(self@),
    {
        let n = self.packages.len();
        let mut total: usize = 0;
        let mut i: usize = 0;
        while i < n
            invariant
                i <= n,
                n == self@.packages.len(),
                total as nat == if task_count_before(self@.packages, i as int) < usize::MAX {
                    task_count_before(self@.packages, i as int)
                } else {
                    usize::MAX as nat
                },
            decreases n - i,
        {
            let count = self.packages.get_by_index(i).unwrap().tasks().len();
            assert(count == self@.packages[i as int].1.len());
            if count > usize::MAX - total {
                total = usize::MAX;
            } else {
                total = total + count;
            }
            i = i + 1;
        }
        if total < usize::MAX {
            total + 1
        } else {
            total
        }
    }

    /// Loads package `name`, unless one of that name is loaded: a name, once loaded,
    /// keeps its package.
    pub fn add_package(&mut self, name: String, package: Package)
        requires
            old(self)@.well_formed(),
        ensures
            final(self)@.well_formed(),
            first_index(old(self)@.packages, name@) is Some ==> final(self)@ == old(self)@,
            first_index(old(self)@.packages, name@) is None ==> final(self)@ == (ContextView {
                packages: old(self)@.packages.push((name@, package@)),
                ..old(self)@
            }),
    {
        proof {
            lemma_first_index_keys(self.packages@, self@.packages, name@, self@.packages.len() as int);
        }
        if self.packages.get_index(name.as_str()).is_some() {
            return;
        }
        let ghost old_packages = self@.packages;
        let ghost key = name@;
        let ghost value = package@;
        self.packages.insert(name, package);
        proof {
            assert(self@.packages =~= old_packages.push((key, value)));
            lemma_first_index_push(old_packages, (key, value), Seq::<char>::empty());
            if self@.local is Some {
                lemma_first_index_push(old_packages, (key, value), self@.local->Some_0);
            }
        }
    }

    /// The loaded package named `name`, if any.
    pub fn get_package(&self, name: &str) -> (r: Option<&Package>)
        ensures
            match first_index(self@.packages, name@) {
                None => r is None,
                Some(i) => r matches Some(p) && p@ == self@.packages[i].1,
            },
    {
        proof {
            lemma_first_index_keys(self.packages@, self@.packages, name@, self@.packages.len() as int);
            lemma_first_index_before(self.packages@, name@, self@.packages.len() as int);
        }
        self.packages.get(name)
    }

    /// Name of the package the caller stands in; empty at the root or outside any
    /// package.
    pub fn local_package_name(&self) -> (r: &str)
        ensures
            r@ == self@.local_name(),
    {
        match &self.local {
            Some(local) => local.as_str(),
            None => empty_text(),
        }
    }

    /// The tasks of the package the caller stands in, or of the root package.
    pub fn local_tasks(&self) -> (r: &crate::config::Tasks)
        requires
            self@.well_formed(),
        ensures
            r@ == self@.packages[first_index(self@.packages, self@.local_name())->Some_0].1,
    {
        let name = self.local_package_name();
        match self.get_package(name) {
            Some(package) => package.tasks(),
            None => {
                proof {
                    assert(false);
                }
                self.packages.get_by_index(0).unwrap().tasks()
            },
        }
    }

    /// Every loaded package with its name, the root package first.
    pub fn packages(&self) -> (r: &[(String, Package)])
        ensures
            r@.len() == self@.packages.len(),
            forall|i: int| 0 <= i < r@.len() ==> (#[trigger] r@[i]).0@ == self@.packages[i].0 && r@[i].1@ == self@.packages[i].1,
    {
        self.packages.iter()
    }

    /// An empty plan over this context.
    pub fn plan(&mut self) -> (r: Plan<'_>)
        ensures
            r@ == (PlanView { context: old(self)@, entries: Seq::empty() }),
    {
        Plan::new(self)
    }

    /// The tools the project declares, to be fetched and installed under `state`.
    pub fn fetch_tools(&self, state: String) -> (r: DownloadManager<'_>)
        ensures
            r.state_view() == state@,
            r.tools_view() == self@.tools,
    {
        DownloadManager::new(state, &self.tools)
    }

    /// Path of the project root.
    pub fn root(&self) -> (r: &str)
        ensures
            r@ == self@.root,
    {
        self.root.as_str()
    }

    /// The environment files, relative to the root, in declaration order.
    pub fn env_files(&self) -> (r: &[String])
        ensures
            r@.map_values(|f: String| f@) == self@.env_files,
    {
        self.env_files.as_slice()
    }
}

} // verus!

//! Task references: the three written forms and their resolved form.
use vstd::prelude::*;

verus! {

/// Index of the last `/` among the first `n` characters of `s`.
pub open spec fn last_slash_before(s: Seq<char>, n: int) -> Option<int>
    decreases n,
{
    if n <= 0 {
        None
    } else if s[n - 1] == '/' {
        Some(n - 1)
    } else {
        last_slash_before(s, n - 1)
    }
}

/// Index of the last `/` in `s`, if any.
pub open spec fn last_slash(s: Seq<char>) -> Option<int> {
    last_slash_before(s, s.len() as int)
}

/// What the last `/` is: a `/` within bounds with none after it, or no `/` at all.
pub proof fn lemma_last_slash_before(s: Seq<char>, n: int)
    requires
        0 <= n <= s.len(),
    ensures
        match last_slash_before(s, n) {
            None => forall|j: int| 0 <= j < n ==> s[j] != '/',
            Some(i) => 0 <= i < n && s[i] == '/' && forall|j: int| i < j < n ==> s[j] != '/',
        },
    decreases n,
{
    if n > 0 {
        lemma_last_slash_before(s, n - 1);
    }
}

pub open spec fn has_slash(s: Seq<char>) -> bool {
    exists|i: int| 0 <= i < s.len() && s[i] == '/'
}

/// Mathematical form of a task reference as written.
pub enum TaskNameView {
    Local(Seq<char>),
    Root(Seq<char>),
    Qualified { package: Seq<char>, task: Seq<char> },
}

/// Mathematical form of a resolved task reference.
pub enum AbsoluteTaskNameView {
    Root(Seq<char>),
    Qualified { package: Seq<char>, task: Seq<char> },
}

/// How a written reference is read: only the last `/` separates the package from
/// the task, and an empty package part denotes the project root.
pub open spec fn parse_task_name(s: Seq<char>) -> TaskNameView {
    match last_slash(s) {
        None => TaskNameView::Local(s),
        Some(i) => if i == 0 {
            TaskNameView::Root(s.skip(1))
        } else {
            TaskNameView::Qualified { package: s.take(i), task: s.skip(i + 1) }
        },
    }
}

impl TaskNameView {
    pub open spec fn resolve(self, package: Seq<char>) -> AbsoluteTaskNameView {
        match self {
            TaskNameView::Local(task) => AbsoluteTaskNameView::Qualified { package, task },
            TaskNameView::Root(task) => AbsoluteTaskNameView::Root(task),
            TaskNameView::Qualified { package, task } => AbsoluteTaskNameView::Qualified {
                package,
                task,
            },
        }
    }

    pub open spec fn text(self) -> Seq<char> {
        match self {
            TaskNameView::Local(task) => task,
            TaskNameView::Root(task) => seq!['/'] + task,
            TaskNameView::Qualified { package, task } => package + seq!['/'] + task,
        }
    }
}

impl AbsoluteTaskNameView {
    pub open spec fn package(self) -> Seq<char> {
        match self {
            AbsoluteTaskNameView::Root(_) => Seq::empty(),
            AbsoluteTaskNameView::Qualified { package, .. } => package,
        }
    }

    pub open spec fn task(self) -> Seq<char> {
        match self {
            AbsoluteTaskNameView::Root(task) => task,
            AbsoluteTaskNameView::Qualified { task, .. } => task,
        }
    }

    pub open spec fn text(self) -> Seq<char> {
        match self {
            AbsoluteTaskNameView::Root(task) => seq!['/'] + task,
            AbsoluteTaskNameView::Qualified { package, task } => package + seq!['/'] + task,
        }
    }
}

/// A task reference as written in configuration or on the command line.
#[derive(Debug, Clone, PartialEq, Eq)]
pub enum TaskName {
    Local(String),
    Root(String),
    Qualified { package: String, task: String },
}

/// A task reference with no dependence on the package it was written in.
#[derive(Debug, Clone, PartialEq, Eq)]
pub enum AbsoluteTaskName {
    Root(String),
    Qualified { package: String, task: String },
}

impl View for TaskName {
    type V = TaskNameView;

    open spec fn view(&self) -> TaskNameView {
        match self {
            TaskName::Local(task) => TaskNameView::Local(task@),
            TaskName::Root(task) => TaskNameView::Root(task@),
            TaskName::Qualified { package, task } => TaskNameView::Qualified {
                package: package@,
                task: task@,
            },
        }
    }
}

impl View for AbsoluteTaskName {
    type V = AbsoluteTaskNameView;

    open spec fn view(&self) -> AbsoluteTaskNameView {
        match self {
            AbsoluteTaskName::Root(task) => AbsoluteTaskNameView::Root(task@),
            AbsoluteTaskName::Qualified { package, task } => AbsoluteTaskNameView::Qualified {
                package: package@,
                task: task@,
            },
        }
    }
}

/// The characters `from..to` of `s`, as a new string.
fn substring(s: &str, from: usize, to: usize) -> (r: String)
    requires
        from <= to <= s@.len(),
    ensures
        r@ == s@.subrange(from as int, to as int),
{
    s.substring_char(from, to).to_owned()
}

/// Finds the last `/` of `s` by scanning from the end.
fn find_last_slash(s: &str) -> (r: Option<usize>)
    ensures
        match r {
            None => last_slash(s@) is None && !has_slash(s@),
            Some(i) => last_slash(s@) == Some(i as int) && i < s@.len() && s@[i as int] == '/',
        },
{
    proof {
        lemma_last_slash_before(s@, s@.len() as int);
    }
    let n = s.unicode_len();
    let mut k: usize = n;
    while k > 0
        invariant
            k <= n,
            n == s@.len(),
            last_slash(s@) == last_slash_before(s@, k as int),
        decreases k,
    {
        if s.get_char(k - 1) == '/' {
            return Some(k - 1);
        }
        k = k - 1;
    }
    None
}

/// Appends `/` to `out`.
fn push_slash(out: &mut String)
    ensures
        final(out)@ == old(out)@ + seq!['/'],
{
    let slash = "/";
    proof {
        reveal_strlit("/");
    }
    out.append(slash);
    assert(slash@ =~= seq!['/']);
}

/// `package/task` as one string.
fn join_qualified(package: &str, task: &str) -> (r: String)
    ensures
        r@ == package@ + seq!['/'] + task@,
{
    let mut out = package.to_owned();
    push_slash(&mut out);
    out.append(task);
    out
}

/// `/task` as one string.
fn join_root(task: &str) -> (r: String)
    ensures
        r@ == seq!['/'] + task@,
{
    let mut out = String::new();
    push_slash(&mut out);
    out.append(task);
    assert(out@ =~= seq!['/'] + task@);
    out
}

impl TaskName {
    /// Reads a task reference, splitting on its last `/`.
    pub fn new(raw: &str) -> (r: TaskName)
        ensures
            r@ == parse_task_name(raw@),
    {
        match find_last_slash(raw) {
            None => TaskName::Local(raw.to_owned()),
            Some(i) => {
                let n = raw.unicode_len();
                let task = substring(raw, i + 1, n);
                if i == 0 {
                    assert(raw@.skip(1) =~= raw@.subrange(1, n as int));
                    TaskName::Root(task)
                } else {
                    let package = substring(raw, 0, i);
                    assert(raw@.take(i as int) =~= raw@.subrange(0, i as int));
                    assert(raw@.skip(i + 1) =~= raw@.subrange(i + 1, n as int));
                    TaskName::Qualified { package, task }
                }
            },
        }
    }

    /// Resolves this reference as written inside `package`.
    pub fn relative_to(self, package: &str) -> (r: AbsoluteTaskName)
        ensures
            r@ == self@.resolve(package@),
    {
        match self {
            TaskName::Local(task) => AbsoluteTaskName::Qualified { package: package.to_owned(), task },
            TaskName::Root(task) => AbsoluteTaskName::Root(task),
            TaskName::Qualified { package, task } => AbsoluteTaskName::Qualified { package, task },
        }
    }

    /// Resolves a copy of this reference as written inside `package`.
    pub fn resolve(&self, package: &str) -> (r: AbsoluteTaskName)
        ensures
            r@ == self@.resolve(package@),
    {
        match self {
            TaskName::Local(task) => AbsoluteTaskName::Qualified {
                package: package.to_owned(),
                task: task.clone(),
            },
            TaskName::Root(task) => AbsoluteTaskName::Root(task.clone()),
            TaskName::Qualified { package, task } => AbsoluteTaskName::Qualified {
                package: package.clone(),
                task: task.clone(),
            },
        }
    }

    /// The reference written out: `task`, `/task` or `package/task`.
    pub fn to_text(&self) -> (r: String)
        ensures
            r@ == self@.text(),
    {
        match self {
            TaskName::Local(task) => task.clone(),
            TaskName::Root(task) => join_root(task.as_str()),
            TaskName::Qualified { package, task } => join_qualified(package.as_str(), task.as_str()),
        }
    }
}

impl AbsoluteTaskName {
    /// Name of the package that owns the task; empty for the project root.
    pub fn package(&self) -> (r: &str)
        ensures
            r@ == self@.package(),
    {
        match self {
            AbsoluteTaskName::Root(_) => {
                let root = "";
                proof {
                    reveal_strlit("");
                }
                assert(root@ =~= Seq::<char>::empty());
                root
            },
            AbsoluteTaskName::Qualified { package, .. } => package.as_str(),
        }
    }

    /// Name of the task within its package.
    pub fn task(&self) -> (r: &str)
        ensures
            r@ == self@.task(),
    {
        match self {
            AbsoluteTaskName::Root(task) => task.as_str(),
            AbsoluteTaskName::Qualified { task, .. } => task.as_str(),
        }
    }

    /// The reference written out: `/task` or `package/task`.
    pub fn to_text(&self) -> (r: String)
        ensures
            r@ == self@.text(),
    {
        match self {
            AbsoluteTaskName::Root(task) => join_root(task.as_str()),
            AbsoluteTaskName::Qualified { package, task } => join_qualified(
                package.as_str(),
                task.as_str(),
            ),
        }
    }

    /// A copy of this name.
    pub fn duplicate(&self) -> (r: AbsoluteTaskName)
        ensures
            r@ == self@,
    {
        match self {
            AbsoluteTaskName::Root(task) => AbsoluteTaskName::Root(task.clone()),
            AbsoluteTaskName::Qualified { package, task } => AbsoluteTaskName::Qualified {
                package: package.clone(),
                task: task.clone(),
            },
        }
    }
}

/// A `/` with none after it is the last one.
proof fn lemma_last_slash_at(s: Seq<char>, i: int, n: int)
    requires
        0 <= i < n <= s.len(),
        s[i] == '/',
        forall|j: int| i < j < n ==> s[j] != '/',
    ensures
        last_slash_before(s, n) == Some(i),
    decreases n,
{
    if n - 1 > i {
        lemma_last_slash_at(s, i, n - 1);
    }
}

/// Reading a reference and resolving it inside package `p`: a name without `/` is a
/// task of `p`; `/name` (with no further `/`) is a task of the project root, whatever
/// `p` is; otherwise the text before the last `/` is the package and the rest the task.
pub proof fn lemma_resolve_parsed(s: Seq<char>, p: Seq<char>)
    ensures
        !has_slash(s) ==> parse_task_name(s).resolve(p) == (AbsoluteTaskNameView::Qualified {
            package: p,
            task: s,
        }),
        s.len() > 0 && s[0] == '/' && !has_slash(s.skip(1)) ==> parse_task_name(s).resolve(p)
            == AbsoluteTaskNameView::Root(s.skip(1)),
        forall|i: int|
            0 < i < s.len() && #[trigger] s[i] == '/' && !has_slash(s.skip(i + 1))
                ==> parse_task_name(s).resolve(p) == (AbsoluteTaskNameView::Qualified {
                package: s.take(i),
                task: s.skip(i + 1),
            }),
{
    lemma_last_slash_before(s, s.len() as int);
    if s.len() > 0 && s[0] == '/' && !has_slash(s.skip(1)) {
        assert forall|j: int| 0 < j < s.len() implies s[j] != '/' by {
            if s[j] == '/' {
                assert(s.skip(1)[j - 1] == '/');
            }
        }
        lemma_last_slash_at(s, 0, s.len() as int);
    }
    assert forall|i: int|
        0 < i < s.len() && #[trigger] s[i] == '/' && !has_slash(s.skip(i + 1))
            implies parse_task_name(s).resolve(p) == (AbsoluteTaskNameView::Qualified {
            package: s.take(i),
            task: s.skip(i + 1),
        }) by {
        assert forall|j: int| i < j < s.len() implies s[j] != '/' by {
            if s[j] == '/' {
                assert(s.skip(i + 1)[j - i - 1] == '/');
            }
        }
        lemma_last_slash_at(s, i, s.len() as int);
    }
}

/// Writing out a resolved reference and reading it back inside any package gives the
/// same reference, provided the task name holds no `/` and a qualified reference
/// names a non-empty package.
pub proof fn lemma_text_round_trip(a: AbsoluteTaskNameView, p: Seq<char>)
    requires
        !has_slash(a.task()),
        a is Qualified ==> a.package().len() > 0,
    ensures
        parse_task_name(a.text()).resolve(p) == a,
{
    let s = a.text();
    let k = a.package().len() as int;
    let t = a.task();
    assert(s =~= a.package() + seq!['/'] + t);
    assert(s[k] == '/');
    assert forall|j: int| k < j < s.len() implies s[j] != '/' by {
        assert(s[j] == t[j - k - 1]);
    }
    lemma_last_slash_at(s, k, s.len() as int);
    assert(s.skip(k + 1) =~= t);
    assert(s.take(k) =~= a.package());
}

/// The error of reading a task reference, which cannot happen.
#[derive(Debug, Clone, Copy, PartialEq, Eq, PartialOrd, Ord, Hash)]
pub struct Never {}

impl std::str::FromStr for TaskName {
    type Err = Never;

    fn from_str(s: &str) -> Result<TaskName, Never> {
        Ok(TaskName::new(s))
    }
}

} // verus!

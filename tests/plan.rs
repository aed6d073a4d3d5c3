use wrun::{
    AbsoluteTaskName, Context, ContextError, Package, PlanError, Run, Task, TaskName, Tasks,
    VecMap,
};

fn cmd(command: &str) -> Run {
    Run::Command {
        command: command.to_owned(),
        silent: None,
    }
}

fn refer(name: &str) -> Run {
    Run::Task(TaskName::new(name))
}

fn package(tasks: Vec<(&str, Task)>) -> Package {
    let mut all = Tasks::new();
    for (name, task) in tasks {
        all.insert(name.to_owned(), task);
    }
    Package::new(all)
}

fn plain(run: Vec<Run>) -> Task {
    Task::new(false, None, run, false)
}

fn context(root: Package, declared: Vec<(&str, Package)>, local: Option<&str>) -> Context {
    Context::new(
        "/proj".to_owned(),
        Vec::new(),
        root,
        declared.into_iter().map(|(n, p)| (n.to_owned(), p)).collect(),
        local.map(|l| l.to_owned()),
        VecMap::new(),
    )
    .unwrap()
}

fn qualified(package: &str, task: &str) -> AbsoluteTaskName {
    AbsoluteTaskName::Qualified {
        package: package.to_owned(),
        task: task.to_owned(),
    }
}

fn commands(ctx: &mut Context, name: &AbsoluteTaskName) -> Vec<(String, String, bool)> {
    let mut plan = ctx.plan();
    plan.push(name).unwrap();
    plan.entries()
        .iter()
        .map(|e| (e.command().to_owned(), e.directory().to_owned(), e.silent()))
        .collect()
}

#[test]
fn qualified_and_root_names_pick_their_package() {
    let root = package(vec![("build", plain(vec![cmd("echo root")]))]);
    let lib = package(vec![("build", plain(vec![cmd("echo lib")]))]);
    let mut ctx = context(root, vec![("lib", lib)], None);

    let lib_build = TaskName::new("lib/build").relative_to("");
    assert_eq!(
        commands(&mut ctx, &lib_build),
        vec![("echo lib".to_owned(), "/proj/lib".to_owned(), false)]
    );
    let root_build = TaskName::new("/build").relative_to("lib");
    assert_eq!(
        commands(&mut ctx, &root_build),
        vec![("echo root".to_owned(), "/proj".to_owned(), false)]
    );
}

#[test]
fn shorthand_task_sets_silence() {
    let root = package(vec![
        ("quiet", Task::shorthand("@echo hi")),
        ("loud", Task::shorthand("echo hi")),
    ]);
    let mut ctx = context(root, vec![], None);
    assert_eq!(
        commands(&mut ctx, &AbsoluteTaskName::Root("quiet".to_owned())),
        vec![("echo hi".to_owned(), "/proj".to_owned(), true)]
    );
    assert_eq!(
        commands(&mut ctx, &AbsoluteTaskName::Root("loud".to_owned())),
        vec![("echo hi".to_owned(), "/proj".to_owned(), false)]
    );
}

#[test]
fn step_silence_overrides_task_default() {
    let steps = vec![
        cmd("a"),
        Run::Command {
            command: "b".to_owned(),
            silent: Some(false),
        },
        Run::shorthand("@c"),
    ];
    let root = package(vec![("t", Task::new(false, None, steps, true))]);
    let mut ctx = context(root, vec![], None);
    let silences: Vec<bool> = commands(&mut ctx, &AbsoluteTaskName::Root("t".to_owned()))
        .into_iter()
        .map(|e| e.2)
        .collect();
    assert_eq!(silences, vec![true, false, true]);
}

#[test]
fn reference_resolves_in_defining_package() {
    let root = package(vec![("go", plain(vec![refer("p/a")]))]);
    let p = package(vec![
        ("a", plain(vec![refer("b")])),
        ("b", plain(vec![cmd("one"), cmd("two")])),
    ]);
    let mut ctx = context(root, vec![("p", p)], None);
    let mut plan = ctx.plan();
    plan.push(&AbsoluteTaskName::Root("go".to_owned())).unwrap();
    let entries: Vec<(AbsoluteTaskName, String)> = plan
        .entries()
        .iter()
        .map(|e| (e.task().clone(), e.command().to_owned()))
        .collect();
    assert_eq!(
        entries,
        vec![
            (qualified("p", "b"), "one".to_owned()),
            (qualified("p", "b"), "two".to_owned()),
        ]
    );
}

#[test]
fn nested_steps_keep_document_order() {
    let root = package(vec![
        ("all", plain(vec![cmd("first"), refer("mid"), cmd("last")])),
        ("mid", plain(vec![cmd("m1"), cmd("m2")])),
    ]);
    let mut ctx = context(root, vec![], None);
    let order: Vec<String> = commands(&mut ctx, &AbsoluteTaskName::Root("all".to_owned()))
        .into_iter()
        .map(|e| e.0)
        .collect();
    assert_eq!(order, vec!["first", "m1", "m2", "last"]);
}

#[test]
fn self_reference_is_a_cycle() {
    let root = package(vec![("loop", plain(vec![refer("loop")]))]);
    let mut ctx = context(root, vec![], None);
    let mut plan = ctx.plan();
    let err = plan.push(&AbsoluteTaskName::Root("loop".to_owned())).unwrap_err();
    assert_eq!(err, PlanError::Cycle(qualified("", "loop")));
    assert!(plan.entries().is_empty());
}

#[test]
fn mutual_reference_is_a_cycle() {
    let root = package(vec![
        ("a", plain(vec![cmd("before"), refer("b")])),
        ("b", plain(vec![refer("a")])),
    ]);
    let mut ctx = context(root, vec![], None);
    let mut plan = ctx.plan();
    let err = plan.push(&AbsoluteTaskName::Root("a".to_owned())).unwrap_err();
    assert!(matches!(err, PlanError::Cycle(_)));
    assert!(plan.entries().is_empty());
}

#[test]
fn diamond_is_not_a_cycle() {
    let root = package(vec![
        ("top", plain(vec![refer("left"), refer("right")])),
        ("left", plain(vec![refer("base")])),
        ("right", plain(vec![refer("base")])),
        ("base", plain(vec![cmd("b")])),
    ]);
    let mut ctx = context(root, vec![], None);
    let n = commands(&mut ctx, &AbsoluteTaskName::Root("top".to_owned())).len();
    assert_eq!(n, 2);
}

#[test]
fn missing_task_is_reported() {
    let root = package(vec![("a", plain(vec![cmd("x")]))]);
    let mut ctx = context(root, vec![], None);
    let mut plan = ctx.plan();
    let err = plan.push(&AbsoluteTaskName::Root("nope".to_owned())).unwrap_err();
    assert_eq!(err, PlanError::TaskNotFound(AbsoluteTaskName::Root("nope".to_owned())));
}

#[test]
fn failed_push_leaves_plan_unchanged() {
    let root = package(vec![
        ("ok", plain(vec![cmd("x")])),
        ("bad", plain(vec![cmd("y"), refer("missing")])),
    ]);
    let mut ctx = context(root, vec![], None);
    let mut plan = ctx.plan();
    plan.push(&AbsoluteTaskName::Root("ok".to_owned())).unwrap();
    assert!(plan.push(&AbsoluteTaskName::Root("bad".to_owned())).is_err());
    assert_eq!(plan.entries().len(), 1);
    assert_eq!(plan.entries()[0].command(), "x");
}

#[test]
fn unloaded_package_is_loaded_on_demand() {
    let root = package(vec![("go", plain(vec![refer("extra/run")]))]);
    let mut ctx = context(root, vec![], None);
    let mut plan = ctx.plan();
    let name = AbsoluteTaskName::Root("go".to_owned());
    let err = plan.push(&name).unwrap_err();
    assert_eq!(err, PlanError::PackageNotLoaded("extra".to_owned()));
    plan.add_package(
        "extra".to_owned(),
        package(vec![("run", plain(vec![cmd("extra")]))]),
    );
    plan.push(&name).unwrap();
    assert_eq!(plan.entries()[0].directory(), "/proj/extra");
}

#[test]
fn a_loaded_package_is_kept() {
    let root = package(vec![]);
    let lib = package(vec![("t", plain(vec![cmd("old")]))]);
    let mut ctx = context(root, vec![("lib", lib)], None);
    ctx.add_package(
        "lib".to_owned(),
        package(vec![("t", plain(vec![cmd("new")]))]),
    );
    assert_eq!(
        commands(&mut ctx, &qualified("lib", "t"))[0].0,
        "old".to_owned()
    );
}

#[test]
fn local_package_must_be_declared() {
    let err = Context::new(
        "/proj".to_owned(),
        Vec::new(),
        package(vec![]),
        vec![("lib".to_owned(), package(vec![]))],
        Some("other".to_owned()),
        VecMap::new(),
    )
    .unwrap_err();
    assert_eq!(err, ContextError::NotInPackagesList("/proj".to_owned()));
}

#[test]
fn local_tasks_follow_local_package() {
    let root = package(vec![("r", plain(vec![]))]);
    let lib = package(vec![("l1", plain(vec![])), ("l2", plain(vec![]))]);
    let ctx = context(root, vec![("lib", lib)], Some("lib"));
    assert_eq!(ctx.local_package_name(), "lib");
    let names: Vec<&str> = ctx.local_tasks().iter().iter().map(|e| e.0.as_str()).collect();
    assert_eq!(names, vec!["l1", "l2"]);

    let root = package(vec![("r", plain(vec![]))]);
    let ctx = context(root, vec![], None);
    assert_eq!(ctx.local_package_name(), "");
    assert_eq!(ctx.local_tasks().len(), 1);
    let listed: Vec<&str> = ctx.packages().iter().map(|e| e.0.as_str()).collect();
    assert_eq!(listed, vec![""]);
}

#[test]
fn first_declared_task_wins_lookup() {
    let root = package(vec![
        ("dup", plain(vec![cmd("first")])),
        ("dup", plain(vec![cmd("second")])),
    ]);
    let mut ctx = context(root, vec![], None);
    assert_eq!(
        commands(&mut ctx, &AbsoluteTaskName::Root("dup".to_owned()))[0].0,
        "first".to_owned()
    );
}

#[test]
fn internal_tasks_are_not_listed() {
    let mut tasks = Tasks::new();
    tasks.insert("a".to_owned(), Task::new(true, None, vec![], false));
    tasks.insert("b".to_owned(), Task::new(false, Some("shown".to_owned()), vec![], false));
    tasks.insert("c".to_owned(), Task::new(false, None, vec![], false));
    assert_eq!(tasks.public(), vec![1, 2]);
    assert_eq!(tasks.get("b").unwrap().description(), Some("shown"));
    assert!(tasks.get("a").unwrap().is_internal());
    assert!(Tasks::new().public().is_empty());
}

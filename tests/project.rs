use wrun::{
    locate, merge_env, Action, Args, Location, Marker, Run, RunFieldError, RunKey, RunTable,
    RunValue, TaskName, VecMap,
};

fn marker(package_file: bool, project_file: bool) -> Marker {
    Marker {
        package_file,
        project_file,
    }
}

#[test]
fn nearest_package_and_project() {
    let markers = [marker(false, false), marker(true, false), marker(true, false), marker(false, true), marker(false, true)];
    assert_eq!(
        locate(&markers),
        Some(Location {
            root: 3,
            local: Some(1)
        })
    );
    assert_eq!(
        locate(&[marker(true, true)]),
        Some(Location {
            root: 0,
            local: Some(0)
        })
    );
    assert_eq!(
        locate(&[marker(false, true), marker(true, false)]),
        Some(Location { root: 0, local: None })
    );
    assert_eq!(locate(&[marker(true, false)]), None);
    assert_eq!(locate(&[]), None);
}

fn pairs(items: &[(&str, &str)]) -> Vec<(String, String)> {
    items.iter().map(|(k, v)| (k.to_string(), v.to_string())).collect()
}

#[test]
fn later_env_files_override() {
    let merged = merge_env(vec![
        pairs(&[("A", "1"), ("B", "2")]),
        pairs(&[]),
        pairs(&[("B", "3"), ("C", "4"), ("A", "5")]),
    ]);
    let mut merged = merged;
    merged.sort();
    assert_eq!(merged, pairs(&[("A", "5"), ("B", "3"), ("C", "4")]));
    assert!(merge_env(Vec::new()).is_empty());
}

#[test]
fn run_table_shapes_exclude_each_other() {
    let mut t = RunTable::new();
    assert_eq!(t.accept("task"), Ok(RunKey::Task));
    t.fill(RunValue::Task("x".to_owned()));
    assert_eq!(t.accept("cmd"), Err(RunFieldError::Unknown("cmd".to_owned())));
    assert_eq!(t.accept("task"), Err(RunFieldError::Duplicate(RunKey::Task)));

    let mut t = RunTable::new();
    assert_eq!(t.accept("silent"), Ok(RunKey::Silent));
    t.fill(RunValue::Silent(true));
    assert_eq!(t.accept("task"), Err(RunFieldError::Unknown("task".to_owned())));
    assert_eq!(t.accept("silent"), Err(RunFieldError::Duplicate(RunKey::Silent)));
    assert_eq!(t.accept("colour"), Err(RunFieldError::Unknown("colour".to_owned())));
    assert_eq!(t.finish(), Err(RunFieldError::Missing));

    let mut t = RunTable::new();
    t.fill(RunValue::Command("c".to_owned()));
    assert_eq!(t.accept("command"), Err(RunFieldError::Duplicate(RunKey::Command)));
    assert_eq!(
        t.finish(),
        Ok(Run::Command {
            command: "c".to_owned(),
            silent: None
        })
    );
    assert_eq!(RunTable::new().finish(), Err(RunFieldError::Missing));
}

#[test]
fn task_reference_in_table_is_parsed() {
    let mut t = RunTable::new();
    t.fill(RunValue::Task("a/b".to_owned()));
    assert_eq!(
        t.finish(),
        Ok(Run::Task(TaskName::Qualified {
            package: "a".to_owned(),
            task: "b".to_owned()
        }))
    );
}

fn args(all: bool, tasks: &[&str], fetch_tools: bool) -> Args {
    Args {
        directory: None,
        all,
        tasks: tasks.iter().map(|s| s.to_string()).collect(),
        fetch_tools,
    }
}

#[test]
fn command_line_actions() {
    assert_eq!(args(false, &[], false).action(), Action::List { all: false });
    assert_eq!(args(true, &["x"], false).action(), Action::List { all: true });
    let a = args(false, &["x", "y"], false);
    assert_eq!(a.action(), Action::Run(&["x".to_owned(), "y".to_owned()][..]));
    assert_eq!(args(true, &[], true).action(), Action::FetchTools);
}

#[test]
fn vec_map_keeps_order_and_finds_first() {
    let mut m = VecMap::new();
    *m.insert("a".to_owned(), 1) += 10;
    m.insert("b".to_owned(), 2);
    m.insert("a".to_owned(), 3);
    assert_eq!(m.len(), 3);
    assert_eq!(m.get("a"), Some(&11));
    assert_eq!(m.get_index("b"), Some(1));
    assert_eq!(m.get("z"), None);
    assert_eq!(m.get_by_index(2), Some(&3));
    assert_eq!(m.get_by_index(3), None);
    let keys: Vec<&str> = m.iter().iter().map(|e| e.0.as_str()).collect();
    assert_eq!(keys, vec!["a", "b", "a"]);
}

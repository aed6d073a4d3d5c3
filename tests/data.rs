use wrun::{Run, RunKey, RunTable, RunValue, Task, TaskName};

fn test_value(text: &str) -> toml::Value {
    let table: toml::Table = text.parse().unwrap();
    table.get("test").unwrap().clone()
}

fn run_from(value: &toml::Value) -> Run {
    match value {
        toml::Value::String(s) => Run::shorthand(s),
        toml::Value::Table(t) => {
            let mut table = RunTable::new();
            for (key, v) in t {
                let field = table.accept(key).unwrap();
                let value = match field {
                    RunKey::Command => RunValue::Command(v.as_str().unwrap().to_owned()),
                    RunKey::Silent => RunValue::Silent(v.as_bool().unwrap()),
                    RunKey::Task => RunValue::Task(v.as_str().unwrap().to_owned()),
                };
                table.fill(value);
            }
            table.finish().unwrap()
        }
        other => panic!("not a run step: {other:?}"),
    }
}

fn task_from(value: &toml::Value) -> Task {
    match value {
        toml::Value::String(s) => Task::shorthand(s),
        toml::Value::Table(t) => {
            let internal = t.get("internal").and_then(|v| v.as_bool()).unwrap_or(false);
            let description = t
                .get("description")
                .or_else(|| t.get("desc"))
                .and_then(|v| v.as_str())
                .map(|s| s.to_owned());
            let silent = t.get("silent").and_then(|v| v.as_bool()).unwrap_or(false);
            let run = match t.get("run") {
                None => Vec::new(),
                Some(toml::Value::Array(items)) => items.iter().map(run_from).collect(),
                Some(one) => vec![run_from(one)],
            };
            Task::new(internal, description, run, silent)
        }
        other => panic!("not a task: {other:?}"),
    }
}

fn command(command: &str, silent: bool) -> Run {
    Run::Command {
        command: command.to_owned(),
        silent: if silent { Some(true) } else { None },
    }
}

fn qualified(package: &str, task: &str) -> TaskName {
    TaskName::Qualified {
        package: package.to_owned(),
        task: task.to_owned(),
    }
}

#[test]
fn deep_task_name() {
    let value = test_value(r#"test = "foo/bar/baz""#);
    assert_eq!(qualified("foo/bar", "baz"), TaskName::new(value.as_str().unwrap()));
}

#[test]
fn run_command_shorthand() {
    assert_eq!(command("echo loud", false), run_from(&test_value(r#"test = "echo loud""#)));
    assert_eq!(command("echo silent", true), run_from(&test_value(r#"test = "@echo silent""#)));
}

#[test]
fn run_command() {
    assert_eq!(command("foo", false), run_from(&test_value(r#"test = { cmd = "foo" }"#)));
    assert_eq!(
        command("bar", true),
        run_from(&test_value(r#"test = { command = "bar", silent = true }"#))
    );
}

#[test]
fn run_task_local() {
    assert_eq!(
        Run::Task(TaskName::Local("local".to_owned())),
        run_from(&test_value(r#"test = { task = "local" }"#))
    );
}

#[test]
fn run_task_root() {
    assert_eq!(
        Run::Task(TaskName::Root("root".to_owned())),
        run_from(&test_value(r#"test = { task = "/root" }"#))
    );
}

#[test]
fn run_task_qualified() {
    assert_eq!(
        Run::Task(qualified("fully", "qualified")),
        run_from(&test_value(r#"test = { task = "fully/qualified" }"#))
    );
}

#[test]
fn task_run_single() {
    let task = Task::new(false, None, vec![command("echo test", true)], false);
    assert_eq!(task, task_from(&test_value(r#"test = { run = "@echo test" }"#)));
}

#[test]
fn task_run_multiple() {
    let task = Task::new(false, None, vec![command("one", false), command("two", false)], false);
    assert_eq!(task, task_from(&test_value(r#"test = { run = ["one", "two"] }"#)));
}

#[test]
fn task_run_others() {
    let task = Task::new(
        false,
        None,
        vec![
            Run::Task(TaskName::Local("local".to_owned())),
            Run::Task(TaskName::Root("root".to_owned())),
            Run::Task(qualified("some", "other")),
        ],
        false,
    );
    assert_eq!(
        task,
        task_from(&test_value(
            r#"test.run = [{ task = "local" }, { task = "/root" }, { task = "some/other" }]"#
        ))
    );
}

use wrun::{AbsoluteTaskName, TaskName};

fn qualified(package: &str, task: &str) -> AbsoluteTaskName {
    AbsoluteTaskName::Qualified {
        package: package.to_owned(),
        task: task.to_owned(),
    }
}

#[test]
fn local_name_resolves_in_given_package() {
    assert_eq!(TaskName::new("build").relative_to("pkg"), qualified("pkg", "build"));
    assert_eq!(TaskName::new("build").relative_to(""), qualified("", "build"));
}

#[test]
fn root_name_ignores_package() {
    assert_eq!(
        TaskName::new("/build").relative_to("pkg"),
        AbsoluteTaskName::Root("build".to_owned())
    );
}

#[test]
fn only_last_slash_splits() {
    assert_eq!(TaskName::new("a/b/c").relative_to("p"), qualified("a/b", "c"));
    assert_eq!(
        TaskName::new("/a/b"),
        TaskName::Qualified {
            package: "/a".to_owned(),
            task: "b".to_owned()
        }
    );
}

#[test]
fn text_round_trip() {
    for name in [qualified("lib/sub", "test"), AbsoluteTaskName::Root("fmt".to_owned())] {
        let text = name.to_text();
        assert_eq!(TaskName::new(&text).relative_to("elsewhere"), name);
    }
    assert_eq!(qualified("lib", "t").to_text(), "lib/t");
    assert_eq!(AbsoluteTaskName::Root("t".to_owned()).to_text(), "/t");
}

#[test]
fn written_forms() {
    assert_eq!(TaskName::Local("x".to_owned()).to_text(), "x");
    assert_eq!(TaskName::Root("x".to_owned()).to_text(), "/x");
    assert_eq!(TaskName::new("p/x").to_text(), "p/x");
    let parsed: TaskName = "p/x".parse().unwrap();
    assert_eq!(parsed, TaskName::new("p/x"));
}

#[test]
fn absolute_parts() {
    let q = qualified("lib", "t");
    assert_eq!((q.package(), q.task()), ("lib", "t"));
    let r = AbsoluteTaskName::Root("t".to_owned());
    assert_eq!((r.package(), r.task()), ("", "t"));
}

#[test]
fn empty_name_is_local() {
    assert_eq!(TaskName::new(""), TaskName::Local(String::new()));
    assert_eq!(TaskName::new("/"), TaskName::Root(String::new()));
}

use linked_hash_map::LinkedHashMap;
use toml_edit::Document;
use weee::config::{Factory, File, FileVersion, IncrementPayload, IntegerOrString, Part, ProfileConfig};
use weee::context::{ChangedVersion, ProfileContext};
use weee::error::ErrorKind;
use weee::run::ReplacementRun;

fn number(value: u64) -> Part {
    Part {
        value: IntegerOrString::Integer(value),
        factory: Factory::Increment(Some(IncrementPayload { default: Some(0) })),
    }
}

fn looped(value: &str, chain: &[&str]) -> Part {
    Part {
        value: IntegerOrString::String(value.to_string()),
        factory: Factory::Loop(
            chain.iter().map(|item| IntegerOrString::String(item.to_string())).collect(),
        ),
    }
}

fn rule(view: &str, placement: &str) -> File {
    File {
        version: FileVersion { view: view.to_string(), placement: placement.to_string() },
        replaces_count: None,
        enable_liquid_tempaltes: None,
    }
}

fn document_of(parts: &[(&str, Part)]) -> String {
    let mut text = String::from("# the version of the project\n");
    for (name, part) in parts {
        text.push_str(&format!("\n[parts.{}]\n", name));
        match &part.value {
            IntegerOrString::Integer(value) => {
                text.push_str(&format!("value = {}\n", *value as i64))
            }
            IntegerOrString::String(value) => text.push_str(&format!("value = \"{}\"\n", value)),
        }
        text.push_str("factory = { name = \"increment\" } # kept as it is\n");
    }
    text
}

fn profile(name: &str, parts: Vec<(&str, Part)>, files: Vec<(&str, Vec<File>)>) -> ProfileContext {
    let text = document_of(&parts);
    let mut part_map = LinkedHashMap::new();
    for (part_name, part) in parts {
        part_map.insert(part_name.to_string(), part);
    }
    let mut file_map = LinkedHashMap::new();
    for (file_name, rules) in files {
        file_map.insert(file_name.to_string(), rules);
    }
    ProfileContext {
        profile_model: ProfileConfig { parts: part_map, files: file_map, hooks: None },
        profile_doc: text.parse::<Document>().unwrap(),
        profile_name: name.to_string(),
    }
}

fn project_profile(values: (u64, u64, u64, &str, u64)) -> ProfileContext {
    profile(
        "project",
        vec![
            ("major", number(values.0)),
            ("minor", number(values.1)),
            ("patch", number(values.2)),
            ("stage", looped(values.3, &["a", "b"])),
            ("step", number(values.4)),
        ],
        vec![(
            "pyproject.toml",
            vec![rule("{major}.{minor}.{patch}{stage}{step}", "version = \"{version}\"")],
        )],
    )
}

fn dep_profile(values: (u64, u64, u64, &str, u64)) -> ProfileContext {
    profile(
        "dep",
        vec![
            ("major", number(values.0)),
            ("minor", number(values.1)),
            ("patch", number(values.2)),
            ("stage", looped(values.3, &["alpha", "beta"])),
            ("step", number(values.4)),
        ],
        vec![(
            "req.txt",
            vec![
                rule("{major}.{minor}.{patch}-{stage}{step}", "dep=={version}"),
                rule("{major}.{minor}", "other=={version}"),
            ],
        )],
    )
}

struct SimpleProject {
    pyproject: String,
    req: String,
    project: (u64, u64, u64, String, u64),
    dep: (u64, u64, u64, String, u64),
}

#[derive(Debug, PartialEq)]
struct SimpleProjectVersions {
    dep: String,
    dep_another_style: String,
    project: String,
}

fn as_number(value: &IntegerOrString<u64>) -> u64 {
    match value {
        IntegerOrString::Integer(value) => *value,
        IntegerOrString::String(text) => panic!("{} is no number", text),
    }
}

fn as_text(value: &IntegerOrString<u64>) -> String {
    match value {
        IntegerOrString::String(text) => text.clone(),
        IntegerOrString::Integer(value) => panic!("{} is no text", value),
    }
}

fn values_of(changed: &ChangedVersion) -> (u64, u64, u64, String, u64) {
    (
        as_number(&changed.new["major"]),
        as_number(&changed.new["minor"]),
        as_number(&changed.new["patch"]),
        as_text(&changed.new["stage"]),
        as_number(&changed.new["step"]),
    )
}

impl SimpleProject {
    fn setup() -> SimpleProject {
        SimpleProject {
            pyproject: "[project]\nname = \"simple\"\nversion = \"14.23.5645b3\"\n".to_string(),
            req: "dep==0.1.0-alpha0\nother==0.1\n".to_string(),
            project: (14, 23, 5645, "b".to_string(), 3),
            dep: (0, 1, 0, "alpha".to_string(), 0),
        }
    }

    fn bump(&mut self, profile_name: &str, part: &str) {
        let mut context = if profile_name == "project" {
            let now = &self.project;
            project_profile((now.0, now.1, now.2, now.3.as_str(), now.4))
        } else {
            let now = &self.dep;
            dep_profile((now.0, now.1, now.2, now.3.as_str(), now.4))
        };
        let changed = context.checked_bump_version(part).unwrap().unwrap();
        let prepared = context.prepare_replacemts(&changed).unwrap();
        let mut run = ReplacementRun::new();
        for file in prepared.iter() {
            let on_disk = if file.name == "pyproject.toml" {
                self.pyproject.clone()
            } else {
                self.req.clone()
            };
            let loaded = match run.content_of(&file.name) {
                Some(_) => None,
                None => Some(on_disk),
            };
            let content =
                context.checked_change_files_content(&mut run, file, loaded).unwrap().unwrap();
            if file.name == "pyproject.toml" {
                self.pyproject = content;
            } else {
                self.req = content;
            }
        }
        context.update_storage(&changed).unwrap();
        let stored = context.profile_doc.to_string();
        assert!(stored.starts_with("# the version of the project\n"));
        assert!(stored.contains("factory = { name = \"increment\" } # kept as it is\n"));
        let reloaded = stored.parse::<Document>().unwrap();
        for (name, value) in changed.new.iter() {
            let item = &reloaded["parts"][name.as_str()]["value"];
            match value {
                IntegerOrString::Integer(number) => {
                    assert_eq!(item.as_integer(), Some(*number as i64))
                }
                IntegerOrString::String(text) => assert_eq!(item.as_str(), Some(text.as_str())),
            }
        }
        if profile_name == "project" {
            self.project = values_of(&changed);
        } else {
            self.dep = values_of(&changed);
        }
    }

    fn fetch_versions(&self) -> SimpleProjectVersions {
        let req = self.req.trim_end();
        let (first, last) = req.split_once("\n").expect("Invalid req.txt content");
        let first = first.split_once("==").expect("Invalid version separator for req.txt").1;
        let last = last.split_once("==").expect("Invalid version separator for req.txt").1;
        let pyproject_doc =
            self.pyproject.parse::<Document>().expect("Invalid TOML syntax for pyproject.toml");
        let project = pyproject_doc["project"]["version"]
            .as_str()
            .expect("Invalid type for version in pyproject.toml")
            .to_string();
        SimpleProjectVersions {
            dep: first.to_string(),
            dep_another_style: last.to_string(),
            project,
        }
    }
}

#[test]
fn bump_bump_major() {
    let mut project = SimpleProject::setup();
    project.bump("project", "major");
    assert_eq!(
        SimpleProjectVersions {
            project: "15.0.0a0".into(),
            dep: "0.1.0-alpha0".into(),
            dep_another_style: "0.1".into()
        },
        project.fetch_versions()
    );

    let mut project = SimpleProject::setup();
    project.bump("dep", "major");
    assert_eq!(
        SimpleProjectVersions {
            project: "14.23.5645b3".into(),
            dep: "1.0.0-alpha0".into(),
            dep_another_style: "1.0".into()
        },
        project.fetch_versions()
    );
}

#[test]
fn bump_bump_minor() {
    let mut project = SimpleProject::setup();
    project.bump("project", "minor");
    assert_eq!(
        SimpleProjectVersions {
            project: "14.24.0a0".into(),
            dep: "0.1.0-alpha0".into(),
            dep_another_style: "0.1".into()
        },
        project.fetch_versions()
    );

    let mut project = SimpleProject::setup();
    project.bump("dep", "minor");
    assert_eq!(
        SimpleProjectVersions {
            project: "14.23.5645b3".into(),
            dep: "0.2.0-alpha0".into(),
            dep_another_style: "0.2".into()
        },
        project.fetch_versions()
    );
}

#[test]
fn bump_bump_patch() {
    let mut project = SimpleProject::setup();
    project.bump("project", "patch");
    assert_eq!(
        SimpleProjectVersions {
            project: "14.23.5646a0".into(),
            dep: "0.1.0-alpha0".into(),
            dep_another_style: "0.1".into()
        },
        project.fetch_versions()
    );

    let mut project = SimpleProject::setup();
    project.bump("dep", "patch");
    assert_eq!(
        SimpleProjectVersions {
            project: "14.23.5645b3".into(),
            dep: "0.1.1-alpha0".into(),
            dep_another_style: "0.1".into()
        },
        project.fetch_versions()
    );
}

#[test]
fn bump_stage() {
    let mut project = SimpleProject::setup();
    project.bump("project", "stage");
    assert_eq!(
        SimpleProjectVersions {
            project: "14.23.5646a0".into(),
            dep: "0.1.0-alpha0".into(),
            dep_another_style: "0.1".into()
        },
        project.fetch_versions()
    );
}

#[test]
fn bump_bump_stage_overflowly() {
    let mut project = SimpleProject::setup();
    project.bump("project", "stage");
    assert_eq!(
        SimpleProjectVersions {
            project: "14.23.5646a0".into(),
            dep: "0.1.0-alpha0".into(),
            dep_another_style: "0.1".into()
        },
        project.fetch_versions()
    );

    project.bump("project", "stage");
    assert_eq!(
        SimpleProjectVersions {
            project: "14.23.5646b0".into(),
            dep: "0.1.0-alpha0".into(),
            dep_another_style: "0.1".into()
        },
        project.fetch_versions()
    );

    project.bump("project", "step");
    assert_eq!(
        SimpleProjectVersions {
            project: "14.23.5646b1".into(),
            dep: "0.1.0-alpha0".into(),
            dep_another_style: "0.1".into()
        },
        project.fetch_versions()
    );

    project.bump("project", "stage");
    assert_eq!(
        SimpleProjectVersions {
            project: "14.23.5647a0".into(),
            dep: "0.1.0-alpha0".into(),
            dep_another_style: "0.1".into()
        },
        project.fetch_versions()
    );

    let mut project = SimpleProject::setup();
    project.bump("dep", "stage");
    assert_eq!(
        SimpleProjectVersions {
            project: "14.23.5645b3".into(),
            dep: "0.1.0-beta0".into(),
            dep_another_style: "0.1".into()
        },
        project.fetch_versions()
    );

    project.bump("dep", "stage");
    assert_eq!(
        SimpleProjectVersions {
            project: "14.23.5645b3".into(),
            dep: "0.1.1-alpha0".into(),
            dep_another_style: "0.1".into()
        },
        project.fetch_versions()
    );
}

fn scenario_parts(stage: &str) -> ProfileContext {
    profile(
        "project",
        vec![
            ("major", number(14)),
            ("minor", number(23)),
            ("patch", number(5645)),
            ("stage", looped(stage, &["a0", "b0", "b1"])),
        ],
        vec![],
    )
}

fn pairs_of(version: &LinkedHashMap<String, IntegerOrString<u64>>) -> Vec<(String, String)> {
    version.iter().map(|(name, value)| (name.clone(), value.to_string())).collect()
}

fn expected(pairs: &[(&str, &str)]) -> Vec<(String, String)> {
    pairs.iter().map(|(name, value)| (name.to_string(), value.to_string())).collect()
}

#[test]
fn bumping_minor_resets_patch_and_stage() {
    let context = scenario_parts("a0");
    let changed = context.checked_bump_version("minor").unwrap().unwrap();
    assert_eq!(
        pairs_of(&changed.old),
        expected(&[("major", "14"), ("minor", "23"), ("patch", "5645"), ("stage", "a0")])
    );
    assert_eq!(
        pairs_of(&changed.new),
        expected(&[("major", "14"), ("minor", "24"), ("patch", "0"), ("stage", "a0")])
    );
    assert_eq!(changed.new["minor"], IntegerOrString::Integer(24));
    assert_eq!(changed.new["stage"], IntegerOrString::String("a0".to_string()));
}

#[test]
fn wrapping_stage_carries_into_patch() {
    let context = scenario_parts("b1");
    let changed = context.checked_bump_version("stage").unwrap().unwrap();
    assert_eq!(
        pairs_of(&changed.new),
        expected(&[("major", "14"), ("minor", "23"), ("patch", "5646"), ("stage", "a0")])
    );
}

#[test]
fn stage_without_wrap_leaves_the_rest() {
    let context = scenario_parts("a0");
    let changed = context.checked_bump_version("stage").unwrap().unwrap();
    assert_eq!(
        pairs_of(&changed.new),
        expected(&[("major", "14"), ("minor", "23"), ("patch", "5645"), ("stage", "b0")])
    );
}

#[test]
fn carry_runs_through_parts_that_wrap() {
    let context = profile(
        "clock",
        vec![
            ("days", number(6)),
            ("hours", looped("23", &["0", "23"])),
            ("minutes", looped("59", &["0", "59"])),
            ("seconds", number(30)),
        ],
        vec![],
    );
    let changed = context.checked_bump_version("minutes").unwrap().unwrap();
    assert_eq!(
        pairs_of(&changed.new),
        expected(&[("days", "7"), ("hours", "0"), ("minutes", "0"), ("seconds", "0")])
    );
}

#[test]
fn carry_stops_at_the_first_part_that_absorbs_it() {
    let context = profile(
        "clock",
        vec![
            ("days", number(6)),
            ("hours", looped("0", &["0", "23"])),
            ("minutes", looped("59", &["0", "59"])),
        ],
        vec![],
    );
    let changed = context.checked_bump_version("minutes").unwrap().unwrap();
    assert_eq!(
        pairs_of(&changed.new),
        expected(&[("days", "6"), ("hours", "23"), ("minutes", "0")])
    );
}

#[test]
fn unknown_part_is_refused() {
    let context = scenario_parts("a0");
    let error = context.checked_bump_version("build").unwrap().unwrap_err();
    assert_eq!(error.kind, ErrorKind::NoSuchVersionPart);
    assert_eq!(error.title, "NoSuchVersionPartExists");
    assert_eq!(context.check_part_exists("build").unwrap_err().kind, ErrorKind::NoSuchVersionPart);
    assert_eq!(
        context.fetch_default_of_part("build").unwrap_err().kind,
        ErrorKind::NoSuchVersionPart
    );
    assert_eq!(
        context.checked_fetch_next_of_part("build").unwrap().unwrap_err().kind,
        ErrorKind::NoSuchVersionPart
    );
    assert_eq!(context.check_part_exists("patch").unwrap(), number(5645));
}

#[test]
fn value_outside_the_chain_is_refused() {
    let context = profile("p", vec![("stage", looped("gamma", &["alpha", "beta"]))], vec![]);
    let error = context.checked_fetch_next_of_part("stage").unwrap().unwrap_err();
    assert_eq!(error.kind, ErrorKind::CurrentValueNotInChain);
    let error = context.checked_bump_version("stage").unwrap().unwrap_err();
    assert_eq!(error.kind, ErrorKind::CurrentValueNotInChain);
}

#[test]
fn empty_chain_has_no_default() {
    let context = profile(
        "p",
        vec![("major", number(1)), ("stage", looped("a", &[]))],
        vec![],
    );
    assert_eq!(
        context.fetch_default_of_part("stage").unwrap_err().kind,
        ErrorKind::EmptyFactoryPayload
    );
    assert_eq!(
        context.checked_bump_version("major").unwrap().unwrap_err().kind,
        ErrorKind::EmptyFactoryPayload
    );
    assert_eq!(
        context.checked_fetch_next_of_part("stage").unwrap().unwrap_err().kind,
        ErrorKind::CurrentValueNotInChain
    );
}

#[test]
fn text_that_spells_a_number_is_incremented() {
    let spelled = Part {
        value: IntegerOrString::String("41".to_string()),
        factory: Factory::Increment(None),
    };
    let context = profile("p", vec![("build", spelled)], vec![]);
    assert_eq!(
        context.checked_fetch_next_of_part("build").unwrap().unwrap(),
        IntegerOrString::Integer(42)
    );
    assert_eq!(context.fetch_default_of_part("build").unwrap(), IntegerOrString::Integer(0));
}

#[test]
fn text_that_spells_no_number_is_refused() {
    let spelled = Part {
        value: IntegerOrString::String("4x".to_string()),
        factory: Factory::Increment(None),
    };
    let context = profile("p", vec![("build", spelled)], vec![]);
    assert_eq!(
        context.checked_fetch_next_of_part("build").unwrap().unwrap_err().kind,
        ErrorKind::NotAnInteger
    );
    assert_eq!(
        context.checked_bump_version("build").unwrap().unwrap_err().kind,
        ErrorKind::NotAnInteger
    );
}

#[test]
fn increment_default_comes_from_the_payload() {
    let part = Part {
        value: IntegerOrString::Integer(9),
        factory: Factory::Increment(Some(IncrementPayload { default: Some(1) })),
    };
    let context = profile("p", vec![("major", number(2)), ("minor", part)], vec![]);
    assert_eq!(context.fetch_default_of_part("minor").unwrap(), IntegerOrString::Integer(1));
    let changed = context.checked_bump_version("major").unwrap().unwrap();
    assert_eq!(pairs_of(&changed.new), expected(&[("major", "3"), ("minor", "1")]));
}

#[test]
fn largest_number_cannot_be_bumped() {
    let context = profile("p", vec![("major", number(u64::MAX)), ("minor", number(0))], vec![]);
    assert!(!context.bump_stays_in_range("major"));
    assert!(context.checked_bump_version("major").is_none());
    assert!(!context.part_can_advance("major"));
    assert!(context.checked_fetch_next_of_part("major").is_none());
    assert!(context.bump_stays_in_range("minor"));
    let changed = context.checked_bump_version("minor").unwrap().unwrap();
    assert_eq!(
        pairs_of(&changed.new),
        expected(&[("major", "18446744073709551615"), ("minor", "1")])
    );
}

#[test]
fn chain_wraps_after_its_last_element() {
    let context = profile("p", vec![("stage", looped("b1", &["a0", "b0", "b1"]))], vec![]);
    assert_eq!(
        context.checked_fetch_next_of_part("stage").unwrap().unwrap(),
        IntegerOrString::String("a0".to_string())
    );
    assert_eq!(
        context.fetch_default_of_part("stage").unwrap(),
        IntegerOrString::String("a0".to_string())
    );
}

#[test]
fn failure_that_comes_first_is_reported_before_any_overflow() {
    let context = profile(
        "p",
        vec![
            ("patch", number(u64::MAX)),
            ("stage", looped("a", &["a"])),
            ("extra", looped("x", &[])),
        ],
        vec![],
    );
    assert!(context.bump_stays_in_range("stage"));
    assert_eq!(
        context.checked_bump_version("stage").unwrap().unwrap_err().kind,
        ErrorKind::EmptyFactoryPayload
    );
    let context = profile(
        "p",
        vec![("patch", number(u64::MAX)), ("stage", looped("a", &["a"]))],
        vec![],
    );
    assert!(!context.bump_stays_in_range("stage"));
    assert!(context.checked_bump_version("stage").is_none());
    let context = profile(
        "p",
        vec![("patch", number(u64::MAX)), ("stage", looped("a", &["a", "b"]))],
        vec![],
    );
    let changed = context.checked_bump_version("stage").unwrap().unwrap();
    assert_eq!(
        pairs_of(&changed.new),
        expected(&[("patch", "18446744073709551615"), ("stage", "b")])
    );
}

#[test]
fn first_failure_in_the_order_of_the_work_is_reported() {
    let spelled = Part {
        value: IntegerOrString::String("x".to_string()),
        factory: Factory::Increment(None),
    };
    let context = profile(
        "p",
        vec![("major", spelled.clone()), ("stage", looped("z", &["a"])), ("extra", looped("x", &[]))],
        vec![],
    );
    assert_eq!(
        context.checked_bump_version("major").unwrap().unwrap_err().kind,
        ErrorKind::NotAnInteger
    );
    assert_eq!(
        context.checked_bump_version("stage").unwrap().unwrap_err().kind,
        ErrorKind::EmptyFactoryPayload
    );
    let context = profile(
        "p",
        vec![("major", spelled), ("stage", looped("a", &["a"]))],
        vec![],
    );
    assert_eq!(
        context.checked_bump_version("stage").unwrap().unwrap_err().kind,
        ErrorKind::NotAnInteger
    );
}

#[test]
fn moving_keeps_the_version_as_it_stands() {
    let context = scenario_parts("b0");
    assert_eq!(
        pairs_of(&context.current_version()),
        expected(&[("major", "14"), ("minor", "23"), ("patch", "5645"), ("stage", "b0")])
    );
    let mut typed = LinkedHashMap::new();
    typed.insert("major".to_string(), IntegerOrString::Integer(40));
    typed.insert("stage".to_string(), IntegerOrString::String("a0".to_string()));
    let changed = context.move_version(typed);
    assert_eq!(
        pairs_of(&changed.old),
        expected(&[("major", "14"), ("minor", "23"), ("patch", "5645"), ("stage", "b0")])
    );
    assert_eq!(pairs_of(&changed.new), expected(&[("major", "40"), ("stage", "a0")]));
}

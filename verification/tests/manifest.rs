use pyproject::config::Config;
use pyproject::constraint::{Constraint, ReqType};
use pyproject::error::DescriptorError;
use pyproject::manifest::{
    DepComponent, DepComponentWrapper, Pipfile, Poetry, Pyflow, Pyproject, Tool,
};
use pyproject::reading::{is_python, needs_fallback_authors, read_entry};
use pyproject::req::Req;
use pyproject::version::Version;

fn text(s: &str) -> Option<String> {
    Some(s.to_string())
}

fn short(name: &str, constrs: &str) -> (String, DepComponentWrapper) {
    (name.to_string(), DepComponentWrapper::A(constrs.to_string()))
}

fn table(name: &str, component: DepComponent) -> (String, DepComponentWrapper) {
    (name.to_string(), DepComponentWrapper::B(component))
}

fn manifest(poetry: Option<Poetry>, pyflow: Option<Pyflow>) -> Option<Pyproject> {
    Some(Pyproject { tool: Tool { pyflow, poetry } })
}

fn nobody() -> Vec<String> {
    Vec::new()
}

fn gte(major: u32, minor: u32, patch: u32) -> Constraint {
    Constraint::new(ReqType::Gte, Version::new(major, minor, patch))
}

fn lt(major: u32, minor: u32, patch: u32) -> Constraint {
    Constraint::new(ReqType::Lt, Version::new(major, minor, patch))
}

#[test]
fn a_table_of_dependencies_gives_one_requirement_for_each_entry() {
    let deps = vec![
        short("requests", ">=2.0,<3.0"),
        short("numpy", "^1.17"),
        table("local", DepComponent { path: text("../local"), ..DepComponent::default() }),
    ];
    let reqs = Config::parse_deps(deps).unwrap();
    assert_eq!(reqs.len(), 3);
    assert_eq!(reqs[0], Req::new("requests".to_string(), vec![gte(2, 0, 0), lt(3, 0, 0)]));
    assert_eq!(
        reqs[1],
        Req::new(
            "numpy".to_string(),
            vec![Constraint::new(ReqType::Caret, Version::new(1, 17, 0))]
        )
    );
    assert_eq!(reqs[2].name, "local");
    assert_eq!(reqs[2].constraints, vec![]);
    assert_eq!(reqs[2].path, text("../local"));
    assert_eq!(reqs[2].git, None);
}

#[test]
fn an_empty_table_gives_no_requirement() {
    assert_eq!(Config::parse_deps(vec![]), Ok(vec![]));
}

#[test]
fn the_table_form_fills_the_fields_that_it_gives() {
    let component = DepComponent {
        constrs: text("~=4.1"),
        extras: Some(vec!["security".to_string(), "socks".to_string()]),
        path: None,
        git: text("https://example.org/repo.git"),
        python: text(">=3.6"),
    };
    let req = read_entry("thing".to_string(), DepComponentWrapper::B(component)).unwrap();
    assert_eq!(
        req,
        Req {
            name: "thing".to_string(),
            constraints: vec![Constraint::new(ReqType::Tilde, Version::new(4, 1, 0))],
            extra: None,
            sys_platform: None,
            python_version: Some(vec![gte(3, 6, 0)]),
            install_with_extras: Some(vec!["security".to_string(), "socks".to_string()]),
            path: None,
            git: text("https://example.org/repo.git"),
        }
    );
}

#[test]
fn both_shapes_of_a_dependency_give_the_same_requirement() {
    let a = read_entry("foo".to_string(), DepComponentWrapper::A(">=1.0".to_string()));
    let b = read_entry(
        "foo".to_string(),
        DepComponentWrapper::B(DepComponent { constrs: text(">=1.0"), ..DepComponent::default() }),
    );
    assert_eq!(a, b);
    assert_eq!(a, Ok(Req::new("foo".to_string(), vec![gte(1, 0, 0)])));
}

#[test]
fn bad_constraints_end_the_reading_of_a_table() {
    let deps = vec![short("good", ">=1.0"), short("bad", "at least 1"), short("later", "2")];
    assert_eq!(Config::parse_deps(deps), Err(DescriptorError::Constraints));
    let deps = vec![table(
        "bad",
        DepComponent { constrs: text(">=1.0"), python: text("three"), ..DepComponent::default() },
    )];
    assert_eq!(Config::parse_deps(deps), Err(DescriptorError::DependencyPython));
}

#[test]
fn the_first_entry_that_cannot_be_read_says_what_is_wrong() {
    let python = table(
        "a",
        DepComponent { python: text("three"), ..DepComponent::default() },
    );
    let constraints = short("b", "");
    assert_eq!(
        Config::parse_deps(vec![python.clone(), constraints.clone()]),
        Err(DescriptorError::DependencyPython)
    );
    assert_eq!(
        Config::parse_deps(vec![constraints, python]),
        Err(DescriptorError::Constraints)
    );
}

#[test]
fn no_file_gives_no_config() {
    assert_eq!(Config::from_file(None, nobody()), Ok(None));
    assert_eq!(Config::from_pipfile(None), Ok(None));
}

#[test]
fn an_empty_manifest_gives_the_default_config() {
    assert_eq!(Config::from_file(manifest(None, None), nobody()), Ok(Some(Config::default())));
    assert_eq!(
        Config::from_file(manifest(Some(Poetry::default()), Some(Pyflow::default())), nobody()),
        Ok(Some(Config::default()))
    );
}

#[test]
fn native_section_end_to_end() {
    let pyflow = Pyflow {
        dependencies: Some(vec![short("requests", ">=2.0,<3.0")]),
        ..Pyflow::default()
    };
    let config = Config::from_file(manifest(None, Some(pyflow)), nobody()).unwrap().unwrap();
    assert_eq!(
        config.reqs,
        vec![Req {
            name: "requests".to_string(),
            constraints: vec![gte(2, 0, 0), lt(3, 0, 0)],
            extra: None,
            sys_platform: None,
            python_version: None,
            install_with_extras: None,
            path: None,
            git: None,
        }]
    );
    assert_eq!(config.dev_reqs, vec![]);
    assert_eq!(config.name, None);
}

#[test]
fn the_native_name_stands_over_the_poetry_name() {
    let poetry = Poetry { name: text("from-poetry"), ..Poetry::default() };
    let pyflow = Pyflow { name: text("from-native"), ..Pyflow::default() };
    let config = Config::from_file(manifest(Some(poetry), Some(pyflow)), nobody()).unwrap().unwrap();
    assert_eq!(config.name, text("from-native"));
}

#[test]
fn a_field_that_the_native_section_leaves_out_stays() {
    let poetry = Poetry {
        name: text("from-poetry"),
        license: text("MIT"),
        description: text("poetic"),
        keywords: Some(vec!["a".to_string()]),
        version: text("1.2.3"),
        extras: Some(vec![("fast".to_string(), "speedups".to_string())]),
        ..Poetry::default()
    };
    let pyflow = Pyflow {
        description: text("native"),
        version: text("2.0"),
        keywords: Some(vec![]),
        ..Pyflow::default()
    };
    let config = Config::from_file(manifest(Some(poetry), Some(pyflow)), nobody()).unwrap().unwrap();
    assert_eq!(config.name, text("from-poetry"));
    assert_eq!(config.license, text("MIT"));
    assert_eq!(config.description, text("native"));
    assert_eq!(config.version, Some(Version::new(2, 0, 0)));
    assert_eq!(config.keywords, Vec::<String>::new());
    assert_eq!(config.extras, vec![("fast".to_string(), "speedups".to_string())]);
}

#[test]
fn every_native_field_is_taken() {
    let pyflow = Pyflow {
        py_version: text("3.7"),
        name: text("n"),
        version: text("0.3.1"),
        authors: Some(vec!["A <a@example.org>".to_string()]),
        license: text("MIT"),
        description: text("d"),
        classifiers: Some(vec!["c".to_string()]),
        keywords: Some(vec!["k".to_string()]),
        homepage: text("h"),
        repository: text("r"),
        package_url: text("p"),
        readme: text("README.md"),
        build: text("build.py"),
        scripts: Some(vec![("run".to_string(), "pkg:main".to_string())]),
        python_requires: text(">=3.7"),
        dependencies: Some(vec![short("a", "1")]),
        dev_dependencies: Some(vec![short("b", "2")]),
    };
    let config = Config::from_file(manifest(None, Some(pyflow)), nobody()).unwrap().unwrap();
    let exact = |major| vec![Constraint::new(ReqType::Exact, Version::new(major, 0, 0))];
    assert_eq!(
        config,
        Config {
            name: text("n"),
            py_version: Some(Version::new(3, 7, 0)),
            reqs: vec![Req::new("a".to_string(), exact(1))],
            dev_reqs: vec![Req::new("b".to_string(), exact(2))],
            version: Some(Version::new(0, 3, 1)),
            authors: vec!["A <a@example.org>".to_string()],
            license: text("MIT"),
            extras: vec![],
            description: text("d"),
            classifiers: vec!["c".to_string()],
            keywords: vec!["k".to_string()],
            homepage: text("h"),
            repository: text("r"),
            repo_url: None,
            package_url: text("p"),
            readme: text("README.md"),
            build: text("build.py"),
            scripts: vec![("run".to_string(), "pkg:main".to_string())],
            python_requires: text(">=3.7"),
        }
    );
}

#[test]
fn native_dependencies_replace_those_of_poetry() {
    let poetry = Poetry {
        dependencies: Some(vec![short("from-poetry", "1.0"), short("other", "2.0")]),
        ..Poetry::default()
    };
    let pyflow = Pyflow { dependencies: Some(vec![short("native", "3.0")]), ..Pyflow::default() };
    let config = Config::from_file(manifest(Some(poetry.clone()), Some(pyflow)), nobody())
        .unwrap()
        .unwrap();
    assert_eq!(config.reqs.len(), 1);
    assert_eq!(config.reqs[0].name, "native");
    let silent = Pyflow { name: text("n"), ..Pyflow::default() };
    let config =
        Config::from_file(manifest(Some(poetry), Some(silent)), nobody()).unwrap().unwrap();
    assert_eq!(config.reqs.len(), 2);
    assert_eq!(config.reqs[0].name, "from-poetry");
    assert_eq!(config.reqs[1].name, "other");
}

#[test]
fn empty_native_authors_fall_back() {
    let fallback = vec!["Local User <local@example.org>".to_string()];
    let pyflow = Pyflow { authors: Some(vec![]), ..Pyflow::default() };
    let shown = manifest(None, Some(pyflow));
    assert!(needs_fallback_authors(shown.as_ref().unwrap()));
    let config = Config::from_file(shown, fallback.clone()).unwrap().unwrap();
    assert!(!config.authors.is_empty());
    assert_eq!(config.authors, fallback);
}

#[test]
fn given_native_authors_are_kept() {
    let fallback = vec!["Local User <local@example.org>".to_string()];
    let pyflow = Pyflow { authors: Some(vec!["A".to_string()]), ..Pyflow::default() };
    let shown = manifest(None, Some(pyflow));
    assert!(!needs_fallback_authors(shown.as_ref().unwrap()));
    let config = Config::from_file(shown, fallback).unwrap().unwrap();
    assert_eq!(config.authors, vec!["A".to_string()]);
}

#[test]
fn absent_native_authors_leave_those_of_poetry() {
    let poetry = Poetry { authors: Some(vec!["P".to_string()]), ..Poetry::default() };
    let shown = manifest(Some(poetry.clone()), Some(Pyflow::default()));
    assert!(!needs_fallback_authors(shown.as_ref().unwrap()));
    let config = Config::from_file(shown, vec!["F".to_string()]).unwrap().unwrap();
    assert_eq!(config.authors, vec!["P".to_string()]);
    let empty = Pyflow { authors: Some(vec![]), ..Pyflow::default() };
    let config = Config::from_file(manifest(Some(poetry), Some(empty)), vec!["F".to_string()])
        .unwrap()
        .unwrap();
    assert_eq!(config.authors, vec!["F".to_string()]);
}

#[test]
fn empty_poetry_authors_do_not_fall_back() {
    let poetry = Poetry { authors: Some(vec![]), ..Poetry::default() };
    let config =
        Config::from_file(manifest(Some(poetry), None), vec!["F".to_string()]).unwrap().unwrap();
    assert_eq!(config.authors, Vec::<String>::new());
}

#[test]
fn python_in_poetry_is_the_interpreter_version() {
    for name in ["python", "Python", "PYTHON", "pYtHoN"] {
        let poetry = Poetry {
            dependencies: Some(vec![
                short("first", "1.0"),
                short(name, "^3.7,<4"),
                short("second", "2.0"),
            ]),
            ..Poetry::default()
        };
        let config = Config::from_file(manifest(Some(poetry), None), nobody()).unwrap().unwrap();
        assert_eq!(config.py_version, Some(Version::new(3, 7, 0)), "{:?}", name);
        assert_eq!(config.reqs.len(), 2);
        assert_eq!(config.reqs[0].name, "first");
        assert_eq!(config.reqs[1].name, "second");
        assert!(config.reqs.iter().all(|r| r.name.to_lowercase() != "python"));
    }
}

#[test]
fn python_without_constraints_gives_no_interpreter_version() {
    let poetry = Poetry { dependencies: Some(vec![short("python", "*")]), ..Poetry::default() };
    let config = Config::from_file(manifest(Some(poetry), None), nobody()).unwrap().unwrap();
    assert_eq!(config.py_version, None);
    assert_eq!(config.reqs, vec![]);
}

#[test]
fn python_in_the_native_section_is_a_requirement() {
    let pyflow = Pyflow { dependencies: Some(vec![short("python", "^3.7")]), ..Pyflow::default() };
    let config = Config::from_file(manifest(None, Some(pyflow)), nobody()).unwrap().unwrap();
    assert_eq!(config.py_version, None);
    assert_eq!(config.reqs.len(), 1);
    assert_eq!(config.reqs[0].name, "python");
}

#[test]
fn only_python_is_python() {
    assert!(is_python("python"));
    assert!(is_python("PyThOn"));
    for name in ["", "pytho", "pythons", "python3", "pyth0n", " python", "qython"] {
        assert!(!is_python(name), "{:?}", name);
    }
}

#[test]
fn the_native_interpreter_version_stands_over_that_of_poetry() {
    let poetry = Poetry { dependencies: Some(vec![short("python", "^3.6")]), ..Poetry::default() };
    let pyflow = Pyflow { py_version: text("3.8"), ..Pyflow::default() };
    let config = Config::from_file(manifest(Some(poetry.clone()), Some(pyflow)), nobody())
        .unwrap()
        .unwrap();
    assert_eq!(config.py_version, Some(Version::new(3, 8, 0)));
    let config = Config::from_file(manifest(Some(poetry), Some(Pyflow::default())), nobody())
        .unwrap()
        .unwrap();
    assert_eq!(config.py_version, Some(Version::new(3, 6, 0)));
}

#[test]
fn a_text_that_cannot_be_read_ends_the_reading() {
    let read = |poetry, pyflow| Config::from_file(manifest(poetry, pyflow), nobody());
    let poetry = Poetry { version: text("one"), ..Poetry::default() };
    assert_eq!(read(Some(poetry), None), Err(DescriptorError::ProjectVersion));
    let pyflow = Pyflow { version: text("one"), ..Pyflow::default() };
    assert_eq!(read(None, Some(pyflow)), Err(DescriptorError::ProjectVersion));
    let pyflow = Pyflow { py_version: text("three"), ..Pyflow::default() };
    assert_eq!(read(None, Some(pyflow)), Err(DescriptorError::PythonVersion));
    let pyflow = Pyflow { dependencies: Some(vec![short("a", "?")]), ..Pyflow::default() };
    assert_eq!(read(None, Some(pyflow)), Err(DescriptorError::Constraints));
    let pyflow = Pyflow { dev_dependencies: Some(vec![short("a", "?")]), ..Pyflow::default() };
    assert_eq!(read(None, Some(pyflow)), Err(DescriptorError::Constraints));
    let poetry = Poetry { dependencies: Some(vec![short("python", "?")]), ..Poetry::default() };
    assert_eq!(read(Some(poetry), None), Err(DescriptorError::Constraints));
}

#[test]
fn errors_come_in_the_order_of_the_reading() {
    let read = |poetry, pyflow| Config::from_file(manifest(poetry, pyflow), nobody());
    let pyflow = Pyflow {
        version: text("1.0"),
        py_version: text("three"),
        dependencies: Some(vec![short("a", "?")]),
        ..Pyflow::default()
    };
    assert_eq!(read(None, Some(pyflow.clone())), Err(DescriptorError::PythonVersion));
    let poetry = Poetry { dependencies: Some(vec![short("a", "?")]), ..Poetry::default() };
    assert_eq!(read(Some(poetry), Some(pyflow)), Err(DescriptorError::Constraints));
}

#[test]
fn a_pipfile_gives_requirements_only() {
    let pipfile = Pipfile {
        packages: Some(vec![short("requests", ">=2.0")]),
        dev_packages: Some(vec![short("pytest", "*"), short("black", "==19.10")]),
    };
    let config = Config::from_pipfile(Some(pipfile)).unwrap().unwrap();
    assert_eq!(
        config,
        Config {
            reqs: vec![Req::new("requests".to_string(), vec![gte(2, 0, 0)])],
            dev_reqs: vec![
                Req::new("pytest".to_string(), vec![]),
                Req::new(
                    "black".to_string(),
                    vec![Constraint::new(ReqType::Exact, Version::new(19, 10, 0))]
                ),
            ],
            ..Config::default()
        }
    );
    assert_eq!(Config::from_pipfile(Some(Pipfile::default())), Ok(Some(Config::default())));
    let bad = Pipfile { packages: None, dev_packages: Some(vec![short("x", "y")]) };
    assert_eq!(Config::from_pipfile(Some(bad)), Err(DescriptorError::Constraints));
}

use pyproject::config::{Config, PresentConfig};
use pyproject::constraint::{Constraint, ReqType};
use pyproject::error::DescriptorError;
use pyproject::req::Req;
use pyproject::version::Version;

#[test]
fn a_config_of_which_nothing_is_known_is_written_with_defaults() {
    let expected = "\n[tool.pyflow]\nname = \"\"\npy_version = \"3.8\"\nversion = \"0.1.0\"\n\n[tool.pyflow.scripts]\n\n[tool.pyflow.dependencies]\n\n[tool.pyflow.dev-dependencies]\n\n";
    assert_eq!(Config::default().write_file(false), Ok(expected.to_string()));
    assert_eq!(Config::default().render(), expected);
}

#[test]
fn a_full_config_is_written_section_by_section() {
    let config = Config {
        name: Some("demo".to_string()),
        py_version: Some(Version::new(3, 7, 4)),
        version: Some(Version::new(1, 20, 3)),
        authors: vec!["A <a@example.org>".to_string(), "B".to_string(), "C".to_string()],
        description: Some("What it does".to_string()),
        homepage: Some("https://example.org".to_string()),
        license: Some("MIT".to_string()),
        keywords: vec!["unwritten".to_string()],
        scripts: vec![
            ("run".to_string(), "demo:main".to_string()),
            ("check".to_string(), "demo.check:run".to_string()),
        ],
        reqs: vec![
            Req::new(
                "requests".to_string(),
                vec![
                    Constraint::new(ReqType::Gte, Version::new(2, 0, 0)),
                    Constraint::new(ReqType::Lt, Version::new(3, 0, 0)),
                ],
            ),
            Req::new("numpy".to_string(), vec![]),
            Req::new(
                "flask".to_string(),
                vec![Constraint::new(ReqType::Exact, Version::new(1, 1, 1))],
            ),
        ],
        dev_reqs: vec![Req::new(
            "pytest".to_string(),
            vec![Constraint::new(ReqType::Caret, Version::new(5, 3, 0))],
        )],
        ..Config::default()
    };
    let expected = "\n[tool.pyflow]\nname = \"demo\"\npy_version = \"3.7\"\nversion = \"1.20.3\"\nauthors = [\"A <a@example.org>, B, C\"]\ndescription = \"What it does\"\nhomepage = \"https://example.org\"\n\n[tool.pyflow.scripts]\nrun = \"demo:main\"\ncheck = \"demo.check:run\"\n\n[tool.pyflow.dependencies]\nrequests = \">=2.0.0, <3.0.0\"\nnumpy = \"*\"\nflask = \"1.1.1\"\n\n[tool.pyflow.dev-dependencies]\npytest = \"^5.3.0\"\n\n";
    assert_eq!(config.write_file(false), Ok(expected.to_string()));
}

#[test]
fn one_author_is_written_alone() {
    let config = Config { authors: vec!["Only".to_string()], ..Config::default() };
    let text = config.render();
    assert!(text.contains("\nauthors = [\"Only\"]\n"));
    assert!(!Config::default().render().contains("authors"));
}

#[test]
fn an_existing_manifest_is_never_replaced() {
    let config = Config { name: Some("demo".to_string()), ..Config::default() };
    assert_eq!(config.write_file(true), Err(DescriptorError::ManifestExists));
    assert_eq!(Config::default().write_file(true), Err(DescriptorError::ManifestExists));
}

#[test]
fn writing_twice_to_one_place_succeeds_once() {
    let config = Config { name: Some("demo".to_string()), ..Config::default() };
    let mut place: Option<String> = None;
    let first = config.write_file(place.is_some());
    assert!(first.is_ok());
    place = first.ok();
    let kept = place.clone();
    let other = Config { name: Some("other".to_string()), ..Config::default() };
    let second = other.write_file(place.is_some());
    assert_eq!(second, Err(DescriptorError::ManifestExists));
    assert_eq!(place, kept);
}

#[test]
fn a_requirement_is_written_as_one_line() {
    let req = Req::new(
        "saturn".to_string(),
        vec![Constraint::new(ReqType::Caret, Version::new(0, 3, 1))],
    );
    assert_eq!(req.to_cfg_string(), "saturn = \"^0.3.1\"");
    assert_eq!(Req::new("any".to_string(), vec![]).to_cfg_string(), "any = \"*\"");
    let with_path = Req { path: Some("../x".to_string()), ..Req::new("x".to_string(), vec![]) };
    assert_eq!(with_path.to_cfg_string(), "x = \"*\"");
}

#[test]
fn written_requirements_read_back() {
    let constraints = vec![
        Constraint::new(ReqType::Gte, Version::new(2, 0, 0)),
        Constraint::new(ReqType::Ne, Version::new(2, 1, 7)),
        Constraint::new(ReqType::Exact, Version::new(0, 0, 0)),
    ];
    let req = Req::new("requests".to_string(), constraints.clone());
    let line = req.to_cfg_string();
    let written = line.strip_prefix("requests = \"").unwrap().strip_suffix('"').unwrap();
    assert_eq!(Constraint::from_str_multiple(written), Ok(constraints));
    let line = Req::new("any".to_string(), vec![]).to_cfg_string();
    let written = line.strip_prefix("any = \"").unwrap().strip_suffix('"').unwrap();
    assert_eq!(Constraint::from_str_multiple(written), Ok(vec![]));
}

#[test]
fn the_defaults_are_empty() {
    let config = Config::default();
    assert_eq!(config.name, None);
    assert_eq!(config.reqs, vec![]);
    assert_eq!(config.dev_reqs, vec![]);
    assert_eq!(config.scripts, vec![]);
    let present = PresentConfig::default();
    assert_eq!(present.project_path, "");
    assert_eq!(present.lock_path, "");
    assert_eq!(present.config, config);
}

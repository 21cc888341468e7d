use pyproject::config::Config;
use pyproject::constraint::{Constraint, ReqType};
use pyproject::error::DescriptorError;
use pyproject::lines::{parse_metadata, parse_req_dot_text, parse_requirements};
use pyproject::local::{
    is_dist_info_folder, pop_reqs_helper, read_contents, take_directory, Expansion, Folder,
    PathContents,
};
use pyproject::manifest::{DepComponent, DepComponentWrapper, Poetry, Pyflow, Pyproject, Tool};
use pyproject::req::Req;
use pyproject::version::Version;

fn plain(name: &str) -> Req {
    Req::new(name.to_string(), vec![])
}

fn path_req(name: &str, path: &str) -> Req {
    Req { path: Some(path.to_string()), ..plain(name) }
}

fn folder(name: &str, metadata: Option<&str>) -> Folder {
    Folder { name: name.to_string(), metadata: metadata.map(|m| m.to_string()) }
}

fn native(names: &[&str], dev_names: &[&str]) -> Pyproject {
    let deps = |names: &[&str]| {
        Some(
            names
                .iter()
                .map(|n| (n.to_string(), DepComponentWrapper::A("*".to_string())))
                .collect::<Vec<_>>(),
        )
    };
    Pyproject {
        tool: Tool {
            pyflow: Some(Pyflow {
                name: Some("nested".to_string()),
                dependencies: deps(names),
                dev_dependencies: deps(dev_names),
                ..Pyflow::default()
            }),
            poetry: None,
        },
    }
}

#[test]
fn dist_info_folders_are_known_by_their_name() {
    for name in [
        "requests-2.22.0.dist-info",
        "a-b.dist-info",
        "-.dist-info",
        "--.dist-info",
        "typing_extensions-3.7.4.1.dist-info",
        "x-1.0.dist-info.dist-info",
        "sp ace-1.dist-info",
    ] {
        assert!(is_dist_info_folder(name), "{:?}", name);
    }
}

#[test]
fn other_folders_are_no_dist_info_folders() {
    for name in [
        "",
        ".dist-info",
        "requests.dist-info",
        "requests-2.22.0.dist-info ",
        "requests-2.22.0.dist-info\n",
        "requests-2.22.0\n.dist-info",
        "re\nquests-2.22.0.dist-info",
        "requests-2.22.0-dist-info",
        "requests-2.22.0.DIST-INFO",
        "requests-2.22.0.dist-infos",
        "requests-2.22.0.egg-info",
        "requests_2.22.0.dist-info",
        "dist-info",
        "src",
    ] {
        assert!(!is_dist_info_folder(name), "{:?}", name);
    }
}

#[test]
fn a_requirement_line_gives_a_name_and_constraints() {
    let gte = |a, b, c| Constraint::new(ReqType::Gte, Version::new(a, b, c));
    let lt = |a, b, c| Constraint::new(ReqType::Lt, Version::new(a, b, c));
    assert_eq!(Req::from_str("requests"), Ok(plain("requests")));
    assert_eq!(Req::from_str("requests>=2.0"), Ok(Req::new("requests".into(), vec![gte(2, 0, 0)])));
    assert_eq!(
        Req::from_str("requests (>=2.0, <3.0)"),
        Ok(Req::new("requests".into(), vec![gte(2, 0, 0), lt(3, 0, 0)]))
    );
    assert_eq!(
        Req::from_str("  typing_extensions >= 3.7.4 ; python_version < \"3.8\""),
        Ok(Req::new("typing_extensions".into(), vec![gte(3, 7, 4)]))
    );
    assert_eq!(
        Req::from_str("zope.interface==5"),
        Ok(Req::new(
            "zope.interface".into(),
            vec![Constraint::new(ReqType::Exact, Version::new(5, 0, 0))]
        ))
    );
    assert_eq!(Req::from_str("pkg ; extra == 'x' ; more"), Ok(plain("pkg")));
    assert_eq!(Req::from_str("pkg ()"), Ok(plain("pkg")));
    assert_eq!(
        Req::from_str("\tnumpy 1.17"),
        Ok(Req::new(
            "numpy".into(),
            vec![Constraint::new(ReqType::Exact, Version::new(1, 17, 0))]
        ))
    );
    assert_eq!(Req::from_str("a b"), Err(DescriptorError::Requirement));
}

#[test]
fn a_requirement_line_may_name_extras() {
    let gte = |a, b, c| Constraint::new(ReqType::Gte, Version::new(a, b, c));
    let extras = |names: &[&str]| Some(names.iter().map(|n| n.to_string()).collect::<Vec<_>>());
    assert_eq!(
        Req::from_str("requests[security]"),
        Ok(Req { install_with_extras: extras(&["security"]), ..plain("requests") })
    );
    assert_eq!(
        Req::from_str("requests [security, socks] (>=2.0) ; python_version > '3'"),
        Ok(Req {
            install_with_extras: extras(&["security", "socks"]),
            ..Req::new("requests".into(), vec![gte(2, 0, 0)])
        })
    );
    for line in ["pkg[", "pkg[]", "pkg[a,]", "pkg[,a]", "pkg[a", "pkg]a[", "pkg[a]]", "pkg[a]?", "pkg[a][b]"] {
        assert_eq!(Req::from_str(line), Err(DescriptorError::Requirement), "{:?}", line);
    }
}

#[test]
fn a_requirement_line_needs_a_name() {
    for line in ["", "   ", ">=1.0", "; extra", "-r other.txt", "_x", ".x", "(x)", "pkg>=", "pkg 1.0 <2.0", "pkg@url"] {
        assert_eq!(Req::from_str(line), Err(DescriptorError::Requirement), "{:?}", line);
    }
}

#[test]
fn a_requirement_list_is_read_line_by_line() {
    let text = "# what we need\nrequests>=2.0\n\n   \n  # indented comment\nnumpy\r\nflask==1.1.1\n";
    let reqs = parse_requirements(text).unwrap();
    assert_eq!(reqs.len(), 3);
    assert_eq!(reqs[0].name, "requests");
    assert_eq!(reqs[1], plain("numpy"));
    assert_eq!(reqs[2].name, "flask");
    assert_eq!(reqs[2].constraints, vec![Constraint::new(ReqType::Exact, Version::new(1, 1, 1))]);
    assert_eq!(parse_requirements(""), Ok(vec![]));
    assert_eq!(parse_requirements("\n\n"), Ok(vec![]));
}

#[test]
fn a_requirement_list_is_refused_as_a_whole() {
    assert_eq!(parse_requirements("requests\n-e .\nnumpy\n"), Err(DescriptorError::Requirement));
    assert_eq!(parse_requirements("requests>=two"), Err(DescriptorError::Requirement));
}

#[test]
fn a_requirement_list_adds_to_the_requirements_of_a_config() {
    let mut cfg = Config { reqs: vec![plain("held")], dev_reqs: vec![plain("dev")], ..Config::default() };
    assert_eq!(parse_req_dot_text(&mut cfg, "a\nb>=1\n"), Ok(()));
    assert_eq!(cfg.reqs.len(), 3);
    assert_eq!(cfg.reqs[0], plain("held"));
    assert_eq!(cfg.reqs[1], plain("a"));
    assert_eq!(cfg.reqs[2].name, "b");
    assert_eq!(cfg.dev_reqs, vec![plain("dev")]);
    let before = cfg.clone();
    assert_eq!(parse_req_dot_text(&mut cfg, "c\n???\n"), Err(DescriptorError::Requirement));
    assert_eq!(cfg, before);
}

#[test]
fn metadata_names_requirements() {
    let text = "Metadata-Version: 2.1\nName: requests\nVersion: 2.22.0\nRequires-Dist: chardet (<3.1.0,>=3.0.2)\nRequires-Dist: idna (<2.9,>=2.5)\nRequires-Python: >=2.7\nRequires-Dist: pyOpenSSL (>=0.14) ; extra == 'security'\n\nRequests is a library.\n";
    let reqs = parse_metadata(text).unwrap();
    assert_eq!(reqs.len(), 3);
    assert_eq!(reqs[0].name, "chardet");
    assert_eq!(
        reqs[0].constraints,
        vec![
            Constraint::new(ReqType::Lt, Version::new(3, 1, 0)),
            Constraint::new(ReqType::Gte, Version::new(3, 0, 2)),
        ]
    );
    assert_eq!(reqs[1].name, "idna");
    assert_eq!(reqs[2].name, "pyOpenSSL");
    assert_eq!(parse_metadata("Name: x\n"), Ok(vec![]));
    assert_eq!(parse_metadata(" Requires-Dist: x\nrequires-dist: y\n"), Ok(vec![]));
    assert_eq!(parse_metadata("Requires-Dist:"), Err(DescriptorError::Requirement));
    assert_eq!(parse_metadata("Requires-Dist: a\nRequires-Dist: ???\n"), Err(DescriptorError::Requirement));
}

fn names(reqs: &[Req]) -> Vec<String> {
    reqs.iter().map(|r| r.name.clone()).collect()
}

fn dir(path: &str) -> PathContents {
    PathContents { path: path.to_string(), ..PathContents::default() }
}

fn native_paths(path: &str, entries: &[(&str, Option<&str>)]) -> PathContents {
    let deps = entries
        .iter()
        .map(|(name, target)| {
            (
                name.to_string(),
                DepComponentWrapper::B(DepComponent {
                    path: target.map(|t| t.to_string()),
                    ..DepComponent::default()
                }),
            )
        })
        .collect();
    PathContents {
        manifest: Some(Pyproject {
            tool: Tool {
                pyflow: Some(Pyflow { dependencies: Some(deps), ..Pyflow::default() }),
                poetry: None,
            },
        }),
        ..dir(path)
    }
}

#[test]
fn a_bare_directory_adds_nothing() {
    let mut config = Config {
        reqs: vec![plain("requests"), path_req("local", "../local")],
        dev_reqs: vec![path_req("tools", "../tools")],
        ..Config::default()
    };
    let before = config.clone();
    assert_eq!(config.path_requirements(false), vec!["../local".to_string()]);
    assert_eq!(config.path_requirements(true), vec!["../tools".to_string()]);
    let bare = |path: &str| PathContents {
        folders: vec![folder("src", None), folder("docs", Some("Requires-Dist: x"))],
        ..dir(path)
    };
    assert_eq!(
        config.populate_path_subreqs(vec![bare("../local")], vec![bare("../tools")]),
        Ok(())
    );
    assert_eq!(config, before);
    assert_eq!(config.populate_path_subreqs(vec![], vec![]), Ok(()));
    assert_eq!(config, before);
}

#[test]
fn the_three_places_are_read_in_order() {
    let contents = PathContents {
        requirements: Some("listed-a\nlisted-b\n".to_string()),
        manifest: Some(native(&["declared"], &["declared-dev"])),
        folders: vec![
            folder("one-1.0.dist-info", Some("Requires-Dist: built-a\n")),
            folder("skipped", Some("Requires-Dist: never\n")),
            folder("two-2.0.dist-info", Some("Name: two\nRequires-Dist: built-b\n")),
        ],
        ..dir("d")
    };
    let (first, paths, after) = read_contents(contents.clone()).unwrap();
    assert_eq!(names(&first), vec!["listed-a", "listed-b", "declared"]);
    assert_eq!(paths, Vec::<String>::new());
    assert_eq!(names(&after), vec!["built-a", "built-b"]);
    assert_eq!(
        names(&pop_reqs_helper(vec!["d".to_string()], vec![contents]).unwrap()),
        vec!["listed-a", "listed-b", "declared", "built-a", "built-b"]
    );
}

#[test]
fn a_requirement_list_counts_for_development_requirements_too() {
    let mut config = Config {
        reqs: vec![path_req("lib", "lib")],
        dev_reqs: vec![path_req("tools", "tools")],
        ..Config::default()
    };
    let listed = |path: &str, text: &str| PathContents {
        requirements: Some(text.to_string()),
        ..dir(path)
    };
    assert_eq!(
        config.populate_path_subreqs(vec![listed("lib", "a\n")], vec![listed("tools", "x\ny\n")]),
        Ok(())
    );
    assert_eq!(names(&config.reqs), vec!["lib", "a"]);
    assert_eq!(names(&config.dev_reqs), vec!["tools", "x", "y"]);
}

#[test]
fn what_the_directories_add_goes_behind_the_requirements() {
    let mut config = Config {
        name: Some("outer".to_string()),
        reqs: vec![path_req("one", "one"), plain("requests"), path_req("two", "two")],
        dev_reqs: vec![path_req("tools", "tools")],
        ..Config::default()
    };
    assert_eq!(config.path_requirements(false), vec!["one".to_string(), "two".to_string()]);
    let one = PathContents { requirements: Some("a\n".to_string()), ..dir("one") };
    let two = PathContents { manifest: Some(native(&["b", "c"], &["d"])), ..dir("two") };
    let tools = PathContents {
        requirements: Some("t\n".to_string()),
        folders: vec![folder("t-1.dist-info", Some("Requires-Dist: e"))],
        ..dir("tools")
    };
    assert_eq!(config.populate_path_subreqs(vec![two, one], vec![tools]), Ok(()));
    assert_eq!(names(&config.reqs), vec!["one", "requests", "two", "a", "b", "c"]);
    assert_eq!(names(&config.dev_reqs), vec!["tools", "t", "e"]);
    assert_eq!(config.reqs[0], path_req("one", "one"));
    assert_eq!(config.name, Some("outer".to_string()));
}

#[test]
fn a_chain_of_path_requirements_is_followed_to_its_end() {
    let mut config = Config { reqs: vec![path_req("r", "B")], ..Config::default() };
    let b = native_paths("B", &[("b", None), ("rc", Some("C"))]);
    let c = native_paths("C", &[("z", None), ("rd", Some("D"))]);
    let d = PathContents { requirements: Some("deepest\n".to_string()), ..dir("D") };
    assert_eq!(config.populate_path_subreqs(vec![d, c, b], vec![]), Ok(()));
    assert_eq!(names(&config.reqs), vec!["r", "b", "rc", "z", "rd", "deepest"]);
    assert_eq!(config.reqs[2], path_req("rc", "C"));
    assert!(config.reqs.iter().any(|r| r.name == "z"));
}

#[test]
fn nested_directories_come_before_the_wheels_of_their_parent() {
    let parent = PathContents {
        requirements: Some("listed\n".to_string()),
        folders: vec![folder("p-1.dist-info", Some("Requires-Dist: parent-built"))],
        ..native_paths("P", &[("first", Some("X")), ("plain", None), ("second", Some("Y"))])
    };
    let x = PathContents {
        folders: vec![folder("x-1.dist-info", Some("Requires-Dist: x-built"))],
        ..native_paths("X", &[("x-declared", None)])
    };
    let y = PathContents { requirements: Some("y-listed\n".to_string()), ..dir("Y") };
    let reqs = pop_reqs_helper(vec!["P".to_string()], vec![parent, x, y]).unwrap();
    assert_eq!(
        names(&reqs),
        vec![
            "listed",
            "first",
            "plain",
            "second",
            "x-declared",
            "x-built",
            "y-listed",
            "parent-built"
        ]
    );
}

#[test]
fn directories_that_point_at_each_other_end_the_expansion() {
    let a = native_paths("A", &[("a", None), ("to-b", Some("B"))]);
    let b = native_paths("B", &[("b", None), ("to-a", Some("A")), ("to-b", Some("B"))]);
    let reqs = pop_reqs_helper(vec!["A".to_string()], vec![a.clone(), b.clone()]).unwrap();
    assert_eq!(names(&reqs), vec!["a", "to-b", "b", "to-a", "to-b"]);
    let mut config = Config { reqs: vec![path_req("x", "A"), path_req("y", "A")], ..Config::default() };
    assert_eq!(config.populate_path_subreqs(vec![a.clone(), a, b], vec![]), Ok(()));
    assert_eq!(names(&config.reqs), vec!["x", "y", "a", "to-b", "b", "to-a", "to-b"]);
}

#[test]
fn only_directories_that_are_reached_add_anything() {
    let stray = PathContents { requirements: Some("stray\n".to_string()), ..dir("elsewhere") };
    let mut config = Config { reqs: vec![plain("requests")], ..Config::default() };
    let before = config.clone();
    assert_eq!(config.populate_path_subreqs(vec![stray.clone()], vec![stray.clone()]), Ok(()));
    assert_eq!(config, before);
    let mut config = Config { reqs: vec![path_req("local", "here")], ..Config::default() };
    let before = config.clone();
    assert_eq!(config.populate_path_subreqs(vec![stray], vec![]), Ok(()));
    assert_eq!(config, before);
    let bad = PathContents { requirements: Some("???\n".to_string()), ..dir("elsewhere") };
    assert_eq!(config.populate_path_subreqs(vec![bad], vec![]), Ok(()));
    assert_eq!(config, before);
}

#[test]
fn the_first_word_on_a_directory_counts() {
    let first = PathContents { requirements: Some("first\n".to_string()), ..dir("d") };
    let second = PathContents { requirements: Some("second\n".to_string()), ..dir("d") };
    let reqs = pop_reqs_helper(vec!["d".to_string(), "d".to_string()], vec![first, second]);
    assert_eq!(names(&reqs.unwrap()), vec!["first"]);
}

#[test]
fn the_expansion_asks_for_one_directory_at_a_time() {
    let mut walk = Expansion::start(vec!["A".to_string(), "B".to_string(), "A".to_string()]);
    assert_eq!(walk.next_directory(), Some("A".to_string()));
    assert_eq!(walk.feed(native_paths("A", &[("a", None), ("to-c", Some("C")), ("to-b", Some("B"))])), Ok(()));
    assert_eq!(walk.next_directory(), Some("C".to_string()));
    let before = walk.clone();
    let bad = PathContents { requirements: Some("???".to_string()), ..dir("C") };
    assert_eq!(walk.feed(bad), Err(DescriptorError::Requirement));
    assert_eq!(walk, before);
    assert_eq!(
        walk.feed(PathContents {
            folders: vec![folder("c-1.dist-info", Some("Requires-Dist: c-built"))],
            ..dir("C")
        }),
        Ok(())
    );
    assert_eq!(walk.next_directory(), Some("B".to_string()));
    assert_eq!(names(&walk.reqs), vec!["a", "to-c", "to-b", "c-built"]);
    assert_eq!(walk.feed(dir("B")), Ok(()));
    assert_eq!(walk.next_directory(), None);
    assert_eq!(walk.next_directory(), None);
    assert_eq!(walk.visited, vec!["A".to_string(), "C".to_string(), "B".to_string()]);
    assert_eq!(names(&walk.finish()), vec!["a", "to-c", "to-b", "c-built"]);
}

#[test]
fn a_directory_is_taken_out_of_what_was_found() {
    let mut world = vec![dir("a"), dir("b"), PathContents { requirements: Some("x".into()), ..dir("a") }];
    assert_eq!(take_directory(&mut world, &"c".to_string()), None);
    assert_eq!(world.len(), 3);
    assert_eq!(take_directory(&mut world, &"a".to_string()), Some(dir("a")));
    assert_eq!(world.len(), 2);
    assert_eq!(world[0], dir("b"));
    assert_eq!(take_directory(&mut world, &"a".to_string()).unwrap().requirements, Some("x".to_string()));
    assert_eq!(take_directory(&mut world, &"a".to_string()), None);
    assert_eq!(world, vec![dir("b")]);
}

#[test]
fn a_nested_manifest_is_merged_before_its_requirements_are_taken() {
    let deps = |name: &str| Some(vec![(name.to_string(), DepComponentWrapper::A("1".to_string()))]);
    let both = Pyproject {
        tool: Tool {
            poetry: Some(Poetry { dependencies: deps("from-poetry"), ..Poetry::default() }),
            pyflow: Some(Pyflow { authors: Some(vec![]), dependencies: deps("from-native"), ..Pyflow::default() }),
        },
    };
    let contents = PathContents { manifest: Some(both), ..dir("d") };
    let reqs = pop_reqs_helper(vec!["d".to_string()], vec![contents]).unwrap();
    assert_eq!(reqs.len(), 1);
    assert_eq!(reqs[0].name, "from-native");
}

#[test]
fn what_cannot_be_read_changes_nothing() {
    let mut config = Config {
        reqs: vec![path_req("one", "one"), path_req("two", "two")],
        dev_reqs: vec![path_req("dev", "dev")],
        ..Config::default()
    };
    let before = config.clone();
    let good = |path: &str| PathContents { requirements: Some("a\n".to_string()), ..dir(path) };
    let bad_list = |path: &str| PathContents { requirements: Some("???\n".to_string()), ..dir(path) };
    let no_metadata = |path: &str| PathContents { folders: vec![folder("x-1.dist-info", None)], ..dir(path) };
    let bad_metadata = |path: &str| PathContents {
        folders: vec![folder("x-1.dist-info", Some("Requires-Dist: ???"))],
        ..dir(path)
    };
    let bad_manifest = |path: &str| PathContents {
        manifest: Some(Pyproject {
            tool: Tool { pyflow: Some(Pyflow { version: Some("x".to_string()), ..Pyflow::default() }), poetry: None },
        }),
        ..dir(path)
    };
    assert_eq!(
        config.populate_path_subreqs(vec![good("one"), bad_list("two")], vec![]),
        Err(DescriptorError::Requirement)
    );
    assert_eq!(config, before);
    assert_eq!(
        config.populate_path_subreqs(vec![good("one")], vec![no_metadata("dev")]),
        Err(DescriptorError::Metadata)
    );
    assert_eq!(config, before);
    assert_eq!(
        config.populate_path_subreqs(vec![bad_manifest("one")], vec![no_metadata("dev")]),
        Err(DescriptorError::ProjectVersion)
    );
    assert_eq!(config, before);
    assert_eq!(
        config.populate_path_subreqs(vec![bad_metadata("two")], vec![]),
        Err(DescriptorError::Requirement)
    );
    assert_eq!(config, before);
    let deep = native_paths("one", &[("deeper", Some("deep"))]);
    assert_eq!(
        config.populate_path_subreqs(vec![deep, bad_list("deep")], vec![]),
        Err(DescriptorError::Requirement)
    );
    assert_eq!(config, before);
}

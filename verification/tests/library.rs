use pydeps::constraint::Constraint;
use pydeps::constraint::ReqType::{Caret, Exact, Gte, Ne, Tilde};
use pydeps::names::{compare_names, merge_reqs, standardize_name, unique_reqs};
use pydeps::pybuild::serialize_py_list;
use pydeps::pyenv::{find_bin_path, find_console_scripts, find_venvs, py_version_candidates};
use pydeps::req::Req;
use pydeps::version::Version;
use pydeps::version::VersionModifier::{Alpha, Beta};
use pydeps::ranges::intersection_many;

#[test]
fn py_list() {
    let expected = r#"[
    "Programming Language :: Python :: 3",
    "License :: OSI Approved :: MIT License",
    "Operating System :: OS Independent",
]"#;

    let actual = serialize_py_list(&vec![
        "Programming Language :: Python :: 3".into(),
        "License :: OSI Approved :: MIT License".into(),
        "Operating System :: OS Independent".into(),
    ]);

    assert_eq!(expected, actual);
}

#[test]
fn version_round_trip_text() {
    // The full renderer reproduces fully written text exactly.
    for s in ["3.12.5", "0.1.0", "19.3.0b0", "1.3.5rc0", "1.3.5.11", "5.2.5.11b3"] {
        let v = Version::from_str(s).unwrap();
        assert_eq!(v.to_string2(), s);
    }
    // And parsing what was rendered restores the version, zero-filled ones
    // included.
    for s in ["19.3b0", "3.7", "1", "1.2.3.4", "0.0.1a9"] {
        let v = Version::from_str(s).unwrap();
        assert_eq!(Version::from_str(&v.to_string2()).unwrap(), v);
    }
    // The medium renderer zero-fills the omitted patch on the way back.
    let v = Version::from_str("6.7").unwrap();
    assert_eq!(v.to_string_med(), "6.7");
    assert_eq!(Version::from_str(&v.to_string_med()).unwrap(), v);
    assert_eq!(v.to_string_short(), "6");
}

#[test]
fn version_overflow_rejected() {
    assert!(Version::from_str("4294967296").is_err());
    assert!(Version::from_str("1.4294967296").is_err());
    assert!(Version::from_str("4294967295").is_ok());
}

#[test]
fn version_modifier_without_number() {
    assert!(Version::from_str("1.2.3b").is_err());
    assert!(Version::from_str("1.2.3rc").is_err());
}

#[test]
fn constraint_bad_text() {
    assert!(Constraint::from_str("").is_err());
    assert!(Constraint::from_str(">=").is_err());
    assert!(Constraint::from_str("abc").is_err());
    assert!(Constraint::from_str_multiple(">=1.0,,<=2.0").is_err());
}

#[test]
fn constraint_wildcard_any() {
    let c = Constraint::from_str("*").unwrap();
    assert_eq!(c, Constraint::new(Gte, Version::new(0, 0, 0)));
}

#[test]
fn constraint_render_styles() {
    let caret = Constraint::new(Caret, Version::new(1, 2, 3));
    assert_eq!(caret.to_string(false, false), "^1.2.3");
    assert_eq!(caret.to_string(false, true), "^=1.2.3");
    let exact = Constraint::new(Exact, Version::new(1, 2, 3));
    assert_eq!(exact.to_string(true, false), "1.2.3");
    assert_eq!(exact.to_string(false, false), "==1.2.3");
    let tilde = Constraint::new(Tilde, Version::new(2, 3, 0));
    assert_eq!(tilde.to_string(false, true), "~=2.3.0");
}

#[test]
fn tilde_boundaries() {
    // The compatible range of ~6.7 starts at 6.7.0.
    let c = Constraint::new(Tilde, Version::new_short(6, 7));
    let rng = c.compatible_range();
    assert_eq!(rng, vec![(Version::new(6, 7, 0), Version::new(6, 7, 999_999))]);
    assert!(c.is_compatible(&Version::new(6, 7, 0)));
    assert!(c.is_compatible(&Version::new(6, 7, 9)));
    assert!(!c.is_compatible(&Version::new(6, 8, 0)));
    // With no minor specified, the tilde admits minor and patch growth.
    let c2 = Constraint::new(Tilde, Version::new(1, 0, 0));
    assert!(c2.is_compatible(&Version::new(1, 9, 9)));
    assert!(!c2.is_compatible(&Version::new(2, 0, 0)));
}

#[test]
fn prerelease_ordering() {
    // A final release outranks its own pre-releases; ranks order the tags.
    let release = Version::new(1, 0, 0);
    let rc = Version {
        major: 1,
        minor: 0,
        patch: 0,
        extra_num: None,
        modifier: Some((pydeps::version::VersionModifier::ReleaseCandidate, 1)),
    };
    let beta = Version {
        major: 1,
        minor: 0,
        patch: 0,
        extra_num: None,
        modifier: Some((Beta, 9)),
    };
    let alpha = Version {
        major: 1,
        minor: 0,
        patch: 0,
        extra_num: None,
        modifier: Some((Alpha, 9)),
    };
    let dep = Version {
        major: 1,
        minor: 0,
        patch: 0,
        extra_num: None,
        modifier: Some((pydeps::version::VersionModifier::Dep, 1)),
    };
    assert!(release > rc && rc > beta && beta > alpha && alpha > dep);
}

#[test]
fn intersection_many_single() {
    let reqs = vec![Constraint::new(Gte, Version::new(5, 1, 0))];
    assert_eq!(
        intersection_many(&reqs),
        vec![(Version::new(5, 1, 0), Version::_max())]
    );
}

#[test]
fn intersection_many_order_independent() {
    let c1 = Constraint::new(Gte, Version::new(4, 9, 4));
    let c2 = Constraint::new(Caret, Version::new(4, 0, 0));
    let a = intersection_many(&[c1.clone(), c2.clone()]);
    let b = intersection_many(&[c2, c1]);
    assert_eq!(a, b);
}

#[test]
fn name_standardization() {
    assert_eq!(standardize_name("Pillow"), "pillow");
    assert_eq!(standardize_name("typing-extensions"), "typing_extensions");
    assert!(compare_names("Typing-Extensions", "typing_extensions"));
    assert!(!compare_names("requests", "request"));
}

#[test]
fn unique_reqs_filters_known() {
    let cfg = vec![
        Req::new("saturn".into(), vec![Constraint::new(Caret, Version::new(0, 3, 1))]),
        Req::new("chord".into(), vec![Constraint::new(Exact, Version::new(1, 0, 0))]),
    ];
    let added = vec![
        // Same package, no version named: already covered by the manifest.
        Req::new("Saturn".into(), vec![]),
        // Exactly present already.
        Req::new("chord".into(), vec![Constraint::new(Exact, Version::new(1, 0, 0))]),
        // New package.
        Req::new("bolt".into(), vec![Constraint::new(Gte, Version::new(2, 0, 0))]),
    ];
    let kept = unique_reqs(&added, &cfg);
    assert_eq!(kept.len(), 1);
    assert_eq!(kept[0].name, "bolt");
}

#[test]
fn merge_reqs_prefers_added() {
    let cfg = vec![
        Req::new("saturn".into(), vec![Constraint::new(Caret, Version::new(0, 3, 1))]),
        Req::new("chord".into(), vec![Constraint::new(Exact, Version::new(1, 0, 0))]),
    ];
    let added = vec![Req::new(
        "saturn".into(),
        vec![Constraint::new(Caret, Version::new(0, 4, 0))],
    )];
    let merged = merge_reqs(&added, &cfg);
    assert_eq!(merged.len(), 3);
    assert_eq!(merged[0].constraints, vec![Constraint::new(Caret, Version::new(0, 4, 0))]);
    assert_eq!(merged[1].name, "chord");
    assert_eq!(merged[2].name, "saturn");
}

#[test]
fn cfg_string_latest_pins_caret() {
    let req = Req::new("saturn".into(), vec![]);
    let line = req.to_cfg_string_latest("saturn", Version::new(0, 3, 1));
    assert_eq!(line, r#"saturn = "^0.3.1""#);
}

#[test]
fn req_marker_unknown_platform() {
    let r = Req::from_str("pkg (>=1.0) ; sys_platform == 'beos'", true);
    assert!(r.is_err());
}

#[test]
fn req_bad_text() {
    assert!(Req::from_str("name = ", false).is_err());
    assert!(Req::from_str("weird !! text", true).is_err());
    assert!(Req::from_pip_str("===").is_none());
}

#[test]
fn pip_str_bad_constraint_is_none() {
    assert!(Req::from_pip_str("Django>=x.y").is_none());
}

#[test]
fn venv_selection() {
    let candidates = py_version_candidates();
    assert_eq!(candidates.len(), 17);
    let mut present = vec![false; 17];
    present[1] = true; // 2.7
    present[11] = true; // 3.7
    let found = find_venvs(&present);
    assert_eq!(found, vec![(2, 7), (3, 7)]);
}

#[test]
fn bin_path_by_platform() {
    assert_eq!(find_bin_path("proj/3.7", false), "proj/3.7/.venv/bin");
    assert_eq!(find_bin_path("proj/3.7", true), "proj/3.7/.venv/Scripts");
}

#[test]
fn entry_points_sections() {
    let lines: Vec<String> = vec![
        "[other]".into(),
        "x = pkg:x".into(),
        "[console_scripts]".into(),
        "black = black:patched_main".into(),
        "".into(),
        "blackd = blackd:main".into(),
        "[gui_scripts]".into(),
        "after = nope:main".into(),
    ];
    let scripts = pydeps::pyenv::console_scripts_from_lines(&lines);
    assert!(scripts.is_empty());

    let lines2: Vec<String> = vec![
        "[console_scripts]".into(),
        "black = black:patched_main".into(),
        "".into(),
        "blackd = blackd:main".into(),
        "[gui_scripts]".into(),
        "after = nope:main".into(),
    ];
    let scripts2 = pydeps::pyenv::console_scripts_from_lines(&lines2);
    assert_eq!(
        scripts2,
        vec!["black = black:patched_main".to_string(), "blackd = blackd:main".to_string()]
    );
}

#[test]
fn dist_info_folder_names() {
    assert_eq!(
        pydeps::pyenv::parse_dist_info_folder("requests-2.22.0.dist-info"),
        Some(("requests".to_string(), "2.22.0".to_string()))
    );
    assert_eq!(
        pydeps::pyenv::parse_dist_info_folder("zope.interface-4.7.1.dist-info"),
        Some(("zope.interface".to_string(), "4.7.1".to_string()))
    );
    assert_eq!(pydeps::pyenv::parse_dist_info_folder("notafolder"), None);
    assert_eq!(pydeps::pyenv::parse_dist_info_folder("plain.dist-info"), None);
}

#[test]
fn console_script_selection() {
    let entries = vec![
        ("black".to_string(), true),
        ("cache".to_string(), false),
        ("ipython".to_string(), true),
    ];
    let scripts = find_console_scripts(&entries);
    assert_eq!(scripts, vec!["black".to_string(), "ipython".to_string()]);
}

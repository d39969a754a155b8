use pydeps::constraint::Constraint;
use pydeps::constraint::ReqType::{Caret, Exact, Gt, Gte, Lt, Lte, Ne, Tilde};
use pydeps::error::DependencyError;
use pydeps::ranges::{intersection, intersection_many};
use pydeps::req::{Os, Req};
use pydeps::version::Version;
use pydeps::version::VersionModifier::{Alpha, Beta, Dep, ReleaseCandidate};
use pydeps::MAX_VER;

#[test]
fn compat_caret() {
    let req1 = Constraint::new(Caret, Version::new(1, 2, 3));
    let req2 = Constraint::new(Caret, Version::new(0, 2, 3));
    let req3 = Constraint::new(Caret, Version::new(0, 0, 3));
    let req4 = Constraint::new(Caret, Version::new(0, 0, 3));

    assert!(req1.is_compatible(&Version::new(1, 9, 9)));
    assert!(!req1.is_compatible(&Version::new(2, 0, 0)));
    assert!(req2.is_compatible(&Version::new(0, 2, 9)));
    assert!(!req2.is_compatible(&Version::new(0, 3, 0)));
    assert!(req3.is_compatible(&Version::new(0, 0, 3)));
    assert!(!req3.is_compatible(&Version::new(0, 0, 5)));
    // Caret requirements below major and minor v 0 must be exact.
    assert!(req4.is_compatible(&Version::new(0, 0, 3)));
    assert!(!req4.is_compatible(&Version::new(0, 0, 5)));
}

#[test]
fn compat_gt_eq() {
    let req1 = Constraint::new(Gte, Version::new(1, 2, 3));
    let req2 = Constraint::new(Gt, Version::new(0, 2, 3));
    let req3 = Constraint::new(Exact, Version::new(0, 0, 3));

    assert!(req1.is_compatible(&Version::new(1, 2, 3)));
    assert!(req1.is_compatible(&Version::new_short(4, 2)));
    assert!(!req1.is_compatible(&Version::new(1, 2, 2)));
    assert!(req2.is_compatible(&Version::new(0, 2, 9)));
    assert!(!req2.is_compatible(&Version::new(0, 1, 0)));
    assert!(!req2.is_compatible(&Version::new(0, 2, 3)));
    assert!(req3.is_compatible(&Version::new(0, 0, 3)));
    assert!(!req3.is_compatible(&Version::new(0, 0, 5)));
}

#[test]
fn version_parse() {
    assert_eq!(Version::from_str("3.12.5").unwrap(), Version::new(3, 12, 5));
    assert_eq!(Version::from_str("0.1.0").unwrap(), Version::new(0, 1, 0));
    assert_eq!(Version::from_str("3.7").unwrap(), Version::new(3, 7, 0));
    assert_eq!(Version::from_str("1").unwrap(), Version::new(1, 0, 0));
}

#[test]
fn version_parse_w_wildcard() {
    assert_eq!(Version::from_str("3.2.*").unwrap(), Version::new(3, 2, 0));
    assert_eq!(Version::from_str("1.*").unwrap(), Version::new(1, 0, 0));
    assert_eq!(Version::from_str("1.*.*").unwrap(), Version::new(1, 0, 0));
}

#[test]
fn version_parse_w_modifiers() {
    assert_eq!(
        Version::from_str("19.3b0").unwrap(),
        Version {
            major: 19,
            minor: 3,
            patch: 0,
            extra_num: None,
            modifier: Some((Beta, 0)),
        }
    );

    assert_eq!(
        Version::from_str("1.3.5rc0").unwrap(),
        Version {
            major: 1,
            minor: 3,
            patch: 5,
            extra_num: None,
            modifier: Some((ReleaseCandidate, 0)),
        }
    );

    assert_eq!(
        Version::from_str("1.3.5.11").unwrap(),
        Version {
            major: 1,
            minor: 3,
            patch: 5,
            extra_num: Some(11),
            modifier: None,
        }
    );

    assert_eq!(
        Version::from_str("5.2.5.11b3").unwrap(),
        Version {
            major: 5,
            minor: 2,
            patch: 5,
            extra_num: Some(11),
            modifier: Some((Beta, 3)),
        }
    );
}

#[test]
fn bad_version() {
    assert_eq!(
        Version::from_str("3-7"),
        Err(DependencyError {
            details: "Problem parsing version: 3-7".to_owned()
        })
    );
}

#[test]
fn constraint_w_modifier() {
    let a = "!=2.3b3";
    let b = "^1.3.32rc1";
    let c = "^1.3.32.dep1";

    let req_a = Constraint::new(
        Ne,
        Version {
            major: 2,
            minor: 3,
            patch: 0,
            extra_num: None,
            modifier: Some((Beta, 3)),
        },
    );
    let req_b = Constraint::new(
        Caret,
        Version {
            major: 1,
            minor: 3,
            patch: 32,
            extra_num: None,
            modifier: Some((ReleaseCandidate, 1)),
        },
    );
    let req_c = Constraint::new(
        Caret,
        Version {
            major: 1,
            minor: 3,
            patch: 32,
            extra_num: None,
            modifier: Some((Dep, 1)),
        },
    );

    assert_eq!(Constraint::from_str(a).unwrap(), req_a);
    assert_eq!(Constraint::from_str(b).unwrap(), req_b);
    assert_eq!(Constraint::from_str(c).unwrap(), req_c);
}

#[test]
fn constraint_multiple() {
    let expected = vec![
        Constraint::new(Gte, Version::new(2, 7, 0)),
        Constraint::new(Ne, Version::new(3, 0, 0)),
        Constraint::new(Ne, Version::new(3, 1, 0)),
        Constraint::new(Ne, Version::new(3, 2, 0)),
        Constraint::new(Lte, Version::new(3, 5, 0)),
    ];

    let actual = Constraint::from_str_multiple(">=2.7, !=3.0.0, !=3.1.0, !=3.2.0, <=3.5.0").unwrap();
    assert_eq!(expected, actual);
}

#[test]
fn constraint_to_string() {
    let a = "!=2.3";
    let b = "^1.3.32";
    let c = "~2.3";
    let d = "==5";
    let e = "<=11.2.3";
    let f = ">=0.0.1";

    let req_a = Constraint::new(Ne, Version::new(2, 3, 0));
    let req_b = Constraint::new(Caret, Version::new(1, 3, 32));
    let req_c = Constraint::new(Tilde, Version::new(2, 3, 0));
    let req_d = Constraint::new(Exact, Version::new(5, 0, 0));
    let req_e = Constraint::new(Lte, Version::new(11, 2, 3));
    let req_f = Constraint::new(Gte, Version::new(0, 0, 1));

    assert_eq!(Constraint::from_str(a).unwrap(), req_a);
    assert_eq!(Constraint::from_str(b).unwrap(), req_b);
    assert_eq!(Constraint::from_str(c).unwrap(), req_c);
    assert_eq!(Constraint::from_str(d).unwrap(), req_d);
    assert_eq!(Constraint::from_str(e).unwrap(), req_e);
    assert_eq!(Constraint::from_str(f).unwrap(), req_f);
}

#[test]
fn parse_req_novers() {
    let actual1 = Req::from_str("saturn", false).unwrap();
    let actual2 = Req::from_str("saturn", true).unwrap();
    let expected = Req::new("saturn".into(), vec![]);
    assert_eq!(actual1, expected);
    assert_eq!(actual2, expected);
}

#[test]
fn parse_req_pypi_w_extras() {
    let actual = Req::from_str("pyOpenSSL (>=0.14) ; extra == 'security'", true).unwrap();
    let expected = Req {
        name: "pyOpenSSL".into(),
        constraints: vec![Constraint::new(Gte, Version::new(0, 14, 0))],
        extra: Some("security".into()),
        sys_platform: None,
        python_version: None,
        install_with_extras: None,
    };

    let actual2 = Req::from_str(
        "pathlib2; extra == \"test\" and ( python_version == \"2.7\")",
        true,
    )
    .unwrap();

    let expected2 = Req {
        name: "pathlib2".into(),
        constraints: vec![],
        extra: Some("test".into()),
        sys_platform: None,
        python_version: Some(Constraint::new(Exact, Version::new(2, 7, 0))),
        install_with_extras: None,
    };

    let actual3 = Req::from_str(
        "win-unicode-console (>=0.5) ; sys_platform == \"win32\" and python_version < \"3.6\"",
        true,
    )
    .unwrap();

    let expected3 = Req {
        name: "win-unicode-console".into(),
        constraints: vec![Constraint::new(Gte, Version::new(0, 5, 0))],
        extra: None,
        sys_platform: Some((Exact, Os::Windows32)),
        python_version: Some(Constraint::new(Lt, Version::new(3, 6, 0))),
        install_with_extras: None,
    };

    assert_eq!(actual, expected);
    assert_eq!(actual2, expected2);
    assert_eq!(actual3, expected3);
}

#[test]
fn parse_req_withvers() {
    let p = Req::from_str("bolt = \"3.1.4\"", false).unwrap();
    assert_eq!(
        p,
        Req::new(
            "bolt".into(),
            vec![Constraint::new(Exact, Version::new(3, 1, 4))]
        )
    )
}

#[test]
fn parse_req_caret() {
    let p = Req::from_str("chord = \"^2.7.18\"", false).unwrap();
    assert_eq!(
        p,
        Req::new(
            "chord".into(),
            vec![Constraint::new(Caret, Version::new(2, 7, 18))]
        )
    )
}

#[test]
fn parse_req_tilde_short() {
    let p = Req::from_str("sphere = \"~6.7\"", false).unwrap();
    assert_eq!(
        p,
        Req::new(
            "sphere".into(),
            vec![Constraint::new(Tilde, Version::new(6, 7, 0))]
        )
    )
}

#[test]
fn parse_req_pip() {
    let p = Req::from_pip_str("Django>=2.22").unwrap();
    assert_eq!(
        p,
        Req::new(
            "Django".into(),
            vec![Constraint::new(Gte, Version::new(2, 22, 0))]
        )
    )
}

#[test]
fn parse_req_pypi() {
    let p = Req::from_str("pytz (>=2016.3)", true).unwrap();
    assert_eq!(
        p,
        Req::new(
            "pytz".into(),
            vec![Constraint::new(Gte, Version::new(2016, 3, 0))]
        )
    )
}

#[test]
fn parse_req_pypi_dot() {
    let a = Req::from_str("zc.lockfile (>=0.2.3)", true).unwrap();
    let b = Req::from_str("zc.lockfile", true).unwrap();

    assert_eq!(
        a,
        Req::new(
            "zc.lockfile".into(),
            vec![Constraint::new(Gte, Version::new(0, 2, 3))]
        )
    );
    assert_eq!(b, Req::new("zc.lockfile".into(), vec![]));
}

#[test]
fn parse_req_pypi_cplx() {
    let p = Req::from_str("urllib3 (!=1.25.0,!=1.25.1,<=1.26)", true).unwrap();
    assert_eq!(
        p,
        Req::new(
            "urllib3".into(),
            vec![
                Constraint::new(Ne, Version::new(1, 25, 0)),
                Constraint::new(Ne, Version::new(1, 25, 1)),
                Constraint::new(Lte, Version::new(1, 26, 0))
            ]
        )
    )
}

#[test]
fn req_tostring_single_reqs() {
    let a = Req::new(
        "package".to_string(),
        vec![Constraint::new(Exact, Version::new(3, 3, 6))],
    );

    assert_eq!(a.to_cfg_string(), r#"package = "3.3.6""#.to_string());
}

#[test]
fn req_tostring_multiple_reqs() {
    let a = Req::new(
        "package".to_string(),
        vec![
            Constraint::new(Ne, Version::new(2, 7, 4)),
            Constraint::new(Gte, Version::new(3, 7, 0)),
        ],
    );

    assert_eq!(
        a.to_cfg_string(),
        r#"package = "!=2.7.4, >=3.7.0""#.to_string()
    );
}

#[test]
fn version_ordering() {
    let a = Version::new(4, 9, 4);
    let b = Version::new(4, 8, 0);
    let c = Version::new(3, 3, 6);
    let d = Version::new(3, 3, 5);
    let e = Version::new(3, 3, 0);
    let f = Version::new(1, 9, 9);
    let g = Version::new(2, 0, 0);

    assert!(a > b && b > c && c > d && d > e);
    assert!(f < g);
}

#[test]
fn version_ordering_modded() {
    let a = Version {
        major: 4,
        minor: 9,
        patch: 4,
        extra_num: Some(2),
        modifier: None,
    };
    let b = Version::new(4, 9, 4);

    let c = Version {
        major: 4,
        minor: 9,
        patch: 4,
        extra_num: None,
        modifier: Some((ReleaseCandidate, 2)),
    };
    let d = Version {
        major: 4,
        minor: 9,
        patch: 4,
        extra_num: None,
        modifier: Some((ReleaseCandidate, 1)),
    };
    let e = Version {
        major: 4,
        minor: 9,
        patch: 4,
        extra_num: None,
        modifier: Some((Beta, 6)),
    };
    let f = Version {
        major: 4,
        minor: 9,
        patch: 4,
        extra_num: None,
        modifier: Some((Alpha, 7)),
    };
    let g = Version::new(4, 9, 2);

    assert!(a > b && b > c && c > d && d > e && e > f && f > g);
}

#[test]
fn compat_rng() {
    let actual1 = Constraint::new(Gte, Version::new(5, 1, 0)).compatible_range();
    let expected1 = vec![(Version::new(5, 1, 0), Version::_max())];

    let actual2 = Constraint::new(Ne, Version::new(5, 1, 3)).compatible_range();
    let expected2 = vec![
        (Version::new(0, 0, 0), Version::new(5, 1, 2)),
        (Version::new(5, 1, 4), Version::_max()),
    ];
    assert_eq!(expected1, actual1);
    assert_eq!(expected2, actual2);
}

#[test]
fn intersections_empty() {
    let reqs1 = vec![
        Constraint::new(Exact, Version::new(4, 9, 4)),
        Constraint::new(Gte, Version::new(4, 9, 7)),
    ];

    let reqs2 = vec![
        Constraint::new(Lte, Version::new(4, 9, 6)),
        Constraint::new(Gte, Version::new(4, 9, 7)),
    ];

    assert!(intersection_many(&reqs1).is_empty());
    assert!(intersection_many(&reqs2).is_empty());
}

#[test]
fn intersections_simple() {
    let reqs1 = (Version::new(4, 9, 4), Version::new(MAX_VER, 0, 0));
    let reqs2 = (Version::new(4, 3, 1), Version::new(MAX_VER, 0, 0));

    let reqs3 = (Version::new(3, 0, 0), Version::new(3, 9, 0));
    let reqs4 = (Version::new(3, 3, 6), Version::new(3, 3, 6));

    assert_eq!(
        intersection(&[reqs1], &[reqs2]),
        vec![(Version::new(4, 9, 4), Version::_max())]
    );
    assert_eq!(
        intersection(&[reqs3], &[reqs4]),
        vec![(Version::new(3, 3, 6), Version::new(3, 3, 6))]
    );
}

#[test]
fn intersections_simple_many() {
    let reqs1 = vec![
        Constraint::new(Gte, Version::new(4, 9, 4)),
        Constraint::new(Gte, Version::new(4, 3, 1)),
    ];
    let reqs2 = vec![
        Constraint::new(Caret, Version::new(3, 0, 0)),
        Constraint::new(Exact, Version::new(3, 3, 6)),
    ];

    assert_eq!(
        intersection_many(&reqs1),
        vec![(Version::new(4, 9, 4), Version::_max())]
    );
    assert_eq!(
        intersection_many(&reqs2),
        vec![(Version::new(3, 3, 6), Version::new(3, 3, 6))]
    );
}

#[test]
fn intersection_contained() {
    let rng1 = (Version::new(4, 9, 2), Version::_max());
    let rng2 = (Version::new(4, 9, 4), Version::new(5, 5, 4));

    assert_eq!(
        intersection(&[rng1], &[rng2]),
        vec![(Version::new(4, 9, 4), Version::new(5, 5, 4))]
    );
}

#[test]
fn intersection_contained_many() {
    let reqs = vec![
        Constraint::new(Gte, Version::new(4, 9, 2)),
        Constraint::new(Gte, Version::new(4, 9, 4)),
        Constraint::new(Lt, Version::new(5, 5, 5)),
    ];

    assert_eq!(
        intersection_many(&reqs),
        vec![(Version::new(4, 9, 4), Version::new(5, 5, 4))]
    );
}

#[test]
fn intersection_contained_many_w_ne() {
    let reqs1 = vec![
        Constraint::new(Ne, Version::new(2, 0, 4)),
        Constraint::new(Ne, Version::new(2, 1, 2)),
        Constraint::new(Ne, Version::new(2, 1, 6)),
        Constraint::new(Gte, Version::new(2, 0, 1)),
        Constraint::new(Gte, Version::new(2, 0, 2)),
    ];

    assert_eq!(
        intersection_many(&reqs1),
        vec![(Version::new(2, 0, 2), Version::_max())]
    );
}

#[test]
fn python_version_from_warehouse() {
    let a1 = Constraint::from_wh_py_vers("py3").unwrap();
    let a2 = Constraint::from_wh_py_vers("cp35.cp36.cp37.cp38").unwrap();
    let a3 = Constraint::from_wh_py_vers("cp26").unwrap();
    let a4 = Constraint::from_wh_py_vers("py2.py3").unwrap();
    let a5 = Constraint::from_wh_py_vers("pp36").unwrap();
    let a6 = Constraint::from_wh_py_vers("any").unwrap();
    let a7 = Constraint::from_wh_py_vers("2.7").unwrap();

    assert_eq!(a1, vec![Constraint::new(Gte, Version::new(3, 0, 0))]);
    assert_eq!(
        a2,
        vec![
            Constraint::new(Exact, Version::new(3, 5, 0)),
            Constraint::new(Exact, Version::new(3, 6, 0)),
            Constraint::new(Exact, Version::new(3, 7, 0)),
            Constraint::new(Exact, Version::new(3, 8, 0)),
        ]
    );
    assert_eq!(a3, vec![Constraint::new(Exact, Version::new(2, 6, 0))]);

    assert_eq!(
        a4,
        vec![
            Constraint::new(Lte, Version::new(2, 10, 0)),
            Constraint::new(Gte, Version::new(3, 0, 0)),
        ]
    );

    assert_eq!(a5, vec![Constraint::new(Exact, Version::new(3, 6, 0))]);
    assert_eq!(a6, vec![Constraint::new(Gte, Version::new(2, 0, 0))]);
    assert_eq!(a7, vec![Constraint::new(Exact, Version::new(2, 7, 0))]);
}

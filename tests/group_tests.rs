use lothaire::group::{
    check, check_gid, get_group_from_gid, get_group_from_name, get_group_line_from_gid,
    get_group_line_from_name, get_user_secondary_groups, parse_group_line, Group, GroupError,
};
use lothaire::report::{TestResult, UnitResult};

fn group_db() -> Vec<String> {
    vec![
        "root:x:0:".to_string(),
        "daemon:x:1:".to_string(),
        "group1:x:2001:".to_string(),
        "group2:x:2002:user1".to_string(),
        "group3:x:2003:user2,user1".to_string(),
    ]
}

#[test]
fn get_group_line_from_gid_test_success() {
    let mut result = get_group_line_from_gid(0, &group_db()).unwrap();
    assert_eq!(result,
               Some(vec!["root".to_string(), "x".to_string(), "0".to_string(), "".to_string()]));
    result = get_group_line_from_gid(999999, &group_db()).unwrap();
    assert!(result.is_none());
}

#[test]
fn get_user_secondary_groups_test_success() {
    let mut result = get_user_secondary_groups("root", &group_db()).unwrap();
    assert!(result.is_empty());
    result = get_user_secondary_groups("user1", &group_db()).unwrap();
    assert_eq!(result.len(), 2);
    assert!(result.contains(&"group2".to_string()));
}

#[test]
fn get_group_line_from_name_test_success() {
    let mut result = get_group_line_from_name("group1", &group_db());
    assert_eq!(result,
               Some(vec!["group1".to_string(), "x".to_string(), "2001".to_string(), "".to_string()]));
    result = get_group_line_from_name("foobargroup", &group_db());
    assert!(result.is_none());
}

#[test]
fn parse_group_line_test_success() {
    let line = vec!["group1".to_string(),
                    "x".to_string(),
                    "2001".to_string()];
    let result = parse_group_line(&line);
    assert!(result.is_ok());
    let group = result.unwrap();
    assert_eq!(group.name, "group1");
    assert_eq!(group.password, "x");
    assert_eq!(group.gid, 2001);
}

#[test]
fn parse_group_line_test_error() {
    let line = vec!["group1".to_string(),
                    "x".to_string(),
                    "hello".to_string()];
    let result = parse_group_line(&line);
    assert!(result.is_err());
}

#[test]
fn get_group_from_name_test_success() {
    let mut group = get_group_from_name("group1", &group_db()).unwrap().unwrap();
    assert_eq!(group.name, "group1");
    assert_eq!(group.password, "x");
    assert_eq!(group.gid, 2001);
    group = get_group_from_name("group2", &group_db()).unwrap().unwrap();
    assert_eq!(group.name, "group2");
    assert_eq!(group.password, "x");
    assert_eq!(group.gid, 2002);
    let group_opt = get_group_from_name("notexists", &group_db()).unwrap();
    assert!(group_opt.is_none())
}

#[test]
fn get_group_from_gid_test_success() {
    let mut group = get_group_from_gid(2001, &group_db()).unwrap().unwrap();
    assert_eq!(group.name, "group1");
    assert_eq!(group.password, "x");
    assert_eq!(group.gid, 2001);
    group = get_group_from_gid(2002, &group_db()).unwrap().unwrap();
    assert_eq!(group.name, "group2");
    assert_eq!(group.password, "x");
    assert_eq!(group.gid, 2002);
    let group_opt = get_group_from_gid(99999, &group_db()).unwrap();
    assert!(group_opt.is_none())
}

#[test]
fn group_check_gid_test_success() {
    let mut result = TestResult {
        success: 0,
        error: 0,
        summary: Vec::new()
    };
    let group = Group {
        name: "group1".to_string(),
        password: "x".to_string(),
        gid: 2001
    };
    check_gid(2001, &group, &mut result);
    assert_eq!(result.success, 1);
    assert_eq!(result.error, 0);
    assert_eq!(result.summary.len(), 1);
    {
        let summary = &result.summary[0];
        match summary {
            UnitResult::Success(s) => assert_eq!(s.expected, "2001"),
            UnitResult::Error(_) => panic!("Error in test")
        }
    }
    check_gid(1, &group, &mut result);
    assert_eq!(result.success, 1);
    assert_eq!(result.error, 1);
    assert_eq!(result.summary.len(), 2);
    {
        let summary = &result.summary[1];
        match summary {
            UnitResult::Success(_) => panic!("Error in test"),
            UnitResult::Error(s) => {
                assert_eq!(s.expected, "1");
                assert_eq!(s.actual, "2001")
            }
        }
    }
}

#[test]
fn group_check_test_success() {
    let mut result = check("group1", "true", None, &group_db()).unwrap();
    assert_eq!(result.error, 0);
    assert_eq!(result.success, 1);
    assert_eq!(result.summary.len(), 1);
    {
        let summary = &result.summary[0];
        match summary {
            UnitResult::Success(s) => assert_eq!(s.expected, "true"),
            UnitResult::Error(_) => panic!("Error in test")
        }
    }
    result = check("group1", "true", Some("2001"), &group_db()).unwrap();
    assert_eq!(result.error, 0);
    assert_eq!(result.success, 2);
    assert_eq!(result.summary.len(), 2);
    {
        let summary = &result.summary[1];
        match summary {
            UnitResult::Success(s) => assert_eq!(s.expected, "2001"),
            UnitResult::Error(_) => panic!("Error in test")
        }
    }
    result = check("group1", "true", Some("2002"), &group_db()).unwrap();
    assert_eq!(result.error, 1);
    assert_eq!(result.success, 1);
    assert_eq!(result.summary.len(), 2);
    {
        let summary = &result.summary[1];
        match summary {
            UnitResult::Success(_) => panic!("Error in test"),
            UnitResult::Error(err) => {
                assert_eq!(err.expected, "2002");
                assert_eq!(err.actual, "2001")
            }
        }
    }
    result = check("dontexists", "false", Some("2000"), &group_db()).unwrap();
    assert_eq!(result.error, 0);
    assert_eq!(result.success, 1);
    assert_eq!(result.summary.len(), 1);
    {
        let summary = &result.summary[0];
        match summary {
            UnitResult::Success(s) => assert_eq!(s.expected, "false"),
            UnitResult::Error(_) => panic!("Error in test")
        }
    }
}

#[test]
fn group_check_hard_failures() {
    assert!(matches!(check("group1", "yes", None, &group_db()), Err(GroupError::ParseBool(_))));
    assert!(matches!(check("group1", "true", Some("abc"), &group_db()), Err(GroupError::ParseInt(_))));
    // an absent group is never compared, so a bad gid goes unread
    let result = check("nogroup", "true", Some("abc"), &group_db()).unwrap();
    assert_eq!(result.error, 1);
    assert_eq!(result.summary.len(), 1);
    match &result.summary[0] {
        UnitResult::Error(e) => {
            assert_eq!(e.test, "group - exists");
            assert_eq!(e.expected, "true");
            assert_eq!(e.actual, "false");
            assert_eq!(e.message, "the element doesn't exists");
        }
        UnitResult::Success(_) => panic!("expected an error"),
    }
}

#[test]
fn malformed_group_database() {
    let short = vec!["root:x:0:".to_string(), "broken:x".to_string(), "group1:x:2001:".to_string()];
    assert!(matches!(get_group_line_from_gid(2001, &short), Err(GroupError::MissingField)));
    assert!(matches!(get_user_secondary_groups("user1", &short), Err(GroupError::MissingField)));
    assert!(matches!(get_group_from_name("broken", &short), Err(GroupError::MissingField)));
    let bad_gid = vec!["root:x:zero:".to_string(), "group1:x:2001:".to_string()];
    assert!(matches!(get_group_line_from_gid(2001, &bad_gid), Err(GroupError::ParseInt(_))));
    assert!(matches!(get_group_from_name("root", &bad_gid), Err(GroupError::ParseInt(_))));
    // a match before the malformed line is found
    assert_eq!(get_group_line_from_gid(0, &short).unwrap().unwrap()[0], "root");
}

#[test]
fn empty_member_list_matches_no_user() {
    let db = vec!["g:x:1:".to_string()];
    assert!(get_user_secondary_groups("", &db).unwrap().is_empty());
}

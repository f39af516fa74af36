//! User accounts: reading the account database, with the groups of each
//! account, and checking an account against what is expected of it.
use crate::group::{
    get_group_line_from_gid, get_user_secondary_groups, gid_lookup, group_error_is,
    lemma_gid_lookup_fields, member_groups, GroupError,
};
use crate::report::{
    existence_outcome, record_error, record_success, Outcome, Report, TestResult,
};
use crate::text::{
    all_have_fields, db_records, find_named, find_record, join_by, join_texts,
    lemma_text_order_total, opt_text, opt_texts, sort_texts, split_by, split_text, text_order,
    texts, texts_eq,
};
use crate::util::{
    decimal_text, int_text, is_bool_text, is_i32_text, parse_bool_text, parse_i32, parse_int,
    text_value, Fault,
};
use std::io;
use std::num::ParseIntError;
use std::str::ParseBoolError;
use vstd::prelude::*;
use vstd::relations::sorted_by;
use vstd::seq_lib::lemma_sorted_unique;

verus! {

/// One account of the account database, with its groups.
#[derive(Debug)]
pub struct User {
    pub name: String,
    pub password: String,
    pub uid: i32,
    pub gid: i32,
    pub comment: String,
    pub home: String,
    pub init: String,
    /// The name of the primary group, empty where no group has its gid.
    pub group: String,
    /// The names of the secondary groups, sorted.
    pub groups: Vec<String>,
}

/// The model of an account.
pub struct UserModel {
    pub name: Seq<char>,
    pub password: Seq<char>,
    pub uid: int,
    pub gid: int,
    pub comment: Seq<char>,
    pub home: Seq<char>,
    pub init: Seq<char>,
    pub group: Seq<char>,
    pub groups: Seq<Seq<char>>,
}

impl UserModel {
    /// The secondary groups are in their canonical, sorted order.
    pub open spec fn wf(self) -> bool {
        sorted_by(self.groups, text_order())
    }
}

impl View for User {
    type V = UserModel;

    open spec fn view(&self) -> UserModel {
        UserModel {
            name: self.name@,
            password: self.password@,
            uid: self.uid as int,
            gid: self.gid as int,
            comment: self.comment@,
            home: self.home@,
            init: self.init@,
            group: self.group@,
            groups: texts(self.groups@),
        }
    }
}

/// A hard failure while reading accounts.
#[derive(Debug)]
pub enum UserError {
    ParseInt(ParseIntError),
    Io(io::Error),
    ParseBool(ParseBoolError),
    Group(GroupError),
    /// A record of the account database with fewer fields than its format has.
    MissingField,
}

/// The model of a hard failure while reading accounts: one of the account
/// database or of the arguments, or one of the group database.
pub enum UserFault {
    Own(Fault),
    Group(Fault),
}

/// Whether `e` is the failure that `f` describes.
pub open spec fn user_error_is(e: UserError, f: UserFault) -> bool {
    match f {
        UserFault::Own(Fault::BadInt) => e is ParseInt,
        UserFault::Own(Fault::BadBool) => e is ParseBool,
        UserFault::Own(Fault::MissingField) => e is MissingField,
        UserFault::Group(g) => e matches UserError::Group(ge) && group_error_is(ge, g),
    }
}

/// The account that the fields of an account record give, with the groups
/// that the group database records hold for it.
pub open spec fn user_entry(fields: Seq<Seq<char>>, grecs: Seq<Seq<Seq<char>>>) -> Result<
    UserModel,
    UserFault,
> {
    if !is_i32_text(fields[2]) || !is_i32_text(fields[3]) {
        Err(UserFault::Own(Fault::BadInt))
    } else {
        match gid_lookup(grecs, text_value(fields[3])) {
            Err(f) => Err(UserFault::Group(f)),
            Ok(primary) => if !all_have_fields(grecs, 4) {
                Err(UserFault::Group(Fault::MissingField))
            } else {
                Ok(
                    UserModel {
                        name: fields[0],
                        password: fields[1],
                        uid: text_value(fields[2]),
                        gid: text_value(fields[3]),
                        comment: fields[4],
                        home: fields[5],
                        init: fields[6],
                        group: match primary {
                            Some(rec) => rec[0],
                            None => Seq::empty(),
                        },
                        groups: member_groups(grecs, fields[0]).sort_by(text_order()),
                    },
                )
            },
        }
    }
}

/// The account named `name`, or the failure to read it.
pub open spec fn user_by_name(
    precs: Seq<Seq<Seq<char>>>,
    grecs: Seq<Seq<Seq<char>>>,
    name: Seq<char>,
) -> Result<Option<UserModel>, UserFault> {
    match find_named(precs, name) {
        None => Ok(None),
        Some(fields) => if fields.len() < 7 {
            Err(UserFault::Own(Fault::MissingField))
        } else {
            match user_entry(fields, grecs) {
                Ok(u) => Ok(Some(u)),
                Err(f) => Err(f),
            }
        },
    }
}

/// The outcome of comparing an account's uid with the expected one.
pub open spec fn uid_outcome(expected: int, actual: int) -> Outcome {
    if expected == actual {
        Outcome::Passed { test: "user - uid"@, expected: decimal_text(expected) }
    } else {
        Outcome::Failed {
            test: "user - uid"@,
            expected: decimal_text(expected),
            actual: decimal_text(actual),
            message: "incorrect uid"@,
        }
    }
}

/// The outcome of comparing an account's gid with the expected one.
pub open spec fn gid_outcome(expected: int, actual: int) -> Outcome {
    if expected == actual {
        Outcome::Passed { test: "user - gid"@, expected: decimal_text(expected) }
    } else {
        Outcome::Failed {
            test: "user - gid"@,
            expected: decimal_text(expected),
            actual: decimal_text(actual),
            message: "incorrect uid"@,
        }
    }
}

/// The outcome of comparing an account's primary group with the expected one.
pub open spec fn primary_group_outcome(expected: Seq<char>, actual: Seq<char>) -> Outcome {
    if expected == actual {
        Outcome::Passed { test: "user - group"@, expected }
    } else {
        Outcome::Failed {
            test: "user - group"@,
            expected,
            actual,
            message: "incorrect primary group"@,
        }
    }
}

/// The names of a comma-separated list, sorted.
pub open spec fn sorted_names(list: Seq<char>) -> Seq<Seq<char>> {
    split_by(list, seq![',']).sort_by(text_order())
}

/// The outcome of comparing an account's secondary groups with a
/// comma-separated list, in any order.
pub open spec fn secondary_groups_outcome(expected: Seq<char>, actual: Seq<Seq<char>>) -> Outcome {
    if sorted_names(expected) == actual {
        Outcome::Passed { test: "user - groups"@, expected }
    } else {
        Outcome::Failed {
            test: "user - groups"@,
            expected,
            actual: join_by(actual, seq![',']),
            message: "incorrect secondary groups"@,
        }
    }
}

/// Compares the account's uid with `uid`.
pub fn check_uid(uid: i32, user: &User, result: &mut TestResult)
    requires
        old(result).success < i32::MAX,
        old(result).error < i32::MAX,
    ensures
        final(result)@ == old(result)@.record(uid_outcome(uid as int, user.uid as int)),
{
    let test_name = "user - uid";
    if user.uid == uid {
        record_success(result, test_name.to_string(), int_text(uid));
    } else {
        record_error(
            result,
            test_name.to_string(),
            int_text(uid),
            int_text(user.uid),
            "incorrect uid".to_string(),
        );
    }
}

/// Compares the account's gid with `gid`.
pub fn check_gid(gid: i32, user: &User, result: &mut TestResult)
    requires
        old(result).success < i32::MAX,
        old(result).error < i32::MAX,
    ensures
        final(result)@ == old(result)@.record(gid_outcome(gid as int, user.gid as int)),
{
    let test_name = "user - gid";
    if user.gid == gid {
        record_success(result, test_name.to_string(), int_text(gid));
    } else {
        record_error(
            result,
            test_name.to_string(),
            int_text(gid),
            int_text(user.gid),
            "incorrect uid".to_string(),
        );
    }
}

/// Compares the account's primary group with `group`.
pub fn check_primary_group(group: &str, user: &User, result: &mut TestResult)
    requires
        old(result).success < i32::MAX,
        old(result).error < i32::MAX,
    ensures
        final(result)@ == old(result)@.record(primary_group_outcome(group@, user.group@)),
{
    let test_name = "user - group";
    if user.group == group.to_string() {
        record_success(result, test_name.to_string(), group.to_string());
    } else {
        record_error(
            result,
            test_name.to_string(),
            group.to_string(),
            user.group.clone(),
            "incorrect primary group".to_string(),
        );
    }
}

/// Compares the account's secondary groups with the comma-separated list
/// `groups`, whose order does not matter.
pub fn check_secondary_groups(groups: &str, user: &User, result: &mut TestResult)
    requires
        old(result).success < i32::MAX,
        old(result).error < i32::MAX,
    ensures
        final(result)@ == old(result)@.record(
            secondary_groups_outcome(groups@, texts(user.groups@)),
        ),
{
    let test_name = "user - groups";
    let sep = ",";
    proof {
        reveal_strlit(",");
        assert(sep@ =~= seq![',']);
    }
    let group_list = split_text(groups, sep);
    let group_list = sort_texts(&group_list);
    if texts_eq(&group_list, &user.groups) {
        record_success(result, test_name.to_string(), groups.to_string());
    } else {
        record_error(
            result,
            test_name.to_string(),
            groups.to_string(),
            join_texts(&user.groups, sep),
            "incorrect secondary groups".to_string(),
        );
    }
}

/// The outcome of comparing the presence of an account with the expectation.
pub open spec fn user_exists_outcome(found: bool, exists: bool) -> Outcome {
    existence_outcome("user - exists"@, found, exists, "user exists"@, "user doesn't exists"@)
}

/// Compares the presence of an account with the expectation `exists`.
pub fn check_exists(user_result: &Option<User>, exists: bool, result: &mut TestResult)
    requires
        old(result).success < i32::MAX,
        old(result).error < i32::MAX,
    ensures
        final(result)@ == old(result)@.record(user_exists_outcome(user_result is Some, exists)),
{
    match (user_result.is_some(), exists) {
        (true, false) => {
            record_error(
                result,
                "user - exists".to_string(),
                "false".to_string(),
                "true".to_string(),
                "user exists".to_string(),
            );
        },
        (false, false) => {
            record_success(result, "user - exists".to_string(), "false".to_string());
        },
        (false, true) => {
            record_error(
                result,
                "user - exists".to_string(),
                "true".to_string(),
                "false".to_string(),
                "user doesn't exists".to_string(),
            );
        },
        (true, true) => {
            record_success(result, "user - exists".to_string(), "true".to_string());
        },
    }
}

/// The report of an account check, or the hard failure that stops it.
pub open spec fn user_check(
    name: Seq<char>,
    exists: Seq<char>,
    uid: Option<Seq<char>>,
    gid: Option<Seq<char>>,
    group: Option<Seq<char>>,
    groups: Option<Seq<char>>,
    precs: Seq<Seq<Seq<char>>>,
    grecs: Seq<Seq<Seq<char>>>,
) -> Result<Report, UserFault> {
    if !is_bool_text(exists) {
        Err(UserFault::Own(Fault::BadBool))
    } else {
        match user_by_name(precs, grecs, name) {
            Err(f) => Err(f),
            Ok(found) => {
                let first = Report::empty().record(
                    user_exists_outcome(found is Some, exists == "true"@),
                );
                match found {
                    None => Ok(first),
                    Some(u) => if uid matches Some(t) && !is_i32_text(t) {
                        Err(UserFault::Own(Fault::BadInt))
                    } else if gid matches Some(t) && !is_i32_text(t) {
                        Err(UserFault::Own(Fault::BadInt))
                    } else {
                        Ok(attribute_checks(first, u, uid, gid, group, groups))
                    },
                }
            },
        }
    }
}

/// `r` after the comparison of each attribute that an expectation is given for.
pub open spec fn attribute_checks(
    r: Report,
    u: UserModel,
    uid: Option<Seq<char>>,
    gid: Option<Seq<char>>,
    group: Option<Seq<char>>,
    groups: Option<Seq<char>>,
) -> Report {
    let r1 = match uid {
        Some(t) => r.record(uid_outcome(text_value(t), u.uid)),
        None => r,
    };
    let r2 = match gid {
        Some(t) => r1.record(gid_outcome(text_value(t), u.gid)),
        None => r1,
    };
    let r3 = match group {
        Some(g) => r2.record(primary_group_outcome(g, u.group)),
        None => r2,
    };
    match groups {
        Some(g) => r3.record(secondary_groups_outcome(g, u.groups)),
        None => r3,
    }
}

/// The views of an optional account.
pub open spec fn opt_user(o: Option<User>) -> Option<UserModel> {
    match o {
        Some(u) => Some(u@),
        None => None,
    }
}

/// Checks the account `username`: that it exists or not as `exists` says,
/// and, when it exists, each attribute that an expectation is given for:
/// uid, gid, primary group and the comma-separated secondary groups.
/// `passwd_lines` and `group_lines` are the lines of the account and group
/// databases.
pub fn check(
    username: &str,
    exists: &str,
    uid: Option<&str>,
    gid: Option<&str>,
    group: Option<&str>,
    groups: Option<&str>,
    passwd_lines: &Vec<String>,
    group_lines: &Vec<String>,
) -> (r: Result<TestResult, UserError>)
    ensures
        match user_check(
            username@,
            exists@,
            opt_text(uid),
            opt_text(gid),
            opt_text(group),
            opt_text(groups),
            db_records(passwd_lines@),
            db_records(group_lines@),
        ) {
            Ok(rep) => r is Ok && r->Ok_0@ == rep,
            Err(f) => r is Err && user_error_is(r->Err_0, f),
        },
{
    let mut result = TestResult { success: 0, error: 0, summary: Vec::new() };
    assert(result@.outcomes =~= Seq::<Outcome>::empty());
    let exists_bool = match parse_bool_text(exists) {
        Ok(b) => b,
        Err(e) => {
            return Err(UserError::ParseBool(e));
        },
    };
    proof {
        reveal_strlit("true");
        reveal_strlit("false");
    }
    let user_result = match get_user(username, passwd_lines, group_lines) {
        Ok(u) => u,
        Err(e) => {
            return Err(e);
        },
    };
    check_exists(&user_result, exists_bool, &mut result);
    match user_result {
        None => Ok(result),
        Some(user) => {
            let uid = match parse_int(uid) {
                Ok(n) => n,
                Err(e) => {
                    return Err(UserError::ParseInt(e));
                },
            };
            let gid = match parse_int(gid) {
                Ok(n) => n,
                Err(e) => {
                    return Err(UserError::ParseInt(e));
                },
            };
            if let Some(uid_int) = uid {
                check_uid(uid_int, &user, &mut result);
            }
            if let Some(gid_int) = gid {
                check_gid(gid_int, &user, &mut result);
            }
            if let Some(g) = group {
                check_primary_group(g, &user, &mut result);
            }
            if let Some(g) = groups {
                check_secondary_groups(g, &user, &mut result);
            }
            Ok(result)
        },
    }
}

/// The account named `username`, with its groups.
pub fn get_user(username: &str, passwd_lines: &Vec<String>, group_lines: &Vec<String>) -> (r: Result<
    Option<User>,
    UserError,
>)
    ensures
        match user_by_name(db_records(passwd_lines@), db_records(group_lines@), username@) {
            Ok(u) => r is Ok && opt_user(r->Ok_0) == u,
            Err(f) => r is Err && user_error_is(r->Err_0, f),
        },
        r matches Ok(Some(u)) ==> u@.wf(),
{
    let user_line = get_user_line(username, passwd_lines);
    match user_line {
        None => Ok(None),
        Some(l) => {
            if l.len() < 7 {
                return Err(UserError::MissingField);
            }
            match parse_user_line(&l, group_lines) {
                Ok(user) => Ok(Some(user)),
                Err(e) => Err(e),
            }
        },
    }
}

/// Reads an account from the fields of its record, and finds its primary
/// group and its secondary groups in the lines of the group database.
pub fn parse_user_line(user_line: &Vec<String>, group_lines: &Vec<String>) -> (r: Result<
    User,
    UserError,
>)
    requires
        user_line@.len() >= 7,
    ensures
        match user_entry(texts(user_line@), db_records(group_lines@)) {
            Ok(u) => r is Ok && r->Ok_0@ == u,
            Err(f) => r is Err && user_error_is(r->Err_0, f),
        },
        r matches Ok(u) ==> u@.wf(),
{
    let username = &user_line[0];
    let password = &user_line[1];
    let uid = match parse_i32(user_line[2].as_str()) {
        Ok(n) => n,
        Err(e) => {
            return Err(UserError::ParseInt(e));
        },
    };
    let gid = match parse_i32(user_line[3].as_str()) {
        Ok(n) => n,
        Err(e) => {
            return Err(UserError::ParseInt(e));
        },
    };
    let comment = &user_line[4];
    let home = &user_line[5];
    let init = &user_line[6];
    proof {
        lemma_gid_lookup_fields(db_records(group_lines@), gid as int);
    }
    let primary_group_line = match get_group_line_from_gid(gid, group_lines) {
        Ok(l) => l,
        Err(e) => {
            return Err(UserError::Group(e));
        },
    };
    let group = match primary_group_line {
        None => String::new(),
        Some(line) => line[0].clone(),
    };
    let old_groups = match get_user_secondary_groups(username.as_str(), group_lines) {
        Ok(v) => v,
        Err(e) => {
            return Err(UserError::Group(e));
        },
    };
    let secondary_groups = sort_texts(&old_groups);
    proof {
        lemma_text_order_total();
        texts(old_groups@).lemma_sort_by_ensures(text_order());
    }
    Ok(
        User {
            name: username.clone(),
            password: password.clone(),
            uid: uid,
            gid: gid,
            comment: comment.clone(),
            home: home.clone(),
            init: init.clone(),
            group: group,
            groups: secondary_groups,
        },
    )
}

/// The fields of the first line of the account database whose name is
/// `username`.
pub fn get_user_line(username: &str, passwd_lines: &Vec<String>) -> (r: Option<Vec<String>>)
    ensures
        opt_texts(r) == find_named(db_records(passwd_lines@), username@),
{
    find_record(passwd_lines, username)
}

/// The secondary-groups comparison does not depend on the order of the
/// expected list: two lists with the same names, each as often, give the
/// same verdict against any account.
pub proof fn lemma_secondary_groups_order_free(a: Seq<char>, b: Seq<char>, actual: Seq<Seq<char>>)
    requires
        split_by(a, seq![',']).to_multiset() == split_by(b, seq![',']).to_multiset(),
    ensures
        sorted_names(a) == sorted_names(b),
        (secondary_groups_outcome(a, actual) is Passed) <==> (secondary_groups_outcome(
            b,
            actual,
        ) is Passed),
{
    let le = text_order();
    lemma_text_order_total();
    let sa = split_by(a, seq![',']);
    let sb = split_by(b, seq![',']);
    sa.lemma_sort_by_ensures(le);
    sb.lemma_sort_by_ensures(le);
    lemma_sorted_unique(sa.sort_by(le), sb.sort_by(le), le);
}

/// Against an account whose secondary groups are in canonical order, the
/// secondary-groups comparison succeeds exactly when the expected list holds
/// the same names as the account, each as often.
pub proof fn lemma_secondary_groups_as_multisets(expected: Seq<char>, u: UserModel)
    requires
        u.wf(),
    ensures
        (secondary_groups_outcome(expected, u.groups) is Passed) <==> split_by(
            expected,
            seq![','],
        ).to_multiset() == u.groups.to_multiset(),
{
    let le = text_order();
    lemma_text_order_total();
    let names = split_by(expected, seq![',']);
    names.lemma_sort_by_ensures(le);
    if names.to_multiset() == u.groups.to_multiset() {
        lemma_sorted_unique(names.sort_by(le), u.groups, le);
    }
}

/// Reading an account record back: the fields come out as written, uid and
/// gid written in decimal come out as the same numbers, and a uid or gid
/// that is no integer text makes reading fail rather than take a default.
pub proof fn lemma_user_record_round_trip(
    fields: Seq<Seq<char>>,
    uid: i32,
    gid: i32,
    grecs: Seq<Seq<Seq<char>>>,
)
    requires
        fields.len() >= 7,
    ensures
        !is_i32_text(fields[2]) ==> user_entry(fields, grecs) == Err::<UserModel, UserFault>(
            UserFault::Own(Fault::BadInt),
        ),
        !is_i32_text(fields[3]) ==> user_entry(fields, grecs) == Err::<UserModel, UserFault>(
            UserFault::Own(Fault::BadInt),
        ),
        fields[2] == decimal_text(uid as int) && fields[3] == decimal_text(gid as int)
            && gid_lookup(grecs, gid as int) is Ok && all_have_fields(grecs, 4) ==> (user_entry(
            fields,
            grecs,
        ) matches Ok(u) && u.uid == uid && u.gid == gid && u.name == fields[0] && u.password
            == fields[1] && u.comment == fields[4] && u.home == fields[5] && u.init == fields[6]),
{
    crate::util::lemma_decimal_round_trip(uid);
    crate::util::lemma_decimal_round_trip(gid);
}

/// Where the account is absent, the report holds the existence comparison
/// alone, whatever attribute expectations were given.
pub proof fn lemma_absent_account_single_outcome(
    name: Seq<char>,
    exists: Seq<char>,
    uid: Option<Seq<char>>,
    gid: Option<Seq<char>>,
    group: Option<Seq<char>>,
    groups: Option<Seq<char>>,
    precs: Seq<Seq<Seq<char>>>,
    grecs: Seq<Seq<Seq<char>>>,
)
    requires
        is_bool_text(exists),
        user_by_name(precs, grecs, name) == Ok::<Option<UserModel>, UserFault>(None),
    ensures
        user_check(name, exists, uid, gid, group, groups, precs, grecs) == Ok::<Report, UserFault>(
            Report::empty().record(user_exists_outcome(false, exists == "true"@)),
        ),
{
}

/// Every report of an account check has as many outcomes as its two
/// counters add up to.
pub proof fn lemma_user_report_balanced(
    name: Seq<char>,
    exists: Seq<char>,
    uid: Option<Seq<char>>,
    gid: Option<Seq<char>>,
    group: Option<Seq<char>>,
    groups: Option<Seq<char>>,
    precs: Seq<Seq<Seq<char>>>,
    grecs: Seq<Seq<Seq<char>>>,
)
    ensures
        user_check(name, exists, uid, gid, group, groups, precs, grecs) matches Ok(rep) ==> rep.wf(),
{
}

} // verus!

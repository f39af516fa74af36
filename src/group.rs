//! Groups: reading the group database and checking a group against what is
//! expected of it.
use crate::report::{
    check_exists, existence_outcome, record_error, record_success, Outcome, Report, TestResult,
};
use crate::text::{
    all_have_fields, contains_text, db_records, find_named, find_record, opt_text, opt_texts,
    record_fields, split_by, split_text, texts,
};
use crate::util::{
    decimal_text, int_text, is_bool_text, is_i32_text, parse_bool_text, parse_i32, parse_int,
    text_value, Fault,
};
use std::io;
use std::num::ParseIntError;
use std::str::ParseBoolError;
use vstd::prelude::*;

verus! {

/// A hard failure while reading groups.
#[derive(Debug)]
pub enum GroupError {
    ParseInt(ParseIntError),
    Io(io::Error),
    ParseBool(ParseBoolError),
    /// A record of the group database with fewer fields than its format has.
    MissingField,
}

/// Whether `e` is the failure that `f` describes.
pub open spec fn group_error_is(e: GroupError, f: Fault) -> bool {
    match f {
        Fault::BadInt => e is ParseInt,
        Fault::BadBool => e is ParseBool,
        Fault::MissingField => e is MissingField,
    }
}

/// One group of the group database.
#[derive(Debug)]
pub struct Group {
    pub name: String,
    pub password: String,
    pub gid: i32,
}

/// The model of a group.
pub struct GroupModel {
    pub name: Seq<char>,
    pub password: Seq<char>,
    pub gid: int,
}

impl View for Group {
    type V = GroupModel;

    open spec fn view(&self) -> GroupModel {
        GroupModel { name: self.name@, password: self.password@, gid: self.gid as int }
    }
}

/// The group that a record describes, where its gid field reads as an `i32`.
pub open spec fn group_of(fields: Seq<Seq<char>>) -> GroupModel {
    GroupModel { name: fields[0], password: fields[1], gid: text_value(fields[2]) }
}

/// The first record whose gid field is `gid`; a record met before it that
/// is too short or has no integer gid is a failure.
pub open spec fn gid_lookup(recs: Seq<Seq<Seq<char>>>, gid: int) -> Result<
    Option<Seq<Seq<char>>>,
    Fault,
>
    decreases recs.len(),
{
    if recs.len() == 0 {
        Ok(None)
    } else if recs[0].len() < 3 {
        Err(Fault::MissingField)
    } else if !is_i32_text(recs[0][2]) {
        Err(Fault::BadInt)
    } else if text_value(recs[0][2]) == gid {
        Ok(Some(recs[0]))
    } else {
        gid_lookup(recs.drop_first(), gid)
    }
}

/// A record that the gid lookup finds has a gid field.
pub proof fn lemma_gid_lookup_fields(recs: Seq<Seq<Seq<char>>>, gid: int)
    ensures
        gid_lookup(recs, gid) matches Ok(Some(rec)) ==> rec.len() >= 3,
    decreases recs.len(),
{
    if recs.len() > 0 {
        lemma_gid_lookup_fields(recs.drop_first(), gid);
    }
}

/// The group that a found record gives, or the failure to read it.
pub open spec fn group_entry(rec: Option<Seq<Seq<char>>>) -> Result<Option<GroupModel>, Fault> {
    match rec {
        None => Ok(None),
        Some(fields) => if fields.len() < 3 {
            Err(Fault::MissingField)
        } else if !is_i32_text(fields[2]) {
            Err(Fault::BadInt)
        } else {
            Ok(Some(group_of(fields)))
        },
    }
}

/// Whether a record of the group database lists `user` among its members.
pub open spec fn lists_member(rec: Seq<Seq<char>>, user: Seq<char>) -> bool {
    rec[3] != Seq::<char>::empty() && split_by(rec[3], seq![',']).contains(user)
}

/// The names of the groups that list `user` among their members, in the
/// order of the database.
pub open spec fn member_groups(recs: Seq<Seq<Seq<char>>>, user: Seq<char>) -> Seq<Seq<char>>
    decreases recs.len(),
{
    if recs.len() == 0 {
        Seq::empty()
    } else {
        let before = member_groups(recs.drop_last(), user);
        if lists_member(recs.last(), user) {
            before.push(recs.last()[0])
        } else {
            before
        }
    }
}

/// The fields of the first line of the group database whose gid is `gid`.
pub fn get_group_line_from_gid(gid: i32, group_lines: &Vec<String>) -> (r: Result<
    Option<Vec<String>>,
    GroupError,
>)
    ensures
        match gid_lookup(db_records(group_lines@), gid as int) {
            Ok(found) => r is Ok && opt_texts(r->Ok_0) == found,
            Err(f) => r is Err && group_error_is(r->Err_0, f),
        },
{
    let ghost recs = db_records(group_lines@);
    let mut i: usize = 0;
    assert(recs.skip(0) =~= recs);
    while i < group_lines.len()
        invariant
            recs == db_records(group_lines@),
            i <= group_lines@.len(),
            gid_lookup(recs, gid as int) == gid_lookup(recs.skip(i as int), gid as int),
        decreases group_lines@.len() - i,
    {
        let fields = record_fields(group_lines[i].as_str());
        proof {
            assert(recs.skip(i as int)[0] == texts(fields@));
            assert(recs.skip(i as int).drop_first() =~= recs.skip(i + 1));
        }
        if fields.len() < 3 {
            return Err(GroupError::MissingField);
        }
        match parse_i32(fields[2].as_str()) {
            Err(e) => {
                return Err(GroupError::ParseInt(e));
            },
            Ok(line_gid) => {
                if line_gid == gid {
                    return Ok(Some(fields));
                }
            },
        }
        i = i + 1;
    }
    Ok(None)
}

/// Reads a group from the fields of its record.
pub fn parse_group_line(line: &Vec<String>) -> (r: Result<Group, ParseIntError>)
    requires
        line@.len() >= 3,
    ensures
        r is Ok <==> is_i32_text(line@[2]@),
        r is Ok ==> r->Ok_0@ == group_of(texts(line@)),
{
    let gid = match parse_i32(line[2].as_str()) {
        Ok(n) => n,
        Err(e) => {
            return Err(e);
        },
    };
    let name = &line[0];
    let password = &line[1];
    Ok(Group { name: name.clone(), password: password.clone(), gid: gid })
}

/// The outcome of comparing a group's gid with the expected one.
pub open spec fn gid_outcome(expected: int, actual: int) -> Outcome {
    if expected == actual {
        Outcome::Passed { test: "group - gid"@, expected: decimal_text(expected) }
    } else {
        Outcome::Failed {
            test: "group - gid"@,
            expected: decimal_text(expected),
            actual: decimal_text(actual),
            message: "incorrect gid"@,
        }
    }
}

/// Compares the group's gid with `gid`.
pub fn check_gid(gid: i32, group: &Group, result: &mut TestResult)
    requires
        old(result).success < i32::MAX,
        old(result).error < i32::MAX,
    ensures
        final(result)@ == old(result)@.record(gid_outcome(gid as int, group.gid as int)),
{
    let test_name = "group - gid";
    if group.gid == gid {
        record_success(result, test_name.to_string(), int_text(gid));
    } else {
        record_error(
            result,
            test_name.to_string(),
            int_text(gid),
            int_text(group.gid),
            "incorrect gid".to_string(),
        );
    }
}

/// The group named `name` in the database, or the failure to read it.
pub open spec fn group_by_name(recs: Seq<Seq<Seq<char>>>, name: Seq<char>) -> Result<
    Option<GroupModel>,
    Fault,
> {
    group_entry(find_named(recs, name))
}

/// The group whose gid is `gid`, or the failure to read it.
pub open spec fn group_by_gid(recs: Seq<Seq<Seq<char>>>, gid: int) -> Result<
    Option<GroupModel>,
    Fault,
> {
    match gid_lookup(recs, gid) {
        Err(f) => Err(f),
        Ok(found) => group_entry(found),
    }
}

/// The views of an optional group.
pub open spec fn opt_group(o: Option<Group>) -> Option<GroupModel> {
    match o {
        Some(g) => Some(g@),
        None => None,
    }
}

/// The group named `name` in the group database.
pub fn get_group_from_name(name: &str, group_lines: &Vec<String>) -> (r: Result<
    Option<Group>,
    GroupError,
>)
    ensures
        match group_by_name(db_records(group_lines@), name@) {
            Ok(g) => r is Ok && opt_group(r->Ok_0) == g,
            Err(f) => r is Err && group_error_is(r->Err_0, f),
        },
{
    let group_line = get_group_line_from_name(name, group_lines);
    match group_line {
        None => Ok(None),
        Some(l) => {
            if l.len() < 3 {
                return Err(GroupError::MissingField);
            }
            match parse_group_line(&l) {
                Ok(group) => Ok(Some(group)),
                Err(e) => Err(GroupError::ParseInt(e)),
            }
        },
    }
}

/// The group whose gid is `gid` in the group database.
pub fn get_group_from_gid(gid: i32, group_lines: &Vec<String>) -> (r: Result<
    Option<Group>,
    GroupError,
>)
    ensures
        match group_by_gid(db_records(group_lines@), gid as int) {
            Ok(g) => r is Ok && opt_group(r->Ok_0) == g,
            Err(f) => r is Err && group_error_is(r->Err_0, f),
        },
{
    let group_line = match get_group_line_from_gid(gid, group_lines) {
        Ok(l) => l,
        Err(e) => {
            return Err(e);
        },
    };
    match group_line {
        None => Ok(None),
        Some(l) => {
            if l.len() < 3 {
                return Err(GroupError::MissingField);
            }
            match parse_group_line(&l) {
                Ok(group) => Ok(Some(group)),
                Err(e) => Err(GroupError::ParseInt(e)),
            }
        },
    }
}

/// The fields of the first line of the group database whose name is `name`.
pub fn get_group_line_from_name(name: &str, group_lines: &Vec<String>) -> (r: Option<Vec<String>>)
    ensures
        opt_texts(r) == find_named(db_records(group_lines@), name@),
{
    find_record(group_lines, name)
}

/// The names of the groups whose member list holds `username`, in the order
/// of the group database; every record must have its member field.
pub fn get_user_secondary_groups(username: &str, group_lines: &Vec<String>) -> (r: Result<
    Vec<String>,
    GroupError,
>)
    ensures
        r is Ok <==> all_have_fields(db_records(group_lines@), 4),
        r matches Ok(v) ==> texts(v@) == member_groups(db_records(group_lines@), username@),
        r matches Err(e) ==> e is MissingField,
{
    let ghost recs = db_records(group_lines@);
    let mut result: Vec<String> = Vec::new();
    let mut i: usize = 0;
    assert(recs.take(0) =~= Seq::<Seq<Seq<char>>>::empty());
    while i < group_lines.len()
        invariant
            recs == db_records(group_lines@),
            i <= group_lines@.len(),
            all_have_fields(recs.take(i as int), 4),
            texts(result@) == member_groups(recs.take(i as int), username@),
        decreases group_lines@.len() - i,
    {
        let fields = record_fields(group_lines[i].as_str());
        let ghost taken = recs.take(i + 1);
        proof {
            assert(recs[i as int] == texts(fields@));
            assert(taken.drop_last() =~= recs.take(i as int));
        }
        if fields.len() < 4 {
            proof {
                assert(!all_have_fields(recs, 4) ) by {
                    assert(recs[i as int].len() < 4);
                }
            }
            return Err(GroupError::MissingField);
        }
        if !fields[3].as_str().is_empty() {
            let sep = ",";
            proof {
                reveal_strlit(",");
                assert(sep@ =~= seq![',']);
            }
            let members = split_text(fields[3].as_str(), sep);
            if contains_text(&members, username) {
                result.push(fields[0].clone());
            }
        }
        proof {
            assert(texts(fields@)[3] == fields@[3]@);
            if fields@[3]@.len() == 0 {
                assert(fields@[3]@ =~= Seq::<char>::empty());
            }
            assert(texts(result@) =~= member_groups(taken, username@));
        }
        i = i + 1;
    }
    assert(recs.take(i as int) =~= recs);
    Ok(result)
}

/// The report of a group check, or the hard failure that stops it.
pub open spec fn group_check(
    name: Seq<char>,
    exists: Seq<char>,
    gid: Option<Seq<char>>,
    recs: Seq<Seq<Seq<char>>>,
) -> Result<Report, Fault> {
    if !is_bool_text(exists) {
        Err(Fault::BadBool)
    } else {
        match group_by_name(recs, name) {
            Err(f) => Err(f),
            Ok(found) => {
                let first = Report::empty().record(
                    existence_outcome(
                        "group - exists"@,
                        found is Some,
                        exists == "true"@,
                        "the element exists"@,
                        "the element doesn't exists"@,
                    ),
                );
                match (found, gid) {
                    (Some(g), Some(t)) => if is_i32_text(t) {
                        Ok(first.record(gid_outcome(text_value(t), g.gid)))
                    } else {
                        Err(Fault::BadInt)
                    },
                    _ => Ok(first),
                }
            },
        }
    }
}

/// Checks the group `name` of the group database: that it exists or not as
/// `exists` says, and, when it exists and `gid` is given, its gid.
pub fn check(name: &str, exists: &str, gid: Option<&str>, group_lines: &Vec<String>) -> (r: Result<
    TestResult,
    GroupError,
>)
    ensures
        match group_check(name@, exists@, opt_text(gid), db_records(group_lines@)) {
            Ok(rep) => r is Ok && r->Ok_0@ == rep,
            Err(f) => r is Err && group_error_is(r->Err_0, f),
        },
{
    let mut result = TestResult { success: 0, error: 0, summary: Vec::new() };
    assert(result@.outcomes =~= Seq::<Outcome>::empty());
    let exists_bool = match parse_bool_text(exists) {
        Ok(b) => b,
        Err(e) => {
            return Err(GroupError::ParseBool(e));
        },
    };
    proof {
        reveal_strlit("true");
        reveal_strlit("false");
    }
    let group_result = match get_group_from_name(name, group_lines) {
        Ok(g) => g,
        Err(e) => {
            return Err(e);
        },
    };
    check_exists(&group_result, exists_bool, &mut result, "group - exists".to_string());
    match group_result {
        None => Ok(result),
        Some(group) => {
            let gid = match parse_int(gid) {
                Ok(g) => g,
                Err(e) => {
                    return Err(GroupError::ParseInt(e));
                },
            };
            match gid {
                Some(gid_int) => {
                    check_gid(gid_int, &group, &mut result);
                },
                None => {},
            }
            Ok(result)
        },
    }
}

/// Every report of a group check has as many outcomes as its two counters
/// add up to.
pub proof fn lemma_group_report_balanced(
    name: Seq<char>,
    exists: Seq<char>,
    gid: Option<Seq<char>>,
    recs: Seq<Seq<Seq<char>>>,
)
    ensures
        group_check(name, exists, gid, recs) matches Ok(rep) ==> rep.wf(),
{
}

} // verus!

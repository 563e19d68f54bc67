//! The upload of a snapshot to S3, and the retention of what is there.

use vstd::prelude::*;
use vstd::relations::total_ordering;

use crate::backup::action::{state_action, state_write, Action, ActionView, Reply};
use crate::backup::error::{about, bare, bare_error, error_about, error_view, BackupError, BackupErrorView, Context, Fault};
use crate::backup::retention::{expired_keys, expired_objects_are_valid};
use crate::clock::Reading;
use crate::cmd::{arg_texts, env_texts, pipe_with_env, run_with_env, run_with_output_env, var_texts, CommandView};
use crate::config::Config;
use crate::number::digits_value;
use crate::order::{by_name, by_name_is_total, lex_le, sorted_names};
use crate::snapshot::{is_timestamp, snapshots_below, snapshots_dir, validate_timestamp, FULL_PREFIX, INCR_PREFIX};
use crate::state::{Operation, State};
use crate::text::{joined, lines, same_text, split_lines, split_words, texts, words};

verus! {

broadcast use vstd::string::group_string_axioms;

/// What an uploaded snapshot has behind its name.
pub const OBJECT_SUFFIX: &'static str = ".tar.gpg";

/// The pattern of snapshot names: `(full|incr)_YYYYMMDD_HHMMSS`.
pub open spec fn is_snapshot_name(s: Seq<char>) -> bool {
    &&& s.len() == 20
    &&& s.take(5) == FULL_PREFIX@ || s.take(5) == INCR_PREFIX@
    &&& is_timestamp(s.skip(5))
}

/// The pattern of object names: a snapshot name followed by `.tar.gpg`.
pub open spec fn is_object_name(s: Seq<char>) -> bool {
    &&& s.len() == 28
    &&& is_snapshot_name(s.take(20))
    &&& s.skip(20) == OBJECT_SUFFIX@
}

/// Returns `true` if `name` is a snapshot name, i.e. matches
/// `(full|incr)_YYYYMMDD_HHMMSS`.
///
/// Checked before a name is used in a path or a URI, to prevent path traversal
/// through `tar` arguments.
pub fn is_valid_snapshot_name(name: &str) -> (r: bool)
    ensures
        r == is_snapshot_name(name@),
{
    if name.unicode_len() != 20 {
        return false;
    }
    let prefix = name.substring_char(0, 5);
    let rest = name.substring_char(5, 20);
    assert(name@.subrange(0, 5) =~= name@.take(5));
    assert(name@.subrange(5, 20) =~= name@.skip(5));
    if !same_text(prefix, FULL_PREFIX) && !same_text(prefix, INCR_PREFIX) {
        return false;
    }
    match validate_timestamp(rest) {
        Ok(()) => true,
        Err(_) => false,
    }
}

/// Returns `true` if `name` is a valid S3 object name, i.e. matches
/// `(full|incr)_YYYYMMDD_HHMMSS.tar.gpg`.
pub fn is_valid_s3_object_name(name: &str) -> (r: bool)
    ensures
        r == is_object_name(name@),
{
    if name.unicode_len() != 28 {
        return false;
    }
    let stem = name.substring_char(0, 20);
    let suffix = name.substring_char(20, 28);
    assert(name@.subrange(0, 20) =~= name@.take(20));
    assert(name@.subrange(20, 28) =~= name@.skip(20));
    same_text(suffix, OBJECT_SUFFIX) && is_valid_snapshot_name(stem)
}

/// What a line of `aws s3 ls` adds: its fourth word, or nothing where it has
/// fewer.
pub open spec fn line_object(line: Seq<char>) -> Seq<Seq<char>> {
    if words(line).len() >= 4 {
        seq![words(line)[3]]
    } else {
        seq![]
    }
}

/// The objects of a list of lines, in order.
pub open spec fn line_objects(ls: Seq<Seq<char>>) -> Seq<Seq<char>>
    decreases ls.len(),
{
    if ls.len() == 0 {
        seq![]
    } else {
        line_objects(ls.drop_last()) + line_object(ls.last())
    }
}

/// Parses the output of `aws s3 ls s3://<bucket>/` and returns the list of
/// object keys found in that output.
///
/// Each line of `aws s3 ls` has the format:
/// ```text
/// 2024-01-01 12:00:00      12345 full_20240101_120000.tar.gpg
/// ```
/// This function extracts the fourth whitespace-separated token (the object
/// name) from each non-empty line. Lines that do not contain at least four
/// tokens are silently ignored (e.g. blank lines, header lines).
pub fn parse_s3_ls_output(output: &str) -> (r: Vec<String>)
    ensures
        texts(r@) == line_objects(lines(output@)),
{
    let ls = split_lines(output);
    let mut out: Vec<String> = Vec::new();
    let mut i: usize = 0;
    assert(texts(out@) =~= line_objects(texts(ls@).take(0)));
    while i < ls.len()
        invariant
            i <= ls@.len(),
            texts(out@) == line_objects(texts(ls@).take(i as int)),
        decreases ls@.len() - i,
    {
        let tokens = split_words(ls[i].as_str());
        let ghost line = texts(ls@)[i as int];
        assert(texts(ls@).take(i + 1).drop_last() =~= texts(ls@).take(i as int));
        assert(words(line) == texts(tokens@));
        let ghost before = texts(out@);
        if tokens.len() >= 4 {
            out.push(tokens[3].clone());
            assert(texts(out@) =~= before + line_object(line));
        } else {
            assert(before =~= before + line_object(line));
        }
        i += 1;
    }
    assert(texts(ls@).take(i as int) =~= texts(ls@));
    out
}

/// How many of `n` objects exceed the retention of `retention_count`.
pub open spec fn excess(n: nat, retention_count: usize) -> int {
    if n <= retention_count {
        0
    } else {
        n - retention_count
    }
}

/// The first objects in lexicographic order, as many as exceed the retention.
pub open spec fn doomed(objects: Seq<Seq<char>>, retention_count: usize) -> Seq<Seq<char>> {
    objects.sort_by(by_name()).take(excess(objects.len(), retention_count))
}

/// The objects behind them.
pub open spec fn retained(objects: Seq<Seq<char>>, retention_count: usize) -> Seq<Seq<char>> {
    objects.sort_by(by_name()).skip(excess(objects.len(), retention_count))
}

/// Given a list of S3 object names (e.g. `full_20240101_120000.tar.gpg`),
/// returns the subset that should be deleted to enforce `retention_count`.
///
/// Objects are sorted lexicographically by name (ascending); because the
/// timestamp is embedded behind the prefix (`YYYYMMDD_HHMMSS`), this is the
/// chronological order of objects with the same prefix. The objects with the
/// lowest sort keys beyond `retention_count` are returned as candidates for
/// deletion.
///
/// If `objects.len() <= retention_count`, the returned list is empty.
pub fn objects_to_delete(objects: &[String], retention_count: usize) -> (r: Vec<String>)
    ensures
        texts(r@) == doomed(texts(objects@), retention_count),
{
    proof {
        by_name_is_total();
        sort_keeps_length(texts(objects@), by_name());
    }
    if objects.len() <= retention_count {
        let none: Vec<String> = Vec::new();
        assert(texts(none@) =~= doomed(texts(objects@), retention_count));
        return none;
    }
    let mut sorted = sorted_names(objects);
    let delete_count = objects.len() - retention_count;
    sorted.truncate(delete_count);
    assert(texts(sorted@) =~= doomed(texts(objects@), retention_count));
    sorted
}

/// Sorting leaves the number of objects as it is.
pub proof fn sort_keeps_length(objects: Seq<Seq<char>>, leq: spec_fn(Seq<char>, Seq<char>) -> bool)
    requires
        total_ordering(leq),
    ensures
        objects.sort_by(leq).len() == objects.len(),
{
    broadcast use vstd::seq_lib::group_to_multiset_ensures;

    objects.lemma_sort_by_ensures(leq);
    assert(objects.to_multiset().len() == objects.len());
    assert(objects.sort_by(leq).to_multiset().len() == objects.sort_by(leq).len());
}

/// The variables that select an AWS profile.
pub open spec fn profile_env(aws_profile: Option<String>) -> Seq<(Seq<char>, Seq<char>)> {
    match aws_profile {
        Some(profile) => seq![("AWS_PROFILE"@, profile@)],
        None => seq![],
    }
}

/// Builds the list of environment variables to inject into `aws` subprocesses.
///
/// When `aws_profile` is `Some`, `AWS_PROFILE` is included so that the correct
/// credential profile is used regardless of the inherited environment.
pub fn aws_env_vars(aws_profile: &Option<String>) -> (r: Vec<(String, String)>)
    ensures
        env_texts(r@) == profile_env(*aws_profile),
{
    let mut vars: Vec<(String, String)> = Vec::new();
    if let Some(profile) = aws_profile {
        vars.push(("AWS_PROFILE".to_owned(), profile.clone()));
    }
    assert(env_texts(vars@) =~= profile_env(*aws_profile));
    vars
}

/// The objects of a listing that have an object name, in order.
pub open spec fn valid_objects(listing: Seq<char>) -> Seq<Seq<char>> {
    line_objects(lines(listing)).filter(|o: Seq<char>| is_object_name(o))
}

/// The timestamp in the name of a snapshot or of an object.
pub open spec fn stamp_of(name: Seq<char>) -> Seq<char> {
    name.subrange(5, 20)
}

/// The number that a timestamp reads as: years, months, days, hours, minutes and
/// seconds, from the most to the least significant digit.
pub open spec fn moment(ts: Seq<char>) -> int {
    digits_value(ts.take(8) + ts.skip(9))
}

/// Age as a relation to sort by: the timestamp in the name decides, and the name
/// where two are of the same second.
pub open spec fn by_age() -> spec_fn(Seq<char>, Seq<char>) -> bool {
    |a: Seq<char>, b: Seq<char>|
        moment(stamp_of(a)) < moment(stamp_of(b)) || (moment(stamp_of(a)) == moment(stamp_of(b)) && lex_le(a, b))
}

/// The objects of a listing that exceed the retention: the oldest ones. Objects
/// whose names are not object names neither count nor go.
pub open spec fn expired(listing: Seq<char>, retention_count: usize) -> Seq<Seq<char>> {
    valid_objects(listing).sort_by(by_age()).take(excess(valid_objects(listing).len(), retention_count))
}

/// The objects of a listing that remain: the newest ones.
pub open spec fn unexpired(listing: Seq<char>, retention_count: usize) -> Seq<Seq<char>> {
    valid_objects(listing).sort_by(by_age()).skip(excess(valid_objects(listing).len(), retention_count))
}

/// An object name with its timestamp in front, so that the order of names is that
/// of age.
pub open spec fn age_key(name: Seq<char>) -> Seq<char> {
    stamp_of(name) + name
}

fn age_key_of(name: &str) -> (r: String)
    requires
        is_object_name(name@),
    ensures
        r@ == age_key(name@),
{
    joined(name.substring_char(5, 20), name)
}

/// Returns the objects in the output of `aws s3 ls` that are to be deleted to
/// enforce `retention_count`: the oldest ones by the timestamp in their names.
pub fn expired_objects(listing: &str, retention_count: usize) -> (r: Vec<String>)
    ensures
        texts(r@) == expired(listing@, retention_count),
{
    let all = parse_s3_ls_output(listing);
    let mut keys: Vec<String> = Vec::new();
    let ghost valid = |o: Seq<char>| is_object_name(o);
    let ghost key = |o: Seq<char>| age_key(o);
    let mut i: usize = 0;
    proof {
        assert(texts(all@).take(0) =~= seq![]);
        assert(texts(keys@) =~= texts(all@).take(0).filter(valid).map_values(key));
    }
    while i < all.len()
        invariant
            i <= all@.len(),
            valid == (|o: Seq<char>| is_object_name(o)),
            key == (|o: Seq<char>| age_key(o)),
            texts(keys@) == texts(all@).take(i as int).filter(valid).map_values(key),
        decreases all@.len() - i,
    {
        let ghost before = texts(all@).take(i as int);
        let ghost after = texts(all@).take(i + 1);
        let ghost kept = texts(keys@);
        assert(after.drop_last() =~= before);
        assert(after.filter(valid) == if is_object_name(after.last()) {
            before.filter(valid).push(after.last())
        } else {
            before.filter(valid)
        }) by {
            reveal(Seq::filter);
        }
        if is_valid_s3_object_name(all[i].as_str()) {
            let k = age_key_of(all[i].as_str());
            keys.push(k);
            assert(texts(keys@) =~= kept.push(age_key(after.last())));
            assert(texts(keys@) =~= after.filter(valid).map_values(key));
        }
        i += 1;
    }
    assert(texts(all@).take(i as int) =~= texts(all@));
    let gone = objects_to_delete(keys.as_slice(), retention_count);
    let ghost want = expired(listing@, retention_count);
    proof {
        expired_keys(listing@, retention_count);
        assert(texts(gone@) == want.map_values(key));
        assert(texts(gone@).len() == want.len());
    }
    let mut out: Vec<String> = Vec::new();
    let mut j: usize = 0;
    assert(texts(out@) =~= want.take(0));
    while j < gone.len()
        invariant
            j <= gone@.len(),
            key == (|o: Seq<char>| age_key(o)),
            texts(gone@) == want.map_values(key),
            gone@.len() == want.len(),
            want == expired(listing@, retention_count),
            texts(out@) == want.take(j as int),
        decreases gone@.len() - j,
    {
        proof {
            assert(texts(gone@)[j as int] == age_key(want[j as int]));
            expired_objects_are_valid(listing@, retention_count, j as int);
        }
        let k = gone[j].as_str();
        let object = k.substring_char(15, k.unicode_len()).to_owned();
        assert(object@ =~= want[j as int]);
        let ghost before = texts(out@);
        out.push(object);
        assert(texts(out@) =~= before.push(want[j as int]));
        assert(want.take(j + 1) =~= want.take(j as int).push(want[j as int]));
        j += 1;
    }
    assert(want.take(j as int) =~= want);
    out
}

/// The URI of an object.
pub open spec fn object_uri(bucket: Seq<char>, object: Seq<char>) -> Seq<char> {
    "s3://"@ + bucket + "/"@ + object
}

fn uri_of(bucket: &str, object: &str) -> (r: String)
    ensures
        r@ == object_uri(bucket@, object@),
{
    let mut out = joined("s3://", bucket);
    out.append("/");
    out.append(object);
    out
}

/// What an upload is about.
#[derive(Debug, PartialEq, Eq, Structural, Clone, Copy)]
pub enum S3Stage {
    /// Look for the public key file.
    ProbeKey,
    /// Write `in_progress:s3_upload` to the state file, with this timestamp.
    MarkUpload(u64),
    /// Archive, encrypt and upload the snapshot.
    Stream,
    /// List the objects in the bucket.
    List,
    /// Delete the expired object at this position.
    Delete(usize),
    /// Write `idle` to the state file, with this timestamp.
    MarkIdle(u64),
    /// Nothing more.
    Done,
}

/// An upload in progress.
#[derive(Debug)]
pub struct S3Upload<'a> {
    config: &'a Config,
    name: String,
    stage: S3Stage,
    doomed: Vec<String>,
    failure: Option<BackupError>,
}

/// The state of an [`S3Upload`].
#[verifier::ext_equal]
pub struct S3View {
    pub config: Config,
    /// The name of the snapshot.
    pub name: Seq<char>,
    pub stage: S3Stage,
    /// The expired objects, once they are known.
    pub doomed: Seq<Seq<char>>,
    pub failure: Option<BackupErrorView>,
}

impl<'a> View for S3Upload<'a> {
    type V = S3View;

    closed spec fn view(&self) -> S3View {
        S3View {
            config: *self.config,
            name: self.name@,
            stage: self.stage,
            doomed: texts(self.doomed@),
            failure: error_view(self.failure),
        }
    }
}

impl S3View {
    /// The object that is being deleted is there.
    pub open spec fn well_formed(self) -> bool {
        self.stage matches S3Stage::Delete(i) ==> i < self.doomed.len()
    }
}

/// An upload that has yet to do its first step.
pub open spec fn fresh_upload(config: Config, name: Seq<char>) -> S3View {
    S3View { config, name, stage: S3Stage::ProbeKey, doomed: seq![], failure: None }
}

/// `aws` with the arguments `args`, under the profile of `config`.
pub open spec fn aws(config: Config, args: Seq<Seq<char>>) -> CommandView {
    CommandView { program: "aws"@, args, env: profile_env(config.s3.aws_profile) }
}

/// The steps that a snapshot is uploaded with: `tar`, `gpg` and `aws`, all under
/// the profile of `config`.
pub open spec fn upload_steps(config: Config, name: Seq<char>) -> Seq<CommandView> {
    let env = profile_env(config.s3.aws_profile);
    seq![
        CommandView {
            program: "tar"@,
            args: seq!["-cf"@, "-"@, "-C"@, snapshots_below(config.paths.backup_path@), name + "/"@],
            env,
        },
        CommandView {
            program: "gpg"@,
            args: seq!["--encrypt"@, "--recipient-file"@, config.gpg.public_key_file@, "--output"@, "-"@],
            env,
        },
        aws(config, seq!["s3"@, "cp"@, "-"@, object_uri(config.s3.bucket@, name + OBJECT_SUFFIX@)]),
    ]
}

/// The command that deletes `object`.
pub open spec fn delete_object(config: Config, object: Seq<char>) -> CommandView {
    aws(config, seq!["s3"@, "rm"@, object_uri(config.s3.bucket@, object)])
}

/// What an upload asks for next.
pub open spec fn s3_action(v: S3View) -> ActionView {
    match v.stage {
        S3Stage::ProbeKey => ActionView::ProbeFile { path: v.config.gpg.public_key_file@ },
        S3Stage::MarkUpload(ts) => state_action(
            v.config.state.state_dir@,
            State::InProgress(Operation::S3Upload),
            ts,
        ),
        S3Stage::Stream => ActionView::Pipe(upload_steps(v.config, v.name)),
        S3Stage::List => ActionView::Capture(aws(v.config, seq!["s3"@, "ls"@, object_uri(v.config.s3.bucket@, seq![])])),
        S3Stage::Delete(i) => ActionView::Run(delete_object(v.config, v.doomed[i as int])),
        S3Stage::MarkIdle(ts) => state_action(v.config.state.state_dir@, State::Idle, ts),
        S3Stage::Done => ActionView::Stop,
    }
}

/// An upload that has failed with `e`.
pub open spec fn s3_failed(v: S3View, e: BackupErrorView) -> S3View {
    S3View { stage: S3Stage::Done, failure: Some(e), ..v }
}

/// An upload that has deleted the first `i` expired objects and goes on with the
/// next one, or with the idle state where there is none.
pub open spec fn s3_delete_from(v: S3View, i: int, now: Reading) -> S3View {
    if i < v.doomed.len() {
        S3View { stage: S3Stage::Delete(i as usize), ..v }
    } else {
        match now {
            Ok(ts) => S3View { stage: S3Stage::MarkIdle(ts), ..v },
            Err(cause) => s3_failed(v, bare(Context::MarkIdle, Fault::Clock(cause))),
        }
    }
}

/// How a reply moves an upload on, at the time `now`. A reply that does not belong
/// to what the upload has asked for leaves it as it is.
pub open spec fn s3_next(v: S3View, reply: Reply, now: Reading) -> S3View {
    match (v.stage, reply) {
        (S3Stage::ProbeKey, Reply::Found(found)) => if !found {
            s3_failed(v, about(Context::MissingKey, v.config.gpg.public_key_file@, Fault::Plain))
        } else {
            match now {
                Ok(ts) => S3View { stage: S3Stage::MarkUpload(ts), ..v },
                Err(cause) => s3_failed(v, bare(Context::MarkUpload, Fault::Clock(cause))),
            }
        },
        (S3Stage::MarkUpload(_), Reply::Written(r)) => match r {
            Ok(()) => S3View { stage: S3Stage::Stream, ..v },
            Err(e) => s3_failed(v, bare(Context::MarkUpload, Fault::Write(e))),
        },
        (S3Stage::Stream, Reply::Ran(r)) => match r {
            Ok(()) => S3View { stage: S3Stage::List, ..v },
            Err(e) => s3_failed(v, bare(Context::Stream, Fault::Command(e))),
        },
        (S3Stage::List, Reply::Captured(r)) => match r {
            Ok(listing) => s3_delete_from(
                S3View { doomed: expired(listing@, v.config.s3.retention_count), ..v },
                0,
                now,
            ),
            Err(e) => s3_failed(v, bare(Context::ListObjects, Fault::Command(e))),
        },
        (S3Stage::Delete(i), Reply::Ran(r)) => match r {
            Ok(()) => s3_delete_from(v, i + 1, now),
            Err(e) => s3_failed(
                v,
                about(
                    Context::DeleteObject,
                    object_uri(v.config.s3.bucket@, v.doomed[i as int]),
                    Fault::Command(e),
                ),
            ),
        },
        (S3Stage::MarkIdle(_), Reply::Written(r)) => match r {
            Ok(()) => S3View { stage: S3Stage::Done, ..v },
            Err(e) => s3_failed(v, bare(Context::MarkIdle, Fault::Write(e))),
        },
        _ => v,
    }
}

impl<'a> S3Upload<'a> {
    #[verifier::type_invariant]
    spec fn type_inv(self) -> bool {
        self@.well_formed()
    }

    /// What the upload is about.
    pub fn stage(&self) -> (r: S3Stage)
        ensures
            r == self@.stage,
            self@.well_formed(),
    {
        proof {
            use_type_invariant(self);
        }
        self.stage
    }

    /// What the upload asks for next.
    pub fn action(&self) -> (r: Action)
        ensures
            r@ == s3_action(self@),
            r.is_fresh(),
    {
        proof {
            use_type_invariant(self);
        }
        let config = self.config;
        let bucket = config.s3.bucket.as_str();
        let env_pairs = aws_env_vars(&config.s3.aws_profile);
        let env_refs = borrowed_vars(&env_pairs);
        match self.stage {
            S3Stage::ProbeKey => Action::ProbeFile { path: config.gpg.public_key_file.clone() },
            S3Stage::MarkUpload(ts) => state_write(
                config.state.state_dir.as_str(),
                State::InProgress(Operation::S3Upload),
                ts,
            ),
            S3Stage::Stream => {
                let dir = snapshots_dir(config.paths.backup_path.as_str());
                let entry = joined(self.name.as_str(), "/");
                let object = joined(self.name.as_str(), OBJECT_SUFFIX);
                let dest = uri_of(bucket, object.as_str());
                let key = config.gpg.public_key_file.as_str();
                let tar: [&str; 5] = ["-cf", "-", "-C", dir.as_str(), entry.as_str()];
                let gpg: [&str; 5] = ["--encrypt", "--recipient-file", key, "--output", "-"];
                let cp: [&str; 4] = ["s3", "cp", "-", dest.as_str()];
                let steps: [(&str, &[&str]); 3] = [("tar", &tar), ("gpg", &gpg), ("aws", &cp)];
                let p = pipe_with_env(&steps, env_refs.as_slice()).unwrap();
                let r = Action::Pipe(p);
                proof {
                    let want = upload_steps(*config, self.name@);
                    let got = crate::backup::action::command_views(p@.steps);
                    assert(arg_texts(tar@) =~= want[0].args);
                    assert(arg_texts(gpg@) =~= want[1].args);
                    assert(arg_texts(cp@) =~= want[2].args);
                    assert(got[0] == p@.steps[0]@);
                    assert(got[1] == p@.steps[1]@);
                    assert(got[2] == p@.steps[2]@);
                    assert(got =~= want);
                }
                r
            },
            S3Stage::List => {
                let prefix = uri_of(bucket, "");
                let args: [&str; 3] = ["s3", "ls", prefix.as_str()];
                let r = Action::Capture(run_with_output_env("aws", &args, env_refs.as_slice()).command);
                proof {
                    reveal_strlit("");
                    assert(""@ =~= seq![]);
                    assert(arg_texts(args@) =~= seq!["s3"@, "ls"@, prefix@]);
                }
                r
            },
            S3Stage::Delete(i) => {
                let uri = uri_of(bucket, self.doomed[i].as_str());
                let args: [&str; 3] = ["s3", "rm", uri.as_str()];
                let r = Action::Run(run_with_env("aws", &args, env_refs.as_slice()).command);
                assert(arg_texts(args@) =~= seq!["s3"@, "rm"@, uri@]);
                r
            },
            S3Stage::MarkIdle(ts) => state_write(config.state.state_dir.as_str(), State::Idle, ts),
            S3Stage::Done => Action::Stop,
        }
    }

    fn fail(&mut self, e: BackupError)
        ensures
            final(self)@ == s3_failed(old(self)@, e@),
    {
        self.stage = S3Stage::Done;
        self.failure = Some(e);
    }

    fn delete_from(&mut self, i: usize, now: Reading)
        ensures
            final(self)@ == s3_delete_from(old(self)@, i as int, now),
    {
        if i < self.doomed.len() {
            self.stage = S3Stage::Delete(i);
        } else {
            match now {
                Ok(ts) => {
                    self.stage = S3Stage::MarkIdle(ts);
                },
                Err(cause) => {
                    self.fail(bare_error(Context::MarkIdle, Fault::Clock(cause)));
                },
            }
        }
    }

    /// Takes note of what came of the last action, at the time `now`.
    pub fn advance(&mut self, reply: Reply, now: Reading)
        ensures
            final(self)@ == s3_next(old(self)@, reply, now),
            final(self)@.well_formed(),
    {
        proof {
            use_type_invariant(&*self);
        }
        match (self.stage, reply) {
            (S3Stage::ProbeKey, Reply::Found(found)) => {
                if !found {
                    let key = self.config.gpg.public_key_file.clone();
                    self.fail(error_about(Context::MissingKey, key, Fault::Plain));
                } else {
                    match now {
                        Ok(ts) => {
                            self.stage = S3Stage::MarkUpload(ts);
                        },
                        Err(cause) => {
                            self.fail(bare_error(Context::MarkUpload, Fault::Clock(cause)));
                        },
                    }
                }
            },
            (S3Stage::MarkUpload(_), Reply::Written(r)) => match r {
                Ok(()) => {
                    self.stage = S3Stage::Stream;
                },
                Err(e) => {
                    self.fail(bare_error(Context::MarkUpload, Fault::Write(e)));
                },
            },
            (S3Stage::Stream, Reply::Ran(r)) => match r {
                Ok(()) => {
                    self.stage = S3Stage::List;
                },
                Err(e) => {
                    self.fail(bare_error(Context::Stream, Fault::Command(e)));
                },
            },
            (S3Stage::List, Reply::Captured(r)) => match r {
                Ok(listing) => {
                    self.doomed = expired_objects(listing.as_str(), self.config.s3.retention_count);
                    self.delete_from(0, now);
                },
                Err(e) => {
                    self.fail(bare_error(Context::ListObjects, Fault::Command(e)));
                },
            },
            (S3Stage::Delete(i), Reply::Ran(r)) => match r {
                Ok(()) => {
                    assert(i < self.doomed.len());
                    self.delete_from(i + 1, now);
                },
                Err(e) => {
                    let uri = uri_of(self.config.s3.bucket.as_str(), self.doomed[i].as_str());
                    self.fail(error_about(Context::DeleteObject, uri, Fault::Command(e)));
                },
            },
            (S3Stage::MarkIdle(_), Reply::Written(r)) => match r {
                Ok(()) => {
                    self.stage = S3Stage::Done;
                },
                Err(e) => {
                    self.fail(bare_error(Context::MarkIdle, Fault::Write(e)));
                },
            },
            _ => {},
        }
        proof {
            use_type_invariant(&*self);
        }
    }

    /// The result of an upload that asks for nothing more.
    pub fn finish(self) -> (r: Result<(), BackupError>)
        requires
            self@.stage == S3Stage::Done,
        ensures
            match self@.failure {
                Some(e) => r matches Err(f) && f@ == e,
                None => r is Ok,
            },
    {
        match self.failure {
            Some(e) => Err(e),
            None => Ok(()),
        }
    }
}

/// Borrows a list of variables.
fn borrowed_vars(vars: &Vec<(String, String)>) -> (r: Vec<(&str, &str)>)
    ensures
        var_texts(r@) == env_texts(vars@),
{
    let mut out: Vec<(&str, &str)> = Vec::new();
    let mut i: usize = 0;
    while i < vars.len()
        invariant
            i <= vars@.len(),
            var_texts(out@) == env_texts(vars@).take(i as int),
        decreases vars@.len() - i,
    {
        let pair = (vars[i].0.as_str(), vars[i].1.as_str());
        assert(var_texts(out@.push(pair)) =~= var_texts(out@).push((pair.0@, pair.1@)));
        out.push(pair);
        assert(env_texts(vars@).take(i + 1) =~= env_texts(vars@).take(i as int).push((pair.0@, pair.1@)));
        i += 1;
    }
    assert(env_texts(vars@).take(i as int) =~= env_texts(vars@));
    out
}

/// Uploads a snapshot to S3 and enforces the retention policy.
///
/// Steps:
/// 1. Validates `snapshot_name` against the expected pattern.
/// 2. Verifies the GPG public key file exists.
/// 3. Writes state `in_progress:s3_upload`.
/// 4. Streams the snapshot via `tar | gpg | aws s3 cp`.
/// 5. Lists current S3 objects, sorts by embedded timestamp, and deletes the
///    oldest objects that exceed `retention_count`.
/// 6. Writes state `idle`.
///
/// The first step is done here; the upload that is returned asks for the others.
pub fn run_s3_upload<'a>(config: &'a Config, snapshot_name: &str) -> (r: Result<S3Upload<'a>, BackupError>)
    ensures
        match r {
            Ok(upload) => is_snapshot_name(snapshot_name@) && upload@ == fresh_upload(*config, snapshot_name@),
            Err(e) => !is_snapshot_name(snapshot_name@) && e@ == about(
                Context::InvalidName,
                snapshot_name@,
                Fault::Plain,
            ),
        },
{
    let name = snapshot_name.to_owned();
    if !is_valid_snapshot_name(snapshot_name) {
        return Err(error_about(Context::InvalidName, name, Fault::Plain));
    }
    let doomed: Vec<String> = Vec::new();
    assert(texts(doomed@) =~= seq![]);
    Ok(S3Upload { config, name, stage: S3Stage::ProbeKey, doomed, failure: None })
}

} // verus!

//! Process queries against the repository and the graph construction
//! built on them: materializing a first-parent range, counting it,
//! and expanding a merge commit into the history it absorbed.

use vstd::prelude::*;

use git_wrapper::Repository;

verus! {

use crate::commit::{
    Commit, Oid, clone_oid, commit_from_record, record_complete, record_fields,
    spec_above_ref, spec_needs_ancestor_query,
};
use crate::error::Error;
use crate::icon::IconClassifier;
use crate::strutil::{
    str_chars, chars_to_string, chars_eq, split_chars, str_to_owned, trim_end, parse_usize,
    spec_trim_end, is_digit, dec_value, str_views, push_usize_decimal, views_of, spec_split,
};

/// The outside repository handle of the `git-wrapper` crate: it knows
/// the repository's directories and prepares commands against them.
#[verifier::external_type_specification]
#[verifier::external_body]
pub struct ExRepository(Repository);

/// Whether a repository handle can prepare commands: both of its
/// directories convert back to text, which `Repository::git` demands
/// on every use. Handles from `open_repository` have it.
pub uninterp spec fn repo_usable(repo: &Repository) -> bool;

/// Relies on `git_wrapper::Repository::from_args`: an absolute text
/// path is stored verbatim, never canonicalized, so both directories
/// of the handle convert back to text and `Repository::git` cannot
/// panic on them. Relative paths are refused here for that reason.
#[verifier::external_body]
pub fn open_repository(git_dir: &str, work_tree: &str) -> (r: Option<Repository>)
    ensures
        r matches Some(repo) ==> repo_usable(&repo),
{
    if !std::path::Path::new(git_dir).is_absolute() || !std::path::Path::new(
        work_tree,
    ).is_absolute() {
        return None;
    }
    Repository::from_args(None, Some(git_dir), Some(work_tree)).ok()
}

/// Relies on `git_wrapper::Repository::git`: runs the git command
/// with the given arguments against the repository and captures what
/// it wrote. Success carries the standard output; failure carries the
/// exit code, `-1` where the process could not run at all, and a
/// message. What comes back depends on the repository's state.
#[verifier::external_body]
fn run_git(repo: &Repository, args: &Vec<String>) -> (r: Result<String, (i32, String)>)
    requires
        repo_usable(repo),
{
    match repo.git().args(args).output() {
        Ok(out) => {
            if out.status.success() {
                Ok(String::from_utf8_lossy(&out.stdout).into_owned())
            } else {
                let code = out.status.code().unwrap_or(-1);
                Err((code, String::from_utf8_lossy(&out.stderr).into_owned()))
            }
        },
        Err(e) => Err((-1, e.to_string())),
    }
}

/// The record format the log queries ask for: fourteen fields behind
/// a unit separator each, records closed by a record separator.
fn rev_format() -> (r: &'static str) {
    "--format=%x1f%H%x1f%h%x1f%P%x1f%D%x1f%aN%x1f%aE%x1f%aI%x1f%ar%x1f%cN%x1f%cE%x1f%cI%x1f%cr%x1f%s%x1f%b%x1e"
}

/// Classifies an ancestor query's outcome: success means yes, the
/// query's own exit code 1 means no, and any other failure keeps its
/// code and message as a process error.
pub fn ancestor_check_outcome(outcome: Result<String, (i32, String)>) -> (r: Result<bool, Error>)
    ensures
        match outcome {
            Ok(_) => r matches Ok(b) && b,
            Err(p) => if p.0 == 1 {
                r matches Ok(b) && !b
            } else {
                r matches Err(e) && (e matches Error::Process { code, message } && code == p.0
                    && message@ == p.1@)
            },
        },
{
    match outcome {
        Ok(_) => Ok(true),
        Err((code, message)) => {
            if code == 1 {
                Ok(false)
            } else {
                Err(Error::Process { code, message })
            }
        },
    }
}

/// Whether `first` is an ancestor of `second`, by one merge-base
/// query. The query's outcome is classified exactly by
/// `ancestor_check_outcome`; which outcome comes back depends on the
/// repository's state.
pub fn is_ancestor(repo: &Repository, first: &str, second: &str) -> (r: Result<bool, Error>)
    requires
        repo_usable(repo),
    ensures
        r matches Err(e) ==> e matches Error::Process { .. },
{
    let mut args: Vec<String> = Vec::new();
    args.push(str_to_owned("merge-base"));
    args.push(str_to_owned("--is-ancestor"));
    args.push(str_to_owned(first));
    args.push(str_to_owned(second));
    ancestor_check_outcome(run_git(repo, &args))
}

/// Classifies a merge-base query's outcome: a printed hash, trailing
/// whitespace trimmed, is the common ancestor; empty output or the
/// query's own exit code 1 is the non-error "none"; any other failure
/// keeps its code and message as a process error.
pub fn merge_base_outcome(outcome: Result<String, (i32, String)>) -> (r: Result<
    Option<Oid>,
    Error,
>)
    ensures
        match outcome {
            Ok(out) => {
                let t = spec_trim_end(out@);
                if t.len() == 0 {
                    r matches Ok(b) && b is None
                } else {
                    r matches Ok(b) && (b matches Some(o) && o.0@ == t)
                }
            },
            Err(p) => if p.0 == 1 {
                r matches Ok(b) && b is None
            } else {
                r matches Err(e) && (e matches Error::Process { code, message } && code == p.0
                    && message@ == p.1@)
            },
        },
{
    match outcome {
        Ok(out) => {
            let trimmed = trim_end(&str_chars(out.as_str()));
            if trimmed.len() == 0 {
                Ok(None)
            } else {
                Ok(Some(Oid(chars_to_string(&trimmed))))
            }
        },
        Err((code, message)) => {
            if code == 1 {
                Ok(None)
            } else {
                Err(Error::Process { code, message })
            }
        },
    }
}

/// The nearest common ancestor of two commits, or nothing where the
/// histories are unrelated. The query's outcome is classified exactly
/// by `merge_base_outcome`; which outcome comes back depends on the
/// repository's state.
pub fn merge_base(repo: &Repository, first: &Oid, second: &Oid) -> (r: Result<Option<Oid>, Error>)
    requires
        repo_usable(repo),
    ensures
        r matches Err(e) ==> e matches Error::Process { .. },
{
    let mut args: Vec<String> = Vec::new();
    args.push(str_to_owned("merge-base"));
    args.push(str_to_owned(first.0.as_str()));
    args.push(str_to_owned(second.0.as_str()));
    merge_base_outcome(run_git(repo, &args))
}

/// The revision expression a merge expansion queries: the merged
/// branch's tip alone where no merge base exists or the base is that
/// tip itself, else the range from the base (exclusive) to the tip.
pub fn expansion_range(first_child: &Oid, base: &Option<Oid>) -> (r: String)
    ensures
        match base {
            None => r@ == first_child.0@,
            Some(b) => if b.0@ == first_child.0@ {
                r@ == first_child.0@
            } else {
                r@ == b.0@ + seq!['.', '.'] + first_child.0@
            },
        },
{
    match base {
        None => str_to_owned(first_child.0.as_str()),
        Some(b) => {
            if b.0 == first_child.0 {
                str_to_owned(first_child.0.as_str())
            } else {
                let mut r = str_to_owned(b.0.as_str());
                crate::strutil::push_char(&mut r, '.');
                crate::strutil::push_char(&mut r, '.');
                let r2 = r.concat(first_child.0.as_str());
                proof {
                    assert(r2@ =~= b.0@ + seq!['.', '.'] + first_child.0@);
                }
                r2
            }
        },
    }
}

/// Maps a failed count query to the library's error: exit code 128
/// is the distinguished "no revisions match" outcome, anything else a
/// process failure.
pub fn count_query_error(code: i32, message: String) -> (r: Error)
    ensures
        code == 128 ==> r matches Error::NoRevisionsMatch,
        code != 128 ==> (r matches Error::Process { code: c, message: m } && c == code && m@
            == message@),
{
    if code == 128 {
        Error::NoRevisionsMatch
    } else {
        Error::Process { code, message }
    }
}

/// Parses the decimal count a successful query printed, trailing
/// whitespace ignored. Output that is not a count that fits the
/// machine word is a parse error.
pub fn parse_count(out: &str) -> (r: Result<usize, Error>)
    ensures
        r is Ok <==> {
            let t = spec_trim_end(out@);
            &&& t.len() >= 1
            &&& forall|k: int| 0 <= k < t.len() ==> is_digit(#[trigger] t[k])
            &&& dec_value(t) <= usize::MAX
        },
        r matches Ok(n) ==> n == dec_value(spec_trim_end(out@)),
        r matches Err(e) ==> e matches Error::Parse,
{
    let trimmed = trim_end(&str_chars(out));
    match parse_usize(&trimmed) {
        Some(n) => Ok(n),
        None => Err(Error::Parse),
    }
}

/// The number of commits on the first-parent chain of the range,
/// scoped to `paths` where any are given.
///
/// A range matching no revisions is the distinguished empty-result
/// outcome, not a process crash; any other failure keeps its exit
/// code and message.
pub fn history_length(repo: &Repository, rev_range: &str, paths: &Vec<String>) -> (r: Result<
    usize,
    Error,
>)
    requires
        repo_usable(repo),
    ensures
        r matches Err(e) ==> (e matches Error::NoRevisionsMatch || e matches Error::Process { .. }
            || e matches Error::Parse),
{
    let mut args: Vec<String> = Vec::new();
    args.push(str_to_owned("rev-list"));
    args.push(str_to_owned("--first-parent"));
    args.push(str_to_owned("--count"));
    args.push(str_to_owned(rev_range));
    if paths.len() > 0 {
        args.push(str_to_owned("--"));
        let mut i: usize = 0;
        while i < paths.len()
            decreases paths@.len() - i,
        {
            args.push(str_to_owned(paths[i].as_str()));
            i += 1;
        }
    }
    match run_git(repo, &args) {
        Ok(out) => parse_count(out.as_str()),
        Err((code, message)) => Err(count_query_error(code, message)),
    }
}

impl Commit {
    /// Parses one raw log record into a commit, resolving the
    /// fork-point rule with an ancestor query where it asks for one.
    /// A record with too few fields is a parse error; a failed
    /// ancestor query surfaces as a process error.
    pub fn new(
        repo: &Repository,
        data: &str,
        level: u8,
        is_commit_link: bool,
        above_commit: Option<&Commit>,
        subtree_modules: &Vec<String>,
        icons: &IconClassifier,
    ) -> (r: Result<Commit, Error>)
        requires
            repo_usable(repo),
        ensures
            !record_complete(data@) ==> r matches Err(Error::Parse),
            (r matches Err(e) && e matches Error::Parse) ==> !record_complete(data@),
            record_complete(data@) && !spec_needs_ancestor_query(
                spec_above_ref(above_commit),
                record_fields(data@)[1],
            ) ==> r is Ok,
            r matches Ok(c) ==> commit_from_record(
                c,
                data@,
                level,
                is_commit_link,
                spec_above_ref(above_commit),
                str_views(subtree_modules@),
                icons.rules_view(),
            ),
            !spec_needs_ancestor_query(spec_above_ref(above_commit), record_fields(data@)[1])
                ==> (r matches Ok(c) ==> c.is_fork_point == false),
            r matches Ok(c) ==> c.is_merge == (c.bellow is Some && c.children@.len() > 0),
            r matches Err(e) ==> (e matches Error::Parse || e matches Error::Process { .. }),
    {
        match crate::commit::parse_record(
            data,
            level,
            is_commit_link,
            above_commit,
            subtree_modules,
            icons,
        ) {
            Err(e) => Err(e),
            Ok((c, None)) => {
                proof {
                    crate::commit::lemma_merge_flag_consistent(
                        c,
                        data@,
                        level,
                        is_commit_link,
                        spec_above_ref(above_commit),
                        str_views(subtree_modules@),
                        icons.rules_view(),
                    );
                }
                Ok(c)
            },
            Ok((mut c, Some((descendant, ancestor)))) => {
                match is_ancestor(repo, descendant.0.as_str(), ancestor.0.as_str()) {
                    Ok(b) => {
                        c.set_fork_point(b);
                        proof {
                            crate::commit::lemma_merge_flag_consistent(
                                c,
                                data@,
                                level,
                                is_commit_link,
                                spec_above_ref(above_commit),
                                str_views(subtree_modules@),
                                icons.rules_view(),
                            );
                        }
                        Ok(c)
                    },
                    Err(e) => Err(e),
                }
            },
        }
    }

    /// Fetches one commit by ref name with a single-record query and
    /// parses it. The record's completeness depends on what the
    /// query prints.
    pub fn new_from_id(
        repo: &Repository,
        git_ref: &str,
        level: u8,
        is_commit_link: bool,
        above_commit: Option<&Commit>,
        subtree_modules: &Vec<String>,
        icons: &IconClassifier,
    ) -> (r: Result<Commit, Error>)
        requires
            repo_usable(repo),
        ensures
            r matches Ok(c) ==> c.level == level && c.is_commit_link == is_commit_link,
            r matches Ok(c) ==> c.is_merge == (c.bellow is Some && c.children@.len() > 0),
            r matches Err(e) ==> (e matches Error::Parse || e matches Error::Process { .. }),
    {
        let mut args: Vec<String> = Vec::new();
        args.push(str_to_owned("rev-list"));
        args.push(str_to_owned(rev_format()));
        args.push(str_to_owned("--max-count=1"));
        args.push(str_to_owned(git_ref));
        match run_git(repo, &args) {
            Err((code, message)) => Err(Error::Process { code, message }),
            Ok(data) => {
                match Commit::new(
                    repo,
                    data.as_str(),
                    level,
                    is_commit_link,
                    above_commit,
                    subtree_modules,
                    icons,
                ) {
                    Err(e) => Err(e),
                    Ok(c) => Ok(c),
                }
            },
        }
    }
}

/// A piece of the split log stream that ends it: empty, or the lone
/// newline the query prints after the last record separator.
pub open spec fn is_terminator_record(rec: Seq<char>) -> bool {
    rec.len() == 0 || rec == seq!['\n']
}

/// The records of a split log stream that are parsed: the longest
/// prefix in which no piece ends the stream.
pub open spec fn taken_records(records: Seq<Seq<char>>) -> Seq<Seq<char>>
    decreases records.len(),
{
    if records.len() == 0 {
        Seq::empty()
    } else if is_terminator_record(records[0]) {
        Seq::empty()
    } else {
        seq![records[0]] + taken_records(records.skip(1))
    }
}

/// The records a log output yields: the separator-split pieces up to
/// the stream's end.
pub open spec fn log_records(output: Seq<char>) -> Seq<Seq<char>> {
    taken_records(spec_split(output, seq!['\u{1e}']))
}

/// The predecessor context the commit at position `i` of a build pass
/// sees: the caller's context for the first, else the commit parsed
/// just before it.
pub open spec fn pass_context(v: Seq<Commit>, above: Option<Commit>, i: int) -> Option<Commit> {
    if i == 0 {
        above
    } else {
        Some(v[i - 1])
    }
}

/// How the commit at position `i` of a build pass relates to its
/// record: parsed from it at the given level, no link, under the
/// chained context; the fork-point flag stays down where the rule
/// asks no ancestor query.
pub open spec fn pass_step(
    v: Seq<Commit>,
    recs: Seq<Seq<char>>,
    level: u8,
    above: Option<Commit>,
    modules: Seq<Seq<char>>,
    icons: Seq<(Seq<char>, Seq<char>)>,
    i: int,
) -> bool {
    &&& commit_from_record(v[i], recs[i], level, false, pass_context(v, above, i), modules, icons)
    &&& (!spec_needs_ancestor_query(pass_context(v, above, i), record_fields(recs[i])[1])
        ==> !v[i].is_fork_point)
}

/// How a whole build pass relates to the log output it parsed: one
/// commit per record, in order, each related to its record by
/// `pass_step`.
pub open spec fn parsed_log(
    v: Seq<Commit>,
    output: Seq<char>,
    level: u8,
    above: Option<Commit>,
    modules: Seq<Seq<char>>,
    icons: Seq<(Seq<char>, Seq<char>)>,
) -> bool {
    &&& v.len() == log_records(output).len()
    &&& forall|i: int|
        0 <= i < v.len() ==> #[trigger] pass_step(
            v,
            log_records(output),
            level,
            above,
            modules,
            icons,
            i,
        )
}

/// The taken records are exactly the pieces before the first
/// stream-ending one.
proof fn lemma_taken_records_take(records: Seq<Seq<char>>, n: int)
    requires
        0 <= n <= records.len(),
        forall|k: int| 0 <= k < n ==> !is_terminator_record(#[trigger] records[k]),
        n == records.len() || is_terminator_record(records[n]),
    ensures
        taken_records(records) == records.take(n),
    decreases n,
{
    if n == 0 {
        assert(records.take(0) =~= Seq::<Seq<char>>::empty());
    } else {
        assert(!is_terminator_record(records[0]));
        assert(forall|k: int|
            0 <= k < n - 1 ==> !is_terminator_record(#[trigger] records.skip(1)[k]));
        lemma_taken_records_take(records.skip(1), n - 1);
        assert(seq![records[0]] + records.skip(1).take(n - 1) =~= records.take(n));
    }
}

/// A position before any stream-ending piece stands among the taken
/// records unchanged.
proof fn lemma_taken_records_at(records: Seq<Seq<char>>, j: int)
    requires
        0 <= j < records.len(),
        forall|k: int| 0 <= k <= j ==> !is_terminator_record(#[trigger] records[k]),
    ensures
        taken_records(records).len() > j,
        taken_records(records)[j] == records[j],
    decreases j,
{
    if j == 0 {
    } else {
        assert(forall|k: int|
            0 <= k <= j - 1 ==> !is_terminator_record(#[trigger] records.skip(1)[k]));
        lemma_taken_records_at(records.skip(1), j - 1);
    }
}

/// From `parsed_log`, the per-commit facts graph callers lean on:
/// level, link and fold flags, merge consistency, and the chained
/// predecessor identities.
pub proof fn lemma_pass_properties(
    v: Seq<Commit>,
    output: Seq<char>,
    level: u8,
    above: Option<Commit>,
    modules: Seq<Seq<char>>,
    icons: Seq<(Seq<char>, Seq<char>)>,
)
    requires
        parsed_log(v, output, level, above, modules, icons),
    ensures
        forall|i: int|
            0 <= i < v.len() ==> (#[trigger] v[i]).level == level && v[i].is_commit_link == false
                && v[i].folded == true,
        forall|i: int|
            0 <= i < v.len() ==> (#[trigger] v[i]).is_merge == (v[i].bellow is Some
                && v[i].children@.len() > 0),
        v.len() >= 1 ==> (match (v[0].above, above) {
            (None, None) => true,
            (Some(o), Some(p)) => o.0@ == p.id.0@,
            _ => false,
        }),
        forall|i: int|
            1 <= i < v.len() ==> ((#[trigger] v[i]).above matches Some(o) && o.0@ == v[i
                - 1].id.0@),
{
    assert forall|i: int|
        0 <= i < v.len() implies (#[trigger] v[i]).level == level && v[i].is_commit_link == false
        && v[i].folded == true && v[i].is_merge == (v[i].bellow is Some && v[i].children@.len()
        > 0) by {
        assert(pass_step(v, log_records(output), level, above, modules, icons, i));
        crate::commit::lemma_merge_flag_consistent(
            v[i],
            log_records(output)[i],
            level,
            false,
            pass_context(v, above, i),
            modules,
            icons,
        );
    }
    if v.len() >= 1 {
        assert(pass_step(v, log_records(output), level, above, modules, icons, 0));
    }
    assert forall|i: int|
        1 <= i < v.len() implies ((#[trigger] v[i]).above matches Some(o) && o.0@ == v[i
        - 1].id.0@) by {
        assert(pass_step(v, log_records(output), level, above, modules, icons, i));
    }
}

/// Parses the text a first-parent log query printed: splits it on the
/// record separator and parses the records in order, stopping at the
/// stream's end, threading each parsed commit as the context of the
/// next. For every output text the result is fixed record for record;
/// only the ancestor checks the fork-point rule asks for reach
/// outside, and only the fork-point flags depend on their answers.
pub fn parse_log_output(
    repo: &Repository,
    output: &str,
    level: u8,
    above_commit: Option<&Commit>,
    subtree_modules: &Vec<String>,
    icons: &IconClassifier,
) -> (r: Result<Vec<Commit>, Error>)
    requires
        repo_usable(repo),
    ensures
        r matches Ok(v) ==> parsed_log(
            v@,
            output@,
            level,
            spec_above_ref(above_commit),
            str_views(subtree_modules@),
            icons.rules_view(),
        ),
        r matches Err(e) ==> (e matches Error::Parse || e matches Error::Process { .. }),
        (r matches Err(e) && e matches Error::Parse) ==> exists|i: int|
            0 <= i < log_records(output@).len() && !record_complete(
                #[trigger] log_records(output@)[i],
            ),
{
    let ghost above0 = spec_above_ref(above_commit);
    let ghost modules0 = str_views(subtree_modules@);
    let ghost icons0 = icons.rules_view();
    let record_sep: Vec<char> = vec!['\u{1e}'];
    let newline: Vec<char> = vec!['\n'];
    proof {
        assert(record_sep@ =~= seq!['\u{1e}']);
        assert(newline@ =~= seq!['\n']);
    }
    let records = split_chars(&str_chars(output), &record_sep);
    let ghost rv = views_of(records@);
    let mut result: Vec<Commit> = Vec::new();
    let mut ri: usize = 0;
    loop
        invariant
            repo_usable(repo),
            ri <= records@.len(),
            rv == views_of(records@),
            rv == spec_split(output@, seq!['\u{1e}']),
            newline@ == seq!['\n'],
            above0 == spec_above_ref(above_commit),
            modules0 == str_views(subtree_modules@),
            icons0 == icons.rules_view(),
            result@.len() == ri,
            forall|k: int| 0 <= k < ri ==> !is_terminator_record(#[trigger] rv[k]),
            forall|i: int|
                0 <= i < ri ==> #[trigger] pass_step(result@, rv, level, above0, modules0, icons0, i),
        ensures
            result@.len() == ri <= rv.len(),
            forall|k: int| 0 <= k < ri ==> !is_terminator_record(#[trigger] rv[k]),
            ri == rv.len() || is_terminator_record(rv[ri as int]),
            forall|i: int|
                0 <= i < ri ==> #[trigger] pass_step(result@, rv, level, above0, modules0, icons0, i),
        decreases records@.len() - ri,
    {
        if ri >= records.len() {
            break ;
        }
        let rec = &records[ri];
        if rec.len() == 0 || chars_eq(rec, &newline) {
            proof {
                assert(rv[ri as int] == rec@);
            }
            break ;
        }
        proof {
            assert(rv[ri as int] == rec@);
            assert(!is_terminator_record(rv[ri as int]));
        }
        let data = chars_to_string(rec);
        let parsed = if result.len() == 0 {
            Commit::new(repo, data.as_str(), level, false, above_commit, subtree_modules, icons)
        } else {
            let last = result.len() - 1;
            Commit::new(
                repo,
                data.as_str(),
                level,
                false,
                Some(&result[last]),
                subtree_modules,
                icons,
            )
        };
        let ghost before = result@;
        match parsed {
            Err(e) => {
                proof {
                    match e {
                        Error::Parse => {
                            lemma_taken_records_at(rv, ri as int);
                            assert(log_records(output@)[ri as int] == rv[ri as int]);
                            assert(!record_complete(log_records(output@)[ri as int]));
                        },
                        _ => {},
                    }
                }
                return Err(e);
            },
            Ok(c) => {
                result.push(c);
                proof {
                    assert forall|i: int|
                        0 <= i < ri + 1 implies #[trigger] pass_step(
                        result@,
                        rv,
                        level,
                        above0,
                        modules0,
                        icons0,
                        i,
                    ) by {
                        if i < ri {
                            assert(pass_step(before, rv, level, above0, modules0, icons0, i));
                            assert(result@[i] == before[i]);
                            if i > 0 {
                                assert(result@[i - 1] == before[i - 1]);
                            }
                        } else {
                            assert(result@[i] == c);
                            if i > 0 {
                                assert(result@[i - 1] == before[i - 1]);
                            }
                        }
                    }
                }
                ri += 1;
            },
        }
    }
    proof {
        lemma_taken_records_take(rv, ri as int);
        assert(log_records(output@) == rv.take(ri as int));
        assert forall|i: int|
            0 <= i < result@.len() implies #[trigger] pass_step(
            result@,
            log_records(output@),
            level,
            above0,
            modules0,
            icons0,
            i,
        ) by {
            assert(pass_step(result@, rv, level, above0, modules0, icons0, i));
            assert(rv.take(ri as int)[i] == rv[i]);
        }
    }
    Ok(result)
}

/// The commits of a first-parent log query over `rev_range`, newest
/// first, scoped to `paths` and bounded by `skip` and `max` where
/// given. The query's text is handed to `parse_log_output`, which
/// fixes the result record for record; whatever the query printed,
/// every returned commit carries the requested level, is no link, and
/// points back at its predecessor.
pub fn commits_for_range(
    repo: &Repository,
    rev_range: &str,
    level: u8,
    above_commit: Option<&Commit>,
    subtree_modules: &Vec<String>,
    icons: &IconClassifier,
    paths: &Vec<String>,
    skip: Option<usize>,
    max: Option<usize>,
) -> (r: Result<Vec<Commit>, Error>)
    requires
        repo_usable(repo),
    ensures
        r matches Ok(v) ==> forall|i: int|
            0 <= i < v@.len() ==> (#[trigger] v@[i]).level == level && v@[i].is_commit_link
                == false && v@[i].folded == true,
        r matches Ok(v) ==> forall|i: int|
            0 <= i < v@.len() ==> (#[trigger] v@[i]).is_merge == (v@[i].bellow is Some
                && v@[i].children@.len() > 0),
        r matches Ok(v) ==> (v@.len() >= 1 ==> match (v@[0].above, above_commit) {
            (None, None) => true,
            (Some(o), Some(p)) => o.0@ == p.id.0@,
            _ => false,
        }),
        r matches Ok(v) ==> forall|i: int|
            1 <= i < v@.len() ==> ((#[trigger] v@[i]).above matches Some(o) && o.0@ == v@[i
                - 1].id.0@),
        r matches Err(e) ==> (e matches Error::Process { .. } || e matches Error::Parse),
{
    let mut args: Vec<String> = Vec::new();
    args.push(str_to_owned("rev-list"));
    args.push(str_to_owned("--first-parent"));
    args.push(str_to_owned(rev_format()));
    match skip {
        Some(val) => {
            let mut s = str_to_owned("--skip=");
            push_usize_decimal(&mut s, val);
            args.push(s);
        },
        None => {},
    }
    match max {
        Some(val) => {
            let mut s = str_to_owned("--max-count=");
            push_usize_decimal(&mut s, val);
            args.push(s);
        },
        None => {},
    }
    args.push(str_to_owned(rev_range));
    if paths.len() > 0 {
        args.push(str_to_owned("--"));
        let mut i: usize = 0;
        while i < paths.len()
            decreases paths@.len() - i,
        {
            args.push(str_to_owned(paths[i].as_str()));
            i += 1;
        }
    }
    match run_git(repo, &args) {
        Err((code, message)) => Err(Error::Process { code, message }),
        Ok(out) => {
            let r = parse_log_output(repo, out.as_str(), level, above_commit, subtree_modules, icons);
            proof {
                match r {
                    Ok(ref v) => {
                        lemma_pass_properties(
                            v@,
                            out@,
                            level,
                            spec_above_ref(above_commit),
                            str_views(subtree_modules@),
                            icons.rules_view(),
                        );
                    },
                    Err(_) => {},
                }
            }
            r
        },
    }
}

/// Whether a merge expansion must stitch in a continuation link, and
/// to which commit: only where a merge base was found and the
/// expanded history's last commit continues at a commit other than
/// the merge's own mainline ancestor. This is the whole stitching
/// decision of spec and body alike.
pub fn stitch_target(last_bellow: &Option<Oid>, base: &Option<Oid>, mainline: &Oid) -> (r: Option<
    Oid,
>)
    ensures
        match (base, last_bellow) {
            (Some(_), Some(eb)) => if eb.0@ == mainline.0@ {
                r is None
            } else {
                r matches Some(o) && o.0@ == eb.0@
            },
            _ => r is None,
        },
{
    match (base, last_bellow) {
        (Some(_), Some(eb)) => {
            if eb.0 == mainline.0 {
                None
            } else {
                Some(clone_oid(eb))
            }
        },
        _ => None,
    }
}

/// Expands a merge commit into the sub-history of the branch it
/// absorbed: the range from the merge base (exclusive) to the merged
/// branch's tip, one nesting level deeper, with the merge commit as
/// predecessor context. Where `stitch_target` finds the expansion
/// stopped short of the mainline continuation, a synthetic link
/// commit naming the commit to continue at is appended — and only
/// then, so at most the last element is ever a link.
///
/// Only a merge commit may be expanded, and never a synthetic link;
/// a failed sub-query is fatal to the whole expansion, which then
/// returns no partial tree but the typed failure.
pub fn child_history(
    repo: &Repository,
    commit: &Commit,
    subtree_modules: &Vec<String>,
    icons: &IconClassifier,
) -> (r: Result<Vec<Commit>, Error>)
    requires
        repo_usable(repo),
        commit.bellow is Some,
        commit.children@.len() > 0,
        !commit.is_commit_link,
        commit.level < u8::MAX,
    ensures
        r matches Ok(v) ==> forall|i: int|
            0 <= i < v@.len() ==> (#[trigger] v@[i]).level == commit.level + 1,
        r matches Ok(v) ==> forall|i: int|
            0 <= i < v@.len() ==> (#[trigger] v@[i]).is_merge == (v@[i].bellow is Some
                && v@[i].children@.len() > 0),
        r matches Ok(v) ==> forall|i: int| 0 <= i < v@.len() - 1 ==> !(#[trigger] v@[i]).is_commit_link,
        r matches Err(e) ==> (e matches Error::Process { .. } || e matches Error::Parse),
{
    let bellow = match &commit.bellow {
        Some(b) => b,
        None => {
            return Err(Error::Parse);  // unreachable: a merge has a primary ancestor
        },
    };
    let first_child = &commit.children[0];
    let base = match merge_base(repo, bellow, first_child) {
        Ok(b) => b,
        Err(e) => {
            return Err(e);
        },
    };
    let revision = expansion_range(first_child, &base);
    let level = commit.level + 1;
    let empty_paths: Vec<String> = Vec::new();
    let mut result = match commits_for_range(
        repo,
        revision.as_str(),
        level,
        Some(commit),
        subtree_modules,
        icons,
        &empty_paths,
        None,
        None,
    ) {
        Ok(v) => v,
        Err(e) => {
            return Err(e);
        },
    };
    if result.len() == 0 {
        return Ok(result);
    }
    let link_target: Option<Oid> = {
        let end = &result[result.len() - 1];
        stitch_target(&end.bellow, &base, bellow)
    };
    match link_target {
        None => Ok(result),
        Some(target) => {
            let last = result.len() - 1;
            let link = match to_commit(
                repo,
                &target,
                level,
                true,
                Some(&result[last]),
                subtree_modules,
                icons,
            ) {
                Ok(c) => c,
                Err(e) => {
                    return Err(e);
                },
            };
            result.push(link);
            Ok(result)
        },
    }
}

/// Parses the output of a single-record fetch: the record stands on
/// the second line of what the query prints; fewer than two lines are
/// a parse error. For every output text the result is fixed by the
/// record parser on that line.
pub fn parse_single_commit_output(
    repo: &Repository,
    output: &str,
    level: u8,
    is_commit_link: bool,
    above_commit: Option<&Commit>,
    subtree_modules: &Vec<String>,
    icons: &IconClassifier,
) -> (r: Result<Commit, Error>)
    requires
        repo_usable(repo),
    ensures
        spec_split(output@, seq!['\n']).len() < 2 ==> r matches Err(Error::Parse),
        r matches Ok(c) ==> {
            let lines = spec_split(output@, seq!['\n']);
            &&& lines.len() >= 2
            &&& commit_from_record(
                c,
                lines[1],
                level,
                is_commit_link,
                spec_above_ref(above_commit),
                str_views(subtree_modules@),
                icons.rules_view(),
            )
        },
        r matches Ok(c) ==> c.is_merge == (c.bellow is Some && c.children@.len() > 0),
        r matches Err(e) ==> (e matches Error::Parse || e matches Error::Process { .. }),
{
    let newline: Vec<char> = vec!['\n'];
    proof {
        assert(newline@ =~= seq!['\n']);
    }
    let lines = split_chars(&str_chars(output), &newline);
    if lines.len() < 2 {
        return Err(Error::Parse);
    }
    proof {
        assert(views_of(lines@)[1] == lines@[1]@);
    }
    let data = chars_to_string(&lines[1]);
    Commit::new(repo, data.as_str(), level, is_commit_link, above_commit, subtree_modules, icons)
}

/// Fetches a single commit by identifier; the printed record is
/// parsed by `parse_single_commit_output`, which fixes the result for
/// every output text.

fn to_commit(
    repo: &Repository,
    oid: &Oid,
    level: u8,
    is_commit_link: bool,
    above_commit: Option<&Commit>,
    subtree_modules: &Vec<String>,
    icons: &IconClassifier,
) -> (r: Result<Commit, Error>)
    requires
        repo_usable(repo),
    ensures
        r matches Ok(c) ==> c.level == level && c.is_commit_link == is_commit_link,
        r matches Ok(c) ==> c.is_merge == (c.bellow is Some && c.children@.len() > 0),
        r matches Err(e) ==> (e matches Error::Parse || e matches Error::Process { .. }),
{
    let mut args: Vec<String> = Vec::new();
    args.push(str_to_owned("rev-list"));
    args.push(str_to_owned(rev_format()));
    args.push(str_to_owned("-1"));
    args.push(str_to_owned(oid.0.as_str()));
    match run_git(repo, &args) {
        Ok(out) => parse_single_commit_output(
            repo,
            out.as_str(),
            level,
            is_commit_link,
            above_commit,
            subtree_modules,
            icons,
        ),
        Err((code, message)) => Err(Error::Process { code, message }),
    }
}


} // verus!

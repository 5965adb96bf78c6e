//! Evidence that a model submits before a phase transition, and how the
//! client judges it.
use vstd::prelude::*;
use crate::text::{
    append_str, append_string, chars_of, contains_exec, contains_sub, count_char, count_char_exec,
    decimal_int, find_char, find_from, lemma_find_from_bounds, lemma_find_from_shift, occurs_at,
    occurs_at_exec, push_decimal_i64, seq_eq, starts_with, str_contains, string_from,
    string_of_range, string_eq_str, sub_vec, trim, trim_bounds,
};

verus! {

/// An evidence claim as the model submits it.
#[derive(Debug, Clone)]
pub enum EvidenceClaim {
    FileDiscovery { paths: Vec<String> },
    TestResult { command: String, exit_code: i32, stdout_tail: Option<String> },
    GitDiff { changed_files: Vec<String> },
    PlanArtifact { path: String },
    ExplicitSkip { reason: String },
}

/// Per-file statistics from `git diff --stat`.
#[derive(Debug, Clone, PartialEq, Eq)]
pub struct FileStat {
    pub path: String,
    pub insertions: u32,
    pub deletions: u32,
}

impl View for FileStat {
    type V = (Seq<char>, u32, u32);

    open spec fn view(&self) -> (Seq<char>, u32, u32) {
        (self.path@, self.insertions, self.deletions)
    }
}

/// Aggregated stats from a `git diff --stat` run.
#[derive(Debug, Clone, PartialEq, Eq)]
pub struct GitDiffStats {
    pub files: Vec<FileStat>,
}

/// The views of a sequence of file stats.
pub open spec fn stat_views(v: Seq<FileStat>) -> Seq<(Seq<char>, u32, u32)> {
    v.map_values(|f: FileStat| f@)
}

// ───────────────────────── parsing `git diff --stat` ─────────────────────────

/// A line as `str::lines` yields it: one trailing `\n` and then one
/// trailing `\r` removed.
pub open spec fn strip_line_end(s: Seq<char>) -> Seq<char> {
    let a = if s.len() > 0 && s.last() == '\n' { s.drop_last() } else { s };
    if a.len() > 0 && a.last() == '\r' { a.drop_last() } else { a }
}

/// The lines of `s` (`str::lines`): the pieces after each `\n`, with line
/// endings removed and no empty piece after a final `\n`.
pub open spec fn spec_lines(s: Seq<char>) -> Seq<Seq<char>>
    decreases s.len(),
{
    if s.len() == 0 {
        seq![]
    } else {
        let i = find_from(s, 0, '\n');
        if i >= s.len() {
            seq![strip_line_end(s)]
        } else {
            proof {
                lemma_find_from_bounds(s, 0, '\n');
            }
            seq![strip_line_end(s.subrange(0, i + 1))] + spec_lines(s.subrange(i + 1, s.len() as int))
        }
    }
}

/// The file stat one line of `git diff --stat` output describes, if any:
/// the summary line (holding "changed") and lines without `|` or without
/// a path describe none; a binary line (`Bin ...`) counts nothing; any
/// other counts its `+` and `-` characters.
pub open spec fn spec_stat_of_line(line: Seq<char>) -> Option<(Seq<char>, u32, u32)> {
    let t = trim(line);
    if contains_sub(t, "changed"@) {
        None
    } else {
        let p = find_from(t, 0, '|');
        if p >= t.len() {
            None
        } else {
            let path = trim(t.subrange(0, p));
            let after = trim(t.subrange(p + 1, t.len() as int));
            if path.len() == 0 {
                None
            } else if starts_with(after, "Bin"@) {
                Some((path, 0u32, 0u32))
            } else {
                Some((path, count_char(after, '+') as u32, count_char(after, '-') as u32))
            }
        }
    }
}

/// The file stats of a sequence of lines, in order.
pub open spec fn spec_stats_of_lines(ls: Seq<Seq<char>>) -> Seq<(Seq<char>, u32, u32)>
    decreases ls.len(),
{
    if ls.len() == 0 {
        seq![]
    } else {
        let rest = spec_stats_of_lines(ls.drop_first());
        match spec_stat_of_line(ls[0]) {
            Some(x) => seq![x] + rest,
            None => rest,
        }
    }
}

/// The file stats of a `git diff --stat` output.
pub open spec fn spec_parse_git_diff_stat(output: Seq<char>) -> Seq<(Seq<char>, u32, u32)> {
    spec_stats_of_lines(spec_lines(output))
}

/// The stat of the line `v[lo..hi]`.
fn stat_of_line(v: &Vec<char>, lo: usize, hi: usize) -> (r: Option<FileStat>)
    requires
        lo <= hi <= v.len(),
    ensures
        match spec_stat_of_line(v@.subrange(lo as int, hi as int)) {
            Some(x) => r matches Some(f) && f@ == x,
            None => r is None,
        },
{
    let (a, b) = trim_bounds(v, lo, hi);
    let t = sub_vec(v, a, b);
    let changed = chars_of("changed");
    if contains_exec(&t, &changed) {
        return None;
    }
    let p = find_char(&t, 0, '|');
    if p >= t.len() {
        return None;
    }
    let (pa, pb) = trim_bounds(&t, 0, p);
    let (qa, qb) = trim_bounds(&t, p + 1, t.len());
    if pa == pb {
        return None;
    }
    let path = string_of_range(&t, pa, pb);
    let after = sub_vec(&t, qa, qb);
    let bin = chars_of("Bin");
    if occurs_at_exec(&after, &bin, 0) {
        return Some(FileStat { path, insertions: 0, deletions: 0 });
    }
    let plus = count_char_exec(&after, '+');
    let minus = count_char_exec(&after, '-');
    Some(FileStat { path, insertions: plus as u32, deletions: minus as u32 })
}

/// Parses `git diff --stat` output into a list of `FileStat` entries.
///
/// Each file line looks like ` src/main.rs | 15 +++++++++------`; the
/// summary line (it holds "changed") is skipped, binary lines
/// (`Bin 0 -> N bytes`) count no insertions or deletions, and a renamed
/// file's path is taken as git prints it.
pub fn parse_git_diff_stat(output: &str) -> (r: Vec<FileStat>)
    ensures
        stat_views(r@) == spec_parse_git_diff_stat(output@),
{
    let v = chars_of(output);
    let mut result: Vec<FileStat> = Vec::new();
    let mut pos: usize = 0;
    assert(v@.subrange(0, v@.len() as int) =~= v@);
    assert(stat_views(result@) =~= Seq::<(Seq<char>, u32, u32)>::empty());
    while pos < v.len()
        invariant
            pos <= v.len(),
            v@ == output@,
            spec_parse_git_diff_stat(output@) == stat_views(result@) + spec_stats_of_lines(
                spec_lines(v@.subrange(pos as int, v@.len() as int)),
            ),
        decreases v.len() - pos,
    {
        let e = find_char(&v, pos, '\n');
        let ghost s = v@.subrange(pos as int, v@.len() as int);
        proof {
            lemma_find_from_shift(v@, pos as int, 0, '\n');
            lemma_find_from_bounds(v@, pos as int, '\n');
        }
        let mut hi = e;
        if hi > pos && v[hi - 1] == '\r' {
            hi = hi - 1;
        }
        let next = if e < v.len() { e + 1 } else { v.len() };
        proof {
            let line = if e < v.len() { s.subrange(0, e - pos + 1) } else { s };
            let body = v@.subrange(pos as int, e as int);
            if e < v.len() {
                assert(line.last() == '\n');
                assert(line.drop_last() =~= body);
            } else {
                assert(line =~= body);
                if line.len() > 0 {
                    assert(line.last() == v@[e - 1]);
                }
            }
            if hi < e {
                assert(body.last() == v@[e - 1]);
                assert(body.drop_last() =~= v@.subrange(pos as int, hi as int));
            } else if e > pos {
                assert(body.last() == v@[e - 1]);
            }
            assert(strip_line_end(line) =~= v@.subrange(pos as int, hi as int));
            if e < v.len() {
                assert(s.subrange(e - pos + 1, s.len() as int) =~= v@.subrange(next as int, v@.len() as int));
                assert(spec_lines(s) == seq![strip_line_end(line)] + spec_lines(v@.subrange(next as int, v@.len() as int)));
            } else {
                assert(v@.subrange(next as int, v@.len() as int) =~= Seq::<char>::empty());
                assert(spec_lines(s) == seq![strip_line_end(line)]);
                assert(spec_lines(v@.subrange(next as int, v@.len() as int)) == Seq::<Seq<char>>::empty());
            }
            let ls = spec_lines(s);
            assert(ls.drop_first() == spec_lines(v@.subrange(next as int, v@.len() as int)));
        }
        let st = stat_of_line(&v, pos, hi);
        match st {
            Some(f) => {
                let ghost before = result@;
                result.push(f);
                proof {
                    assert(stat_views(result@) =~= stat_views(before) + seq![f@]);
                }
            },
            None => {},
        }
        pos = next;
    }
    proof {
        assert(v@.subrange(pos as int, v@.len() as int) =~= Seq::<char>::empty());
    }
    result
}

// ───────────────────────── judging a claim ─────────────────────────

/// Result of evidence verification.
#[derive(Debug, Clone, PartialEq, Eq)]
pub enum VerificationResult {
    Verified { method: String, stats: Option<GitDiffStats> },
    RequiresUserAck { method: String, reason: String },
}

/// A verification result as the contracts see it.
pub enum Verdict {
    Verified { method: Seq<char>, stats: Option<Seq<(Seq<char>, u32, u32)>> },
    RequiresUserAck { method: Seq<char>, reason: Seq<char> },
}

impl View for VerificationResult {
    type V = Verdict;

    open spec fn view(&self) -> Verdict {
        match self {
            VerificationResult::Verified { method, stats } => Verdict::Verified {
                method: method@,
                stats: match stats {
                    Some(g) => Some(stat_views(g.files@)),
                    None => None,
                },
            },
            VerificationResult::RequiresUserAck { method, reason } => Verdict::RequiresUserAck {
                method: method@,
                reason: reason@,
            },
        }
    }
}

/// Client-verified evidence, as stored after validation.
#[derive(Debug, Clone)]
pub struct VerifiedEvidence {
    pub claim: EvidenceClaim,
    pub verified_at: String,
    pub result: VerificationResult,
}

/// What the filesystem and git showed about a claim's paths, gathered
/// before the claim is judged.
#[derive(Debug)]
pub struct ClaimObservations {
    /// For each path the claim names (the discovered paths, the changed
    /// files, or the plan path), in order: whether it exists.
    pub exists: Vec<bool>,
    /// Output of `git diff --stat HEAD`, or of `git diff --stat` when that
    /// was empty; empty when git failed or was not asked.
    pub diff_stat: String,
    /// The plan file's content, or the reason it could not be read.
    pub plan: Result<String, String>,
}

/// The `k`-th path of the claim was seen to exist.
pub open spec fn observed_exists(obs: ClaimObservations, k: int) -> bool {
    0 <= k < obs.exists@.len() && obs.exists@[k]
}

/// Index of the first of `n` paths, at or after `k`, that was not seen.
pub open spec fn first_unseen_from(obs: ClaimObservations, n: int, k: int) -> Option<int>
    decreases n - k,
{
    if k >= n || k < 0 {
        None
    } else if !observed_exists(obs, k) {
        Some(k)
    } else {
        first_unseen_from(obs, n, k + 1)
    }
}

/// `s` with every leading `./` removed (`trim_start_matches("./")`).
pub open spec fn strip_dot_slash(s: Seq<char>) -> Seq<char>
    decreases s.len(),
{
    if s.len() >= 2 && s[0] == '.' && s[1] == '/' {
        strip_dot_slash(s.subrange(2, s.len() as int))
    } else {
        s
    }
}

/// `s` ends with `p`.
pub open spec fn ends_with(s: Seq<char>, p: Seq<char>) -> bool {
    p.len() <= s.len() && s.subrange(s.len() - p.len(), s.len() as int) == p
}

/// A stat path and a claimed path name the same file: equal, or one ends
/// with the other.
pub open spec fn names_same_file(stat_path: Seq<char>, claimed: Seq<char>) -> bool {
    stat_path == claimed || ends_with(claimed, stat_path) || ends_with(stat_path, claimed)
}

/// The claimed changed file appears among the stats.
pub open spec fn listed_in_stats(stats: Seq<(Seq<char>, u32, u32)>, claimed: Seq<char>) -> bool {
    exists|i: int| 0 <= i < stats.len() && names_same_file(#[trigger] stats[i].0, strip_dot_slash(claimed))
}

/// Index of the first claimed file, at or after `k`, that the stats do not list.
pub open spec fn first_unlisted_from(
    files: Seq<String>,
    stats: Seq<(Seq<char>, u32, u32)>,
    k: int,
) -> Option<int>
    decreases files.len() - k,
{
    if k >= files.len() || k < 0 {
        None
    } else if !listed_in_stats(stats, files[k]@) {
        Some(k)
    } else {
        first_unlisted_from(files, stats, k + 1)
    }
}

/// The audit log holds `command` with exit code `code`.
pub open spec fn audit_has(audit: Seq<(String, i32)>, command: Seq<char>, code: i32) -> bool {
    exists|i: int| 0 <= i < audit.len() && (#[trigger] audit[i]).0@ == command && audit[i].1 == code
}

/// The message for a test result whose command is not in the audit log.
pub open spec fn msg_not_in_audit(command: Seq<char>, code: i32) -> Seq<char> {
    "TestResult command '"@ + command + "' (exit_code="@ + decimal_int(code as int)
        + ") not found in shell audit log. The command must have been executed via exec_shell in this session with the exact same command string."@
}

/// How a claim is judged, given the shell audit log and what was observed.
pub open spec fn spec_judge_claim(
    claim: EvidenceClaim,
    audit: Seq<(String, i32)>,
    obs: ClaimObservations,
) -> Result<Verdict, Seq<char>> {
    match claim {
        EvidenceClaim::FileDiscovery { paths } => if paths@.len() == 0 {
            Err("FileDiscovery evidence must contain at least one path"@)
        } else {
            match first_unseen_from(obs, paths@.len() as int, 0) {
                Some(k) => Err("File not found: "@ + paths@[k]@),
                None => Ok(Verdict::Verified { method: "fs_exists"@, stats: None }),
            }
        },
        EvidenceClaim::TestResult { command, exit_code, stdout_tail } => if command@.len() == 0 {
            Err("TestResult must specify command"@)
        } else if exit_code != 0 {
            Err("TestResult exit_code "@ + decimal_int(exit_code as int) + " indicates failure"@)
        } else if !audit_has(audit, command@, exit_code) {
            Err(msg_not_in_audit(command@, exit_code))
        } else {
            Ok(Verdict::Verified { method: "exec_audit_match"@, stats: None })
        },
        EvidenceClaim::GitDiff { changed_files } => if changed_files@.len() == 0 {
            Err("GitDiff must list at least one changed file"@)
        } else {
            let stats = spec_parse_git_diff_stat(obs.diff_stat@);
            if stats.len() > 0 {
                match first_unlisted_from(changed_files@, stats, 0) {
                    Some(k) => Err("Claimed changed file '"@ + changed_files@[k]@
                        + "' not found in git diff --stat output"@),
                    None => Ok(Verdict::Verified { method: "git_diff_stat"@, stats: Some(stats) }),
                }
            } else {
                match first_unseen_from(obs, changed_files@.len() as int, 0) {
                    Some(k) => Err("Changed file not found: "@ + changed_files@[k]@),
                    None => Ok(Verdict::Verified { method: "git_diff_stat"@, stats: None }),
                }
            }
        },
        EvidenceClaim::PlanArtifact { path } => if !observed_exists(obs, 0) {
            Err("Plan artifact not found: "@ + path@)
        } else {
            match obs.plan {
                Err(e) => Err("Cannot read plan: "@ + e@),
                Ok(content) => if !contains_sub(content@, "- [ ]"@) && !contains_sub(content@, "- [x]"@) {
                    Err("Plan artifact must contain checkbox task markers (- [ ])"@)
                } else {
                    Ok(Verdict::Verified { method: "plan_validated"@, stats: None })
                },
            }
        },
        EvidenceClaim::ExplicitSkip { reason } => if reason@.len() == 0 {
            Err("ExplicitSkip must provide a reason"@)
        } else {
            Ok(Verdict::RequiresUserAck { method: "explicit_skip"@, reason: reason@ })
        },
    }
}

fn first_unseen(obs: &ClaimObservations, n: usize) -> (r: Option<usize>)
    ensures
        match r {
            Some(k) => k < n && first_unseen_from(*obs, n as int, 0) == Some(k as int),
            None => first_unseen_from(*obs, n as int, 0) is None,
        },
{
    let mut k: usize = 0;
    while k < n
        invariant
            k <= n,
            first_unseen_from(*obs, n as int, 0) == first_unseen_from(*obs, n as int, k as int),
        decreases n - k,
    {
        let seen = k < obs.exists.len() && obs.exists[k];
        if !seen {
            return Some(k);
        }
        k += 1;
    }
    None
}

fn strip_dot_slash_exec(v: &Vec<char>) -> (r: Vec<char>)
    ensures
        r@ == strip_dot_slash(v@),
{
    let mut k: usize = 0;
    assert(v@.subrange(0, v@.len() as int) =~= v@);
    while k < v.len() && v.len() - k >= 2 && v[k] == '.' && v[k + 1] == '/'
        invariant
            k <= v.len(),
            strip_dot_slash(v@) == strip_dot_slash(v@.subrange(k as int, v@.len() as int)),
        decreases v.len() - k,
    {
        proof {
            let t = v@.subrange(k as int, v@.len() as int);
            assert(t.subrange(2, t.len() as int) =~= v@.subrange(k + 2, v@.len() as int));
        }
        k += 2;
    }
    proof {
        let t = v@.subrange(k as int, v@.len() as int);
        if t.len() >= 2 {
            assert(t[0] == v@[k as int] && t[1] == v@[k + 1]);
        }
    }
    sub_vec(v, k, v.len())
}

fn ends_with_exec(s: &Vec<char>, p: &Vec<char>) -> (r: bool)
    ensures
        r == ends_with(s@, p@),
{
    if p.len() > s.len() {
        return false;
    }
    let r = occurs_at_exec(s, p, s.len() - p.len());
    r
}

fn listed_in(stats: &Vec<FileStat>, claimed: &String) -> (r: bool)
    ensures
        r == listed_in_stats(stat_views(stats@), claimed@),
{
    let c = chars_of(claimed.as_str());
    let n = strip_dot_slash_exec(&c);
    let mut i: usize = 0;
    while i < stats.len()
        invariant
            i <= stats.len(),
            n@ == strip_dot_slash(claimed@),
            forall|m: int| 0 <= m < i ==> !names_same_file(#[trigger] stat_views(stats@)[m].0, n@),
        decreases stats.len() - i,
    {
        let p = chars_of(stats[i].path.as_str());
        if seq_eq(&p, &n) || ends_with_exec(&n, &p) || ends_with_exec(&p, &n) {
            assert(names_same_file(stat_views(stats@)[i as int].0, n@));
            return true;
        }
        i += 1;
    }
    false
}

fn first_unlisted(files: &Vec<String>, stats: &Vec<FileStat>) -> (r: Option<usize>)
    ensures
        match r {
            Some(k) => k < files.len() && first_unlisted_from(files@, stat_views(stats@), 0) == Some(
                k as int,
            ),
            None => first_unlisted_from(files@, stat_views(stats@), 0) is None,
        },
{
    let mut k: usize = 0;
    while k < files.len()
        invariant
            k <= files.len(),
            first_unlisted_from(files@, stat_views(stats@), 0) == first_unlisted_from(
                files@,
                stat_views(stats@),
                k as int,
            ),
        decreases files.len() - k,
    {
        if !listed_in(stats, &files[k]) {
            return Some(k);
        }
        k += 1;
    }
    None
}

fn audit_contains(audit: &[(String, i32)], command: &String, code: i32) -> (r: bool)
    ensures
        r == audit_has(audit@, command@, code),
{
    let mut i: usize = 0;
    while i < audit.len()
        invariant
            i <= audit.len(),
            forall|m: int| 0 <= m < i ==> !((#[trigger] audit@[m]).0@ == command@ && audit@[m].1 == code),
        decreases audit.len() - i,
    {
        if audit[i].1 == code && crate::text::string_eq_str(&audit[i].0, command.as_str()) {
            assert(audit@[i as int].0@ == command@);
            return true;
        }
        i += 1;
    }
    false
}

fn message_with(prefix: &str, middle: &String, suffix: &str) -> (r: String)
    ensures
        r@ == prefix@ + middle@ + suffix@,
        suffix@.len() == 0 ==> r@ == prefix@ + middle@,
{
    let mut m = string_from(prefix);
    append_string(&mut m, middle);
    append_str(&mut m, suffix);
    proof {
        if suffix@.len() == 0 {
            assert(prefix@ + middle@ + suffix@ =~= prefix@ + middle@);
        }
    }
    m
}

/// Judges an evidence claim against the shell audit log (the commands run
/// in this phase, with their exit codes) and against what was observed of
/// its paths: a discovery needs its paths to exist; a test result needs
/// exit code 0 and that exact command in the audit log; a diff needs its
/// files listed by `git diff --stat`, or, when git listed nothing, to
/// exist; a plan needs to exist and to hold checkbox markers; an explicit
/// skip needs a reason and then asks for the user's acknowledgment.
pub fn judge_claim(
    claim: &EvidenceClaim,
    audit_log: &[(String, i32)],
    obs: &ClaimObservations,
) -> (r: Result<VerificationResult, String>)
    ensures
        match spec_judge_claim(*claim, audit_log@, *obs) {
            Ok(v) => r matches Ok(x) && x@ == v,
            Err(m) => r matches Err(e) && e@ == m,
        },
{
    proof {
        reveal_strlit("");
    }
    match claim {
        EvidenceClaim::FileDiscovery { paths } => {
            if paths.len() == 0 {
                return Err(string_from("FileDiscovery evidence must contain at least one path"));
            }
            match first_unseen(obs, paths.len()) {
                Some(k) => Err(message_with("File not found: ", &paths[k], "")),
                None => Ok(VerificationResult::Verified { method: string_from("fs_exists"), stats: None }),
            }
        },
        EvidenceClaim::TestResult { command, exit_code, stdout_tail } => {
            if command.as_str().is_empty() {
                return Err(string_from("TestResult must specify command"));
            }
            if *exit_code != 0 {
                let mut m = string_from("TestResult exit_code ");
                push_decimal_i64(&mut m, *exit_code as i64);
                append_str(&mut m, " indicates failure");
                return Err(m);
            }
            if !audit_contains(audit_log, command, *exit_code) {
                let mut m = message_with("TestResult command '", command, "' (exit_code=");
                push_decimal_i64(&mut m, *exit_code as i64);
                append_str(&mut m, ") not found in shell audit log. The command must have been executed via exec_shell in this session with the exact same command string.");
                return Err(m);
            }
            Ok(VerificationResult::Verified { method: string_from("exec_audit_match"), stats: None })
        },
        EvidenceClaim::GitDiff { changed_files } => {
            if changed_files.len() == 0 {
                return Err(string_from("GitDiff must list at least one changed file"));
            }
            let stats = parse_git_diff_stat(obs.diff_stat.as_str());
            if stats.len() > 0 {
                match first_unlisted(changed_files, &stats) {
                    Some(k) => Err(message_with(
                        "Claimed changed file '",
                        &changed_files[k],
                        "' not found in git diff --stat output",
                    )),
                    None => Ok(VerificationResult::Verified {
                        method: string_from("git_diff_stat"),
                        stats: Some(GitDiffStats { files: stats }),
                    }),
                }
            } else {
                match first_unseen(obs, changed_files.len()) {
                    Some(k) => Err(message_with("Changed file not found: ", &changed_files[k], "")),
                    None => Ok(VerificationResult::Verified { method: string_from("git_diff_stat"), stats: None }),
                }
            }
        },
        EvidenceClaim::PlanArtifact { path } => {
            let seen = obs.exists.len() > 0 && obs.exists[0];
            if !seen {
                return Err(message_with("Plan artifact not found: ", path, ""));
            }
            match &obs.plan {
                Err(e) => Err(message_with("Cannot read plan: ", e, "")),
                Ok(content) => {
                    if !str_contains(content.as_str(), "- [ ]") && !str_contains(content.as_str(), "- [x]") {
                        return Err(string_from("Plan artifact must contain checkbox task markers (- [ ])"));
                    }
                    Ok(VerificationResult::Verified { method: string_from("plan_validated"), stats: None })
                },
            }
        },
        EvidenceClaim::ExplicitSkip { reason } => {
            if reason.as_str().is_empty() {
                return Err(string_from("ExplicitSkip must provide a reason"));
            }
            Ok(VerificationResult::RequiresUserAck {
                method: string_from("explicit_skip"),
                reason: string_from(reason.as_str()),
            })
        },
    }
}

// ───────────────────────── evidence for a transition ─────────────────────────

/// One evidence item of a phase transition request.
#[derive(Debug)]
pub struct EvidenceItem {
    /// The claim, or the item's JSON text when it is not a claim.
    pub claim: Result<EvidenceClaim, String>,
    /// What was observed of the claim's paths.
    pub observations: ClaimObservations,
}

/// The type name of a claim (its `type` tag).
pub open spec fn claim_type_name(c: EvidenceClaim) -> Seq<char> {
    match c {
        EvidenceClaim::FileDiscovery { .. } => "FileDiscovery"@,
        EvidenceClaim::TestResult { .. } => "TestResult"@,
        EvidenceClaim::GitDiff { .. } => "GitDiff"@,
        EvidenceClaim::PlanArtifact { .. } => "PlanArtifact"@,
        EvidenceClaim::ExplicitSkip { .. } => "ExplicitSkip"@,
    }
}

/// The message for a claim that only the user may confirm.
pub open spec fn msg_user_ack(reason: Seq<char>) -> Seq<char> {
    "Evidence requires user acknowledgment before phase transition: "@ + reason
        + ". Confirm via /omd-phase-complete."@
}

/// The message for an item that is not a claim.
pub open spec fn msg_unparsed(raw: Seq<char>) -> Seq<char> {
    "Evidence claim could not be parsed as a valid EvidenceClaim type. Each evidence item must have a 'type' field (FileDiscovery, TestResult, GitDiff, PlanArtifact, or ExplicitSkip). Got: "@
        + raw
}

/// Why an evidence item does not let a model's transition through, if it
/// does not: it is no claim; it is a skip without a reason (blank after
/// trimming); it is a skip with a reason, which only the user may confirm
/// (a model cannot approve its own skip); or it is another claim that
/// verification refuses or that asks for the user's acknowledgment.
pub open spec fn item_error(it: EvidenceItem, audit: Seq<(String, i32)>) -> Option<Seq<char>> {
    match it.claim {
        Err(raw) => Some(msg_unparsed(raw@)),
        Ok(c) => match c {
            EvidenceClaim::ExplicitSkip { reason } => if trim(reason@).len() == 0 {
                Some("ExplicitSkip requires a non-empty reason explaining why evidence is being skipped."@)
            } else {
                Some(msg_user_ack(reason@))
            },
            _ => match spec_judge_claim(c, audit, it.observations) {
                Ok(Verdict::Verified { .. }) => None,
                Ok(Verdict::RequiresUserAck { method, reason }) => Some(msg_user_ack(reason)),
                Err(m) => Some("Evidence verification failed: "@ + m),
            },
        },
    }
}

/// The error of the first item, at or after `k`, that has one.
pub open spec fn first_item_error(items: Seq<EvidenceItem>, audit: Seq<(String, i32)>, k: int) -> Option<Seq<char>>
    decreases items.len() - k,
{
    if k < 0 || k >= items.len() {
        None
    } else {
        match item_error(items[k], audit) {
            Some(m) => Some(m),
            None => first_item_error(items, audit, k + 1),
        }
    }
}

/// An explicit skip at `k` stops every scan that starts at or before it.
pub proof fn lemma_skip_stops_scan(items: Seq<EvidenceItem>, audit: Seq<(String, i32)>, k: int, j: int)
    requires
        0 <= j <= k < items.len(),
        items[k].claim matches Ok(EvidenceClaim::ExplicitSkip { .. }),
    ensures
        first_item_error(items, audit, j) is Some,
    decreases k - j,
{
    if j < k && item_error(items[j], audit) is None {
        lemma_skip_stops_scan(items, audit, k, j + 1);
    }
}

/// The type names of the items that are claims, in order.
pub open spec fn item_type_names(items: Seq<EvidenceItem>) -> Seq<Seq<char>>
    decreases items.len(),
{
    if items.len() == 0 {
        seq![]
    } else {
        let rest = item_type_names(items.drop_last());
        match items.last().claim {
            Ok(c) => rest.push(claim_type_name(c)),
            Err(_) => rest,
        }
    }
}

fn claim_type_text(c: &EvidenceClaim) -> (r: &'static str)
    ensures
        r@ == claim_type_name(*c),
{
    match c {
        EvidenceClaim::FileDiscovery { .. } => "FileDiscovery",
        EvidenceClaim::TestResult { .. } => "TestResult",
        EvidenceClaim::GitDiff { .. } => "GitDiff",
        EvidenceClaim::PlanArtifact { .. } => "PlanArtifact",
        EvidenceClaim::ExplicitSkip { .. } => "ExplicitSkip",
    }
}

/// Whether the string is empty once trimmed.
fn blank(s: &String) -> (r: bool)
    ensures
        r == (trim(s@).len() == 0),
{
    let v = chars_of(s.as_str());
    let (a, b) = trim_bounds(&v, 0, v.len());
    assert(v@.subrange(0, v@.len() as int) =~= v@);
    a == b
}

fn item_error_exec(it: &EvidenceItem, audit_log: &[(String, i32)]) -> (r: Option<String>)
    ensures
        match item_error(*it, audit_log@) {
            Some(m) => r matches Some(e) && e@ == m,
            None => r is None,
        },
{
    proof {
        reveal_strlit("");
    }
    match &it.claim {
        Err(raw) => {
            let m = message_with(
                "Evidence claim could not be parsed as a valid EvidenceClaim type. Each evidence item must have a 'type' field (FileDiscovery, TestResult, GitDiff, PlanArtifact, or ExplicitSkip). Got: ",
                raw,
                "",
            );
            assert(m@ == msg_unparsed(raw@));
            Some(m)
        },
        Ok(c) => {
            match c {
                EvidenceClaim::ExplicitSkip { reason } => {
                    if blank(reason) {
                        return Some(string_from("ExplicitSkip requires a non-empty reason explaining why evidence is being skipped."));
                    }
                    return Some(message_with(
                        "Evidence requires user acknowledgment before phase transition: ",
                        reason,
                        ". Confirm via /omd-phase-complete.",
                    ));
                },
                _ => {},
            }
            match judge_claim(c, audit_log, &it.observations) {
                Ok(VerificationResult::Verified { .. }) => None,
                Ok(VerificationResult::RequiresUserAck { method, reason }) => Some(message_with(
                    "Evidence requires user acknowledgment before phase transition: ",
                    &reason,
                    ". Confirm via /omd-phase-complete.",
                )),
                Err(m) => Some(message_with("Evidence verification failed: ", &m, "")),
            }
        },
    }
}

/// The error of the first evidence item that has one (see `item_error`).
pub fn first_evidence_error(items: &[EvidenceItem], audit_log: &[(String, i32)]) -> (r: Option<String>)
    ensures
        match first_item_error(items@, audit_log@, 0) {
            Some(m) => r matches Some(e) && e@ == m,
            None => r is None,
        },
{
    let mut k: usize = 0;
    while k < items.len()
        invariant
            k <= items.len(),
            first_item_error(items@, audit_log@, 0) == first_item_error(items@, audit_log@, k as int),
        decreases items.len() - k,
    {
        match item_error_exec(&items[k], audit_log) {
            Some(e) => {
                return Some(e);
            },
            None => {},
        }
        k += 1;
    }
    None
}

/// The type names of the items that are claims, in order.
pub fn evidence_type_names(items: &[EvidenceItem]) -> (r: Vec<&'static str>)
    ensures
        crate::text::str_views(r@) == item_type_names(items@),
{
    let mut r: Vec<&'static str> = Vec::new();
    let mut k: usize = 0;
    while k < items.len()
        invariant
            k <= items.len(),
            crate::text::str_views(r@) == item_type_names(items@.take(k as int)),
        decreases items.len() - k,
    {
        assert(items@.take(k + 1).drop_last() =~= items@.take(k as int));
        let ghost before = r@;
        match &items[k].claim {
            Ok(c) => {
                r.push(claim_type_text(c));
                assert(crate::text::str_views(r@) =~= crate::text::str_views(before).push(claim_type_name(*c)));
            },
            Err(_) => {},
        }
        k += 1;
    }
    assert(items@.take(items@.len() as int) =~= items@);
    r
}

// ───────────────────────────── laws ─────────────────────────────

/// Only an explicit skip with a reason asks for the user's
/// acknowledgment; every other claim is verified or refused.
pub proof fn lemma_only_skip_asks_ack(claim: EvidenceClaim, audit: Seq<(String, i32)>, obs: ClaimObservations)
    ensures
        (spec_judge_claim(claim, audit, obs) matches Ok(Verdict::RequiresUserAck { .. })) <==> (
        claim matches EvidenceClaim::ExplicitSkip { reason } && reason@.len() > 0),
{
}

/// A test result whose exit code is not zero is never verified.
pub proof fn lemma_failed_test_never_verifies(
    command: String,
    exit_code: i32,
    tail: Option<String>,
    audit: Seq<(String, i32)>,
    obs: ClaimObservations,
)
    requires
        exit_code != 0,
    ensures
        spec_judge_claim(EvidenceClaim::TestResult { command, exit_code, stdout_tail: tail }, audit, obs) is Err,
{
}

/// The indices of the lines of `ls` that describe a file stat, in order.
pub open spec fn stat_line_indices(ls: Seq<Seq<char>>) -> Seq<int>
    decreases ls.len(),
{
    if ls.len() == 0 {
        seq![]
    } else {
        let rest = stat_line_indices(ls.drop_first()).map_values(|j: int| j + 1);
        if spec_stat_of_line(ls[0]) is Some {
            seq![0int] + rest
        } else {
            rest
        }
    }
}

/// The path of a file stat is what one line shows before its first `|`:
/// non-empty, trimmed, free of `|`, and not the summary line's "changed".
pub proof fn lemma_stat_path_shape(line: Seq<char>)
    ensures
        spec_stat_of_line(line) matches Some(x) ==> {
            &&& x.0.len() > 0
            &&& trim(x.0) == x.0
            &&& forall|k: int| 0 <= k < x.0.len() ==> #[trigger] x.0[k] != '|'
            &&& !contains_sub(x.0, "changed"@)
        },
{
    let t = trim(line);
    if spec_stat_of_line(line) is Some {
        let p = find_from(t, 0, '|');
        lemma_find_from_bounds(t, 0, '|');
        let head = t.subrange(0, p);
        let path = trim(head);
        crate::text::lemma_trim_idempotent(head);
        crate::text::lemma_trim_is_slice(head);
        let a = choose|a: int| 0 <= a && a + path.len() <= head.len() && #[trigger] head.subrange(a, a + path.len()) == path;
        assert forall|k: int| 0 <= k < path.len() implies #[trigger] path[k] != '|' by {
            assert(path[k] == head[a + k]);
            assert(head[a + k] == t[a + k]);
        }
        if contains_sub(path, "changed"@) {
            let i = choose|i: int| occurs_at(path, "changed"@, i);
            assert(t.subrange(a + i, a + i + "changed"@.len()) =~= path.subrange(i, i + "changed"@.len()));
            assert(occurs_at(t, "changed"@, a + i));
        }
    }
}

/// `git diff --stat` output is read line by line, in order: each line
/// describes at most one file stat, the stats come in the order of their
/// lines, and every line that describes one yields it (parsed paths are
/// non-empty; see `lemma_stat_path_shape`).
pub proof fn lemma_stats_follow_lines(ls: Seq<Seq<char>>)
    ensures
        forall|i: int| 0 <= i < spec_stats_of_lines(ls).len() ==> #[trigger] spec_stats_of_lines(ls)[i].0.len() > 0,
        spec_stats_of_lines(ls).len() <= ls.len(),
        stat_line_indices(ls).len() == spec_stats_of_lines(ls).len(),
        forall|k: int|
            0 <= k < stat_line_indices(ls).len() ==> 0 <= #[trigger] stat_line_indices(ls)[k] < ls.len()
                && spec_stat_of_line(ls[stat_line_indices(ls)[k]]) == Some(spec_stats_of_lines(ls)[k]),
        forall|k1: int, k2: int|
            0 <= k1 < k2 < stat_line_indices(ls).len() ==> #[trigger] stat_line_indices(ls)[k1]
                < #[trigger] stat_line_indices(ls)[k2],
        forall|j: int| 0 <= j < ls.len() && spec_stat_of_line(#[trigger] ls[j]) is Some ==> stat_line_indices(ls).contains(j),
    decreases ls.len(),
{
    if ls.len() > 0 {
        let tail = ls.drop_first();
        lemma_stats_follow_lines(tail);
        let rest = spec_stats_of_lines(tail);
        let ri = stat_line_indices(tail);
        let sh = ri.map_values(|j: int| j + 1);
        let st = spec_stats_of_lines(ls);
        let ix = stat_line_indices(ls);
        lemma_stat_path_shape(ls[0]);
        assert forall|j: int| 0 <= j < tail.len() implies #[trigger] tail[j] == ls[j + 1] by {}
        if spec_stat_of_line(ls[0]) is Some {
            assert(ix == seq![0int] + sh);
            assert(st == seq![spec_stat_of_line(ls[0])->Some_0] + rest);
            assert forall|k: int| 0 <= k < ix.len() implies 0 <= #[trigger] ix[k] < ls.len()
                && spec_stat_of_line(ls[ix[k]]) == Some(st[k]) by {
                if k > 0 {
                    assert(ix[k] == sh[k - 1]);
                    assert(sh[k - 1] == ri[k - 1] + 1);
                    assert(st[k] == rest[k - 1]);
                    assert(tail[ri[k - 1]] == ls[ri[k - 1] + 1]);
                }
            }
            assert forall|k1: int, k2: int| 0 <= k1 < k2 < ix.len() implies #[trigger] ix[k1] < #[trigger] ix[k2] by {
                assert(ix[k2] == sh[k2 - 1]);
                if k1 > 0 {
                    assert(ix[k1] == sh[k1 - 1]);
                    assert(ri[k1 - 1] < ri[k2 - 1]);
                } else {
                    assert(0 <= ri[k2 - 1]);
                }
            }
            assert forall|i: int| 0 <= i < st.len() implies #[trigger] st[i].0.len() > 0 by {
                if i > 0 {
                    assert(st[i] == rest[i - 1]);
                }
            }
            assert forall|j: int| 0 <= j < ls.len() && spec_stat_of_line(#[trigger] ls[j]) is Some implies ix.contains(j) by {
                if j == 0 {
                    assert(ix[0] == 0);
                } else {
                    assert(tail[j - 1] == ls[j]);
                    assert(ri.contains(j - 1));
                    let m = choose|m: int| 0 <= m < ri.len() && ri[m] == j - 1;
                    assert(ix[m + 1] == sh[m]);
                }
            }
        } else {
            assert(ix == sh);
            assert(st == rest);
            assert forall|k: int| 0 <= k < ix.len() implies 0 <= #[trigger] ix[k] < ls.len()
                && spec_stat_of_line(ls[ix[k]]) == Some(st[k]) by {
                assert(ix[k] == ri[k] + 1);
                assert(tail[ri[k]] == ls[ri[k] + 1]);
            }
            assert forall|k1: int, k2: int| 0 <= k1 < k2 < ix.len() implies #[trigger] ix[k1] < #[trigger] ix[k2] by {
                assert(ix[k1] == ri[k1] + 1);
                assert(ix[k2] == ri[k2] + 1);
                assert(ri[k1] < ri[k2]);
            }
            assert forall|j: int| 0 <= j < ls.len() && spec_stat_of_line(#[trigger] ls[j]) is Some implies ix.contains(j) by {
                assert(j != 0);
                assert(tail[j - 1] == ls[j]);
                assert(ri.contains(j - 1));
                let m = choose|m: int| 0 <= m < ri.len() && ri[m] == j - 1;
                assert(ix[m] == sh[m]);
            }
        }
    }
}

/// A file line counts what its bar chart shows. The line (trimmed) holds a
/// `|`; the path is what stands before the first `|`, trimmed; for a
/// binary file (`Bin ...` after the `|`) nothing is counted; otherwise the
/// insertions are the number of `+` characters after the `|` and the
/// deletions the number of `-` characters (each as far as `u32` holds it).
pub proof fn lemma_stat_counts(line: Seq<char>)
    ensures
        spec_stat_of_line(line) matches Some(x) ==> {
            let t = trim(line);
            let q = find_from(t, 0, '|');
            let tail = t.subrange(q + 1, t.len() as int);
            &&& q < t.len()
            &&& x.0 == trim(t.subrange(0, q))
            &&& if starts_with(trim(tail), "Bin"@) {
                x.1 == 0 && x.2 == 0
            } else {
                &&& count_char(tail, '+') <= u32::MAX ==> x.1 == count_char(tail, '+')
                &&& count_char(tail, '-') <= u32::MAX ==> x.2 == count_char(tail, '-')
            }
        },
{
    let t = trim(line);
    lemma_find_from_bounds(t, 0, '|');
    let q = find_from(t, 0, '|');
    if q < t.len() {
        let tail = t.subrange(q + 1, t.len() as int);
        assert(!crate::text::is_ws('+'));
        assert(!crate::text::is_ws('-'));
        crate::text::lemma_count_trim(tail, '+');
        crate::text::lemma_count_trim(tail, '-');
    }
}

} // verus!

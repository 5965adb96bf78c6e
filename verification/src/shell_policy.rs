//! Shell execution policy tiers and read-only command validation.
use vstd::prelude::*;
use crate::shell_parser::{
    has_command_substitution, has_pipe,
    has_process_substitution, has_redirect, spec_has_command_substitution,
    spec_has_pipe, spec_has_process_substitution,
    spec_has_redirect, spec_split_commands, spec_tokenize, split_commands, split_view, tokenize,
    Operator, at, cmdsub_from, is_quoting, lemma_split_commands_shape, no_chain_chars,
    pipe_from, procsub_from, redirect_from, split_from, with_segment,
};
use crate::text::{
    append_str, chars_of, contains_exec, contains_sub, join, occurs_at, occurs_at_exec, push_decimal,
    starts_with, string_eq_str, string_from, string_views, trim, trimmed_string,
};

verus! {

/// Shell execution policy tiers.
#[derive(Debug, Clone, Copy, PartialEq, Eq, Structural)]
pub enum ShellPolicy {
    /// No shell access at all
    NoShell,
    /// Read-only commands only (pattern-matched allowlist)
    ReadOnly,
    /// Unrestricted shell
    Full,
}

// ───────────────────────────── specification ─────────────────────────────

/// Binary + optional subcommand prefix allowlist for read-only mode.
pub open spec fn read_only_allowlist() -> Seq<(Seq<char>, Seq<char>)> {
    seq![
        // Filesystem read
        ("cat"@, ""@), ("head"@, ""@), ("tail"@, ""@), ("less"@, ""@), ("wc"@, ""@),
        ("sort"@, ""@), ("uniq"@, ""@), ("diff"@, ""@), ("ls"@, ""@), ("tree"@, ""@),
        ("file"@, ""@), ("stat"@, ""@), ("du"@, ""@),
        // Search
        ("grep"@, ""@), ("rg"@, ""@), ("ag"@, ""@), ("fd"@, ""@),
        // Text processing (read-only)
        ("awk"@, ""@), ("jq"@, ""@), ("yq"@, ""@), ("column"@, ""@), ("cut"@, ""@), ("tr"@, ""@),
        // Git (read-only subcommands)
        ("git"@, "log"@), ("git"@, "diff"@), ("git"@, "status"@),
        ("git"@, "show"@), ("git"@, "blame"@), ("git"@, "rev-parse"@),
        ("git"@, "branch --list"@), ("git"@, "branch -a"@), ("git"@, "branch -r"@),
        ("git"@, "tag --list"@), ("git"@, "tag -l"@),
        // Build check (no output mutation)
        ("cargo"@, "check"@), ("cargo"@, "clippy"@),
        ("cargo"@, "test"@),
        ("npx"@, "tsc --noEmit"@),
        // Python
        ("python"@, "-m py_compile"@), ("python3"@, "-m py_compile"@),
        // General read
        ("echo"@, ""@), ("printf"@, ""@), ("env"@, ""@), ("which"@, ""@), ("whereis"@, ""@),
        ("uname"@, ""@), ("date"@, ""@), ("id"@, ""@), ("whoami"@, ""@),
    ]
}

/// The arguments after the binary match an allowlist prefix: the prefix is
/// empty, or the arguments begin with it as whole tokens.
pub open spec fn prefix_ok(rest: Seq<char>, prefix: Seq<char>) -> bool {
    prefix.len() == 0 || (starts_with(rest, prefix) && (rest.len() == prefix.len() || rest[prefix.len() as int] == ' '))
}

/// Whether one sub-command is a permitted read-only command.
pub open spec fn spec_is_allowed_read_command(cmd: Seq<char>) -> bool {
    match spec_tokenize(cmd) {
        Err(_) => false,
        Ok(parts) => parts.len() == 0 || {
            let bin = parts[0];
            let rest = join(parts.skip(1), seq![' ']);
            if bin == "find"@ {
                !contains_sub(rest, "-exec"@) && !contains_sub(rest, "-delete"@) && !contains_sub(rest, "-ok"@)
            } else if bin == "sed"@ {
                false
            } else {
                exists|k: int|
                    0 <= k < read_only_allowlist().len() && #[trigger] read_only_allowlist()[k].0 == bin
                        && prefix_ok(rest, read_only_allowlist()[k].1)
            }
        },
    }
}

/// First sub-command, from index `k` on, that is non-empty after trimming
/// and not a permitted read-only command.
pub open spec fn first_rejected(subs: Seq<(Operator, Seq<char>)>, k: int) -> Option<Seq<char>>
    decreases subs.len() - k,
{
    if k < 0 || k >= subs.len() {
        None
    } else {
        let c = trim(subs[k].1);
        if c.len() != 0 && !spec_is_allowed_read_command(c) {
            Some(c)
        } else {
            first_rejected(subs, k + 1)
        }
    }
}

pub open spec fn msg_pipe() -> Seq<char> {
    "Piped commands are not supported in read-only mode. Use individual commands instead."@
}

pub open spec fn msg_redirect() -> Seq<char> {
    "Command contains write/escape indicator '>' or '>>'. Only read-only commands allowed."@
}

pub open spec fn msg_cmdsub() -> Seq<char> {
    "Command contains write/escape indicator '$(' or backtick. Only read-only commands allowed."@
}

pub open spec fn msg_procsub() -> Seq<char> {
    "Command contains write/escape indicator '<(' or '>('. Only read-only commands allowed."@
}

pub open spec fn msg_system() -> Seq<char> {
    "Command contains system() call which can execute arbitrary code. Not allowed in read-only mode."@
}

pub open spec fn msg_output() -> Seq<char> {
    "Command contains --output which writes to a file. Not allowed in read-only mode."@
}

pub open spec fn msg_no_shell() -> Seq<char> {
    "Shell execution not available in this phase"@
}

/// Message for a sub-command outside the allowlist.
pub open spec fn msg_not_allowed(sub: Seq<char>) -> Seq<char> {
    "Command '"@ + sub
        + "' not in read-only allowlist. Allowed binaries: cat, ls, find (no -exec/-delete/-ok), grep, awk, git log/diff/status, cargo check/test, etc."@
}

/// Outcome of validating a command in read-only mode.
pub open spec fn spec_validate_read_only(cmd: Seq<char>) -> Result<(), Seq<char>> {
    if spec_has_pipe(cmd) {
        Err(msg_pipe())
    } else if spec_has_redirect(cmd) {
        Err(msg_redirect())
    } else if spec_has_command_substitution(cmd) {
        Err(msg_cmdsub())
    } else if spec_has_process_substitution(cmd) {
        Err(msg_procsub())
    } else if contains_sub(cmd, "system("@) || contains_sub(cmd, "system ("@) {
        Err(msg_system())
    } else if contains_sub(cmd, "--output="@) || contains_sub(cmd, "--output "@) {
        Err(msg_output())
    } else {
        match first_rejected(spec_split_commands(cmd), 0) {
            Some(sub) => Err(msg_not_allowed(sub)),
            None => Ok(()),
        }
    }
}

/// Outcome of validating a command under a policy.
pub open spec fn spec_validate_command(cmd: Seq<char>, policy: ShellPolicy) -> Result<(), Seq<char>> {
    match policy {
        ShellPolicy::Full => Ok(()),
        ShellPolicy::NoShell => Err(msg_no_shell()),
        ShellPolicy::ReadOnly => spec_validate_read_only(cmd),
    }
}

/// View of a unit result with a message error.
pub open spec fn unit_result_view(r: Result<(), String>) -> Result<(), Seq<char>> {
    match r {
        Ok(()) => Ok(()),
        Err(e) => Err(e@),
    }
}

// ───────────────────────────── executable ─────────────────────────────

/// The allowlist as pairs of string slices.
fn allowlist_pairs() -> (r: Vec<(&'static str, &'static str)>)
    ensures
        r@.map_values(|p: (&str, &str)| (p.0@, p.1@)) == read_only_allowlist(),
{
    let v: Vec<(&'static str, &'static str)> = vec![
        ("cat", ""), ("head", ""), ("tail", ""), ("less", ""), ("wc", ""),
        ("sort", ""), ("uniq", ""), ("diff", ""), ("ls", ""), ("tree", ""),
        ("file", ""), ("stat", ""), ("du", ""),
        ("grep", ""), ("rg", ""), ("ag", ""), ("fd", ""),
        ("awk", ""), ("jq", ""), ("yq", ""), ("column", ""), ("cut", ""), ("tr", ""),
        ("git", "log"), ("git", "diff"), ("git", "status"),
        ("git", "show"), ("git", "blame"), ("git", "rev-parse"),
        ("git", "branch --list"), ("git", "branch -a"), ("git", "branch -r"),
        ("git", "tag --list"), ("git", "tag -l"),
        ("cargo", "check"), ("cargo", "clippy"),
        ("cargo", "test"),
        ("npx", "tsc --noEmit"),
        ("python", "-m py_compile"), ("python3", "-m py_compile"),
        ("echo", ""), ("printf", ""), ("env", ""), ("which", ""), ("whereis", ""),
        ("uname", ""), ("date", ""), ("id", ""), ("whoami", ""),
    ];
    assert(v@.map_values(|p: (&str, &str)| (p.0@, p.1@)) =~= read_only_allowlist());
    v
}

/// Whether `rest` matches allowlist prefix `prefix` at token boundaries.
fn prefix_ok_exec(rest: &Vec<char>, prefix: &str) -> (r: bool)
    ensures
        r == prefix_ok(rest@, prefix@),
{
    let p = chars_of(prefix);
    if p.len() == 0 {
        return true;
    }
    occurs_at_exec(rest, &p, 0) && (rest.len() == p.len() || rest[p.len()] == ' ')
}

/// `parts[from..]` joined with single spaces, as characters.
fn join_tail(parts: &Vec<String>, from: usize) -> (r: Vec<char>)
    requires
        1 <= from <= parts.len(),
    ensures
        r@ == join(string_views(parts@).skip(from as int), seq![' ']),
{
    let ghost views = string_views(parts@);
    let mut out: Vec<char> = Vec::new();
    let mut k = from;
    assert(views.subrange(from as int, from as int) =~= Seq::<Seq<char>>::empty());
    while k < parts.len()
        invariant
            1 <= from <= k <= parts.len(),
            views == string_views(parts@),
            out@ == join(views.subrange(from as int, k as int), seq![' ']),
        decreases parts.len() - k,
    {
        let ghost before = out@;
        let ghost prev = views.subrange(from as int, k as int);
        if k > from {
            out.push(' ');
        }
        let cs = chars_of(parts[k].as_str());
        let mut m: usize = 0;
        let ghost mid = out@;
        while m < cs.len()
            invariant
                m <= cs.len(),
                out@ == mid + cs@.subrange(0, m as int),
            decreases cs.len() - m,
        {
            out.push(cs[m]);
            assert(cs@.subrange(0, m + 1) == cs@.subrange(0, m as int).push(cs@[m as int]));
            m += 1;
        }
        assert(cs@.subrange(0, cs@.len() as int) == cs@);
        let ghost next = views.subrange(from as int, k + 1);
        assert(next.drop_last() =~= prev);
        assert(next.last() == parts@[k as int]@);
        if k > from {
            assert(before.push(' ') == before + seq![' ']);
        } else {
            assert(next =~= seq![parts@[k as int]@]);
            assert(before =~= Seq::<char>::empty());
        }
        k += 1;
    }
    assert(views.subrange(from as int, parts.len() as int) =~= views.skip(from as int));
    out
}

/// Whether a single sub-command is a permitted read-only command.
#[verifier::loop_isolation(false)]
fn is_allowed_read_command(command: &str) -> (r: bool)
    ensures
        r == spec_is_allowed_read_command(command@),
{
    // Use the parser to get proper argv tokens (handles quoting correctly)
    let parts = match tokenize(command) {
        Ok(p) => p,
        Err(_) => return false,
    };
    if parts.len() == 0 {
        return true;
    }
    let binary = &parts[0];
    let rest = join_tail(&parts, 1);
    assert(string_views(parts@)[0] == parts@[0]@);
    // Special case: find is allowed only without -exec/-delete/-ok
    if string_eq_str(binary, "find") {
        let a = chars_of("-exec");
        let b = chars_of("-delete");
        let c = chars_of("-ok");
        return !contains_exec(&rest, &a) && !contains_exec(&rest, &b) && !contains_exec(&rest, &c);
    }
    // Special case: sed is not in the allowlist at all
    if string_eq_str(binary, "sed") {
        return false;
    }
    let list = allowlist_pairs();
    let mut k: usize = 0;
    while k < list.len()
        invariant
            k <= list.len(),
            list@.map_values(|p: (&str, &str)| (p.0@, p.1@)) == read_only_allowlist(),
            forall|m: int|
                0 <= m < k ==> !(#[trigger] read_only_allowlist()[m].0 == binary@ && prefix_ok(
                    rest@,
                    read_only_allowlist()[m].1,
                )),
        decreases list.len() - k,
    {
        let (b, p) = list[k];
        assert(read_only_allowlist()[k as int] == (b@, p@));
        if string_eq_str(binary, b) && prefix_ok_exec(&rest, p) {
            assert(read_only_allowlist()[k as int].0 == binary@ && prefix_ok(rest@, read_only_allowlist()[k as int].1));
            return true;
        }
        k += 1;
    }
    false
}

/// Validate a command in read-only mode.
#[verifier::loop_isolation(false)]
fn validate_read_only(command: &str) -> (r: Result<(), String>)
    ensures
        unit_result_view(r) == spec_validate_read_only(command@),
{
    // Reject pipes (unquoted `|` not part of `||`)
    if has_pipe(command) {
        return Err(string_from("Piped commands are not supported in read-only mode. Use individual commands instead."));
    }
    // Reject output redirects (`>`, `>>`)
    if has_redirect(command) {
        return Err(string_from("Command contains write/escape indicator '>' or '>>'. Only read-only commands allowed."));
    }
    // Reject command substitution (`$(...)`, backticks), also inside
    // double quotes, where the shell still performs it
    if has_command_substitution(command) {
        return Err(string_from("Command contains write/escape indicator '$(' or backtick. Only read-only commands allowed."));
    }
    // Reject process substitution (`<(...)`, `>(...)`)
    if has_process_substitution(command) {
        return Err(string_from("Command contains write/escape indicator '<(' or '>('. Only read-only commands allowed."));
    }
    let cv = chars_of(command);
    // Block awk/python system() calls that can execute arbitrary code
    let s1 = chars_of("system(");
    let s2 = chars_of("system (");
    if contains_exec(&cv, &s1) || contains_exec(&cv, &s2) {
        return Err(string_from("Command contains system() call which can execute arbitrary code. Not allowed in read-only mode."));
    }
    // Block git diff --output (writes to file)
    let o1 = chars_of("--output=");
    let o2 = chars_of("--output ");
    if contains_exec(&cv, &o1) || contains_exec(&cv, &o2) {
        return Err(string_from("Command contains --output which writes to a file. Not allowed in read-only mode."));
    }
    // Split at unquoted &&, ||, ;, &, newline — then check each sub-command
    let subcommands = split_commands(command);
    let ghost subs = split_view(subcommands@);
    let mut k: usize = 0;
    while k < subcommands.len()
        invariant
            k <= subcommands.len(),
            subs == split_view(subcommands@),
            first_rejected(subs, k as int) == first_rejected(subs, 0),
        decreases subcommands.len() - k,
    {
        let sub = &subcommands[k].1;
        let sc = chars_of(sub.as_str());
        let t = trimmed_string(&sc, 0, sc.len());
        assert(sc@.subrange(0, sc@.len() as int) == sc@);
        assert(subs[k as int].1 == sub@);
        if !t.as_str().is_empty() {
            if !is_allowed_read_command(t.as_str()) {
                let mut msg = string_from("Command '");
                append_str(&mut msg, t.as_str());
                append_str(&mut msg, "' not in read-only allowlist. Allowed binaries: cat, ls, find (no -exec/-delete/-ok), grep, awk, git log/diff/status, cargo check/test, etc.");
                assert(first_rejected(subs, k as int) == Some(t@));
                return Err(msg);
            }
        }
        k += 1;
    }
    Ok(())
}

/// Validate a shell command against the given policy.
pub fn validate_command(command: &str, policy: ShellPolicy) -> (r: Result<(), String>)
    ensures
        unit_result_view(r) == spec_validate_command(command@, policy),
{
    match policy {
        ShellPolicy::Full => Ok(()),
        ShellPolicy::NoShell => Err(string_from("Shell execution not available in this phase")),
        ShellPolicy::ReadOnly => validate_read_only(command),
    }
}

// ───────────────────────────── laws ─────────────────────────────

/// Every command that read-only mode accepts is free of unquoted pipes,
/// redirects and substitutions, and of command substitution inside double
/// quotes, and each of its non-empty sub-commands is a
/// permitted read-only command.
pub proof fn lemma_read_only_accepts_only_safe(cmd: Seq<char>)
    requires
        spec_validate_command(cmd, ShellPolicy::ReadOnly) is Ok,
    ensures
        !spec_has_pipe(cmd),
        !spec_has_redirect(cmd),
        !spec_has_command_substitution(cmd),
        !spec_has_process_substitution(cmd),
        forall|k: int|
            0 <= k < spec_split_commands(cmd).len() ==> {
                let c = trim(#[trigger] spec_split_commands(cmd)[k].1);
                c.len() == 0 || spec_is_allowed_read_command(c)
            },
{
    let subs = spec_split_commands(cmd);
    assert forall|k: int|
        0 <= k < subs.len() implies {
            let c = trim(#[trigger] subs[k].1);
            c.len() == 0 || spec_is_allowed_read_command(c)
        } by {
        lemma_first_rejected_none(subs, 0, k);
    }
}

proof fn lemma_first_rejected_none(subs: Seq<(Operator, Seq<char>)>, from: int, k: int)
    requires
        0 <= from <= k < subs.len(),
        first_rejected(subs, from) is None,
    ensures
        trim(subs[k].1).len() == 0 || spec_is_allowed_read_command(trim(subs[k].1)),
    decreases k - from,
{
    if from < k {
        lemma_first_rejected_none(subs, from + 1, k);
    }
}

/// The full tier accepts every command, and the no-shell tier rejects
/// every command.
pub proof fn lemma_tier_extremes(cmd: Seq<char>)
    ensures
        spec_validate_command(cmd, ShellPolicy::Full) is Ok,
        spec_validate_command(cmd, ShellPolicy::NoShell) is Err,
{
}


/// A character of a plain word: an ASCII letter or digit, a space, `.`,
/// `/`, `_` or `-`.
pub open spec fn plain_char(c: char) -> bool {
    let u = c as u32;
    ||| 0x61 <= u <= 0x7a
    ||| 0x41 <= u <= 0x5a
    ||| 0x30 <= u <= 0x39
    ||| c == ' '
    ||| c == '.'
    ||| c == '/'
    ||| c == '_'
    ||| c == '-'
}

/// Every character is a plain word character.
pub open spec fn plain(s: Seq<char>) -> bool {
    forall|k: int| 0 <= k < s.len() ==> plain_char(#[trigger] s[k])
}

proof fn lemma_plain_has_no_indicator(s: Seq<char>, i: int)
    requires
        0 <= i,
        plain(s),
    ensures
        !pipe_from(s, i),
        !redirect_from(s, i),
        !cmdsub_from(s, i, false),
        !procsub_from(s, i),
    decreases s.len() - i,
{
    if i < s.len() {
        assert(plain_char(s[i]));
        lemma_plain_has_no_indicator(s, i + 1);
    }
}

proof fn lemma_split_plain_stretch(
    s: Seq<char>,
    i: int,
    m: int,
    res: Seq<(Operator, Seq<char>)>,
    start: int,
    op: Operator,
)
    requires
        0 <= i <= m <= s.len(),
        forall|k: int| i <= k < m ==> plain_char(#[trigger] s[k]),
    ensures
        split_from(s, i, res, start, op) == split_from(s, m, res, start, op),
    decreases m - i,
{
    if i < m {
        assert(plain_char(s[i]));
        lemma_split_plain_stretch(s, i + 1, m, res, start, op);
    }
}

proof fn lemma_contains_in_context(x: Seq<char>, y: Seq<char>, z: Seq<char>, p: Seq<char>)
    ensures
        contains_sub(y, p) ==> contains_sub(x + y + z, p),
{
    if contains_sub(y, p) {
        let i = choose|i: int| occurs_at(y, p, i);
        assert((x + y + z).subrange(x.len() + i, x.len() + i + p.len()) =~= y.subrange(i, i + p.len()));
        assert(occurs_at(x + y + z, p, x.len() + i));
    }
}

proof fn lemma_single_accepted(c: Seq<char>)
    requires
        plain(c),
        trim(c).len() == 0 || spec_is_allowed_read_command(trim(c)),
        !contains_sub(c, "system("@),
        !contains_sub(c, "system ("@),
        !contains_sub(c, "--output="@),
        !contains_sub(c, "--output "@),
    ensures
        spec_validate_read_only(c) is Ok,
{
    lemma_plain_has_no_indicator(c, 0);
    lemma_split_commands_shape(c);
    assert(no_chain_chars(c)) by {
        assert forall|k: int| 0 <= k < c.len() implies #[trigger] c[k] != '&' && c[k] != '|' && c[k] != ';' && c[k] != '\n' by {
            assert(plain_char(c[k]));
        }
    }
    let subs = spec_split_commands(c);
    if trim(c).len() > 0 {
        crate::text::lemma_trim_idempotent(c);
        assert(first_rejected(subs, 1) is None);
        assert(first_rejected(subs, 0) is None);
    }
}

/// In read-only mode a chain of two plain commands passes only if each of
/// them passes on its own.
pub proof fn lemma_read_only_chain_needs_each(a: Seq<char>, b: Seq<char>)
    requires
        plain(a),
        plain(b),
        spec_validate_read_only(a + " && "@ + b) is Ok,
    ensures
        spec_validate_read_only(a) is Ok,
        spec_validate_read_only(b) is Ok,
{
    reveal_strlit(" && ");
    let mid = " && "@;
    let cmd = a + mid + b;
    let n = a.len() as int;
    assert(mid =~= seq![' ', '&', '&', ' ']);
    let e = Seq::<char>::empty();
    lemma_contains_in_context(e, a, mid + b, "system("@);
    lemma_contains_in_context(e, a, mid + b, "system ("@);
    lemma_contains_in_context(e, a, mid + b, "--output="@);
    lemma_contains_in_context(e, a, mid + b, "--output "@);
    assert(e + a + (mid + b) =~= cmd);
    lemma_contains_in_context(a + mid, b, e, "system("@);
    lemma_contains_in_context(a + mid, b, e, "system ("@);
    lemma_contains_in_context(a + mid, b, e, "--output="@);
    lemma_contains_in_context(a + mid, b, e, "--output "@);
    assert(a + mid + b + e =~= cmd);
    // The chain splits into the trimmed `a` and the trimmed `b`.
    assert forall|k: int| 0 <= k < n implies plain_char(#[trigger] cmd[k]) by {
        assert(cmd[k] == a[k]);
    }
    assert forall|k: int| n + 3 <= k < cmd.len() implies plain_char(#[trigger] cmd[k]) by {
        if k > n + 3 {
            assert(cmd[k] == b[k - n - 4]);
        }
    }
    let e2 = Seq::<(Operator, Seq<char>)>::empty();
    lemma_split_plain_stretch(cmd, 0, n, e2, 0, Operator::First);
    assert(plain_char(cmd[n]));
    assert(cmd[n + 1] == '&' && cmd[n + 2] == '&');
    assert(at(cmd, n + 2, '&'));
    let res2 = with_segment(e2, trim(cmd.subrange(0, n + 1)), Operator::First);
    assert(split_from(cmd, n + 1, e2, 0, Operator::First) == split_from(cmd, n + 3, res2, n + 3, Operator::And));
    lemma_split_plain_stretch(cmd, n + 3, cmd.len() as int, res2, n + 3, Operator::And);
    assert(cmd.subrange(0, n + 1) =~= a.push(' '));
    crate::text::lemma_trim_push_ws(a, ' ');
    assert(cmd.subrange(n + 3, cmd.len() as int) =~= seq![' '] + b);
    crate::text::lemma_trim_prepend_ws(' ', b);
    let subs = spec_split_commands(cmd);
    assert(subs == with_segment(with_segment(e2, trim(a), Operator::First), trim(b), Operator::And));
    // Every sub-command of the chain passed.
    assert(first_rejected(subs, 0) is None);
    crate::text::lemma_trim_idempotent(a);
    crate::text::lemma_trim_idempotent(b);
    if trim(a).len() > 0 {
        lemma_first_rejected_none(subs, 0, 0);
    }
    if trim(b).len() > 0 {
        let kb = if trim(a).len() > 0 { 1int } else { 0int };
        assert(subs[kb].1 == trim(b));
        lemma_first_rejected_none(subs, 0, kb);
    }
    lemma_single_accepted(a);
    lemma_single_accepted(b);
}

/// The read-only allowlist is the documented one: file reading, search,
/// read-only text processing, read-only git subcommands, build checks,
/// Python compile checks and general read commands.
pub proof fn lemma_allowlist_table()
    ensures
        read_only_allowlist() == seq![
                // Filesystem read
                ("cat"@, ""@), ("head"@, ""@), ("tail"@, ""@), ("less"@, ""@), ("wc"@, ""@),
                ("sort"@, ""@), ("uniq"@, ""@), ("diff"@, ""@), ("ls"@, ""@), ("tree"@, ""@),
                ("file"@, ""@), ("stat"@, ""@), ("du"@, ""@),
                // Search
                ("grep"@, ""@), ("rg"@, ""@), ("ag"@, ""@), ("fd"@, ""@),
                // Text processing (read-only)
                ("awk"@, ""@), ("jq"@, ""@), ("yq"@, ""@), ("column"@, ""@), ("cut"@, ""@), ("tr"@, ""@),
                // Git (read-only subcommands)
                ("git"@, "log"@), ("git"@, "diff"@), ("git"@, "status"@),
                ("git"@, "show"@), ("git"@, "blame"@), ("git"@, "rev-parse"@),
                ("git"@, "branch --list"@), ("git"@, "branch -a"@), ("git"@, "branch -r"@),
                ("git"@, "tag --list"@), ("git"@, "tag -l"@),
                // Build check (no output mutation)
                ("cargo"@, "check"@), ("cargo"@, "clippy"@),
                ("cargo"@, "test"@),
                ("npx"@, "tsc --noEmit"@),
                // Python
                ("python"@, "-m py_compile"@), ("python3"@, "-m py_compile"@),
                // General read
                ("echo"@, ""@), ("printf"@, ""@), ("env"@, ""@), ("which"@, ""@), ("whereis"@, ""@),
                ("uname"@, ""@), ("date"@, ""@), ("id"@, ""@), ("whoami"@, ""@),
            ],
{
}

/// What read-only mode runs is bounded by the allowlist: every non-empty
/// sub-command of an accepted command tokenizes, and its binary is `find`
/// (without `-exec`, `-delete` or `-ok`) or an allowlisted binary whose
/// arguments begin with the allowlisted subcommand. `sed` is never run,
/// whatever its arguments.
pub proof fn lemma_read_only_runs_only_allowlisted(cmd: Seq<char>)
    requires
        spec_validate_read_only(cmd) is Ok,
    ensures
        forall|k: int|
            0 <= k < spec_split_commands(cmd).len() && trim(#[trigger] spec_split_commands(cmd)[k].1).len() > 0
                ==> (spec_tokenize(trim(spec_split_commands(cmd)[k].1)) matches Ok(parts) && (parts.len() == 0 || {
                let bin = parts[0];
                let rest = join(parts.skip(1), seq![' ']);
                &&& bin != "sed"@
                &&& (bin == "find"@ && !contains_sub(rest, "-exec"@) && !contains_sub(rest, "-delete"@)
                    && !contains_sub(rest, "-ok"@)) || (exists|j: int|
                    0 <= j < read_only_allowlist().len() && #[trigger] read_only_allowlist()[j].0 == bin
                        && prefix_ok(rest, read_only_allowlist()[j].1))
            })),
{
    reveal_strlit("sed");
    reveal_strlit("find");
    let subs = spec_split_commands(cmd);
    assert forall|k: int|
        0 <= k < subs.len() && trim(#[trigger] subs[k].1).len() > 0 implies (spec_tokenize(trim(subs[k].1)) matches Ok(
        parts,
    ) && (parts.len() == 0 || {
        let bin = parts[0];
        let rest = join(parts.skip(1), seq![' ']);
        &&& bin != "sed"@
        &&& (bin == "find"@ && !contains_sub(rest, "-exec"@) && !contains_sub(rest, "-delete"@) && !contains_sub(
            rest,
            "-ok"@,
        )) || (exists|j: int|
            0 <= j < read_only_allowlist().len() && #[trigger] read_only_allowlist()[j].0 == bin && prefix_ok(
                rest,
                read_only_allowlist()[j].1,
            ))
    })) by {
        lemma_first_rejected_none(subs, 0, k);
        assert("find"@.len() != "sed"@.len());
    }
}

} // verus!

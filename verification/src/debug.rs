//! The debug log: where it is kept, and the summary `/omd-debug` shows.
use vstd::prelude::*;
use crate::paths::{join_path, path_join};
use crate::policy::{spec_phase_tools, PhaseToolPolicy};
use crate::state::OmdSessionState;
use crate::text::{
    append_str, append_string, char_width, chars_of, decimal, find_char, find_from,
    lemma_find_from_bounds, lemma_find_from_shift, opt_string_view, push_decimal, str_eq,
    str_views, string_from, string_of_range, string_views, sub_vec, utf8_len, utf8_len_exec, utf8_prefix,
    utf8_prefix_exec,
};
use crate::types::{spec_from_agent_and_name, OmdPhase};

verus! {

/// The result of `str::to_uppercase`: `s` in upper case.
pub uninterp spec fn uppercase(s: Seq<char>) -> Seq<char>;

/// Calls `str::to_uppercase`; claims that the result is the named upper
/// case of `s`.
#[verifier::external_body]
fn to_uppercase_call(s: &str) -> (r: String)
    ensures
        r@ == uppercase(s@),
{
    s.to_uppercase()
}

/// The `detail` field of a debug log entry.
#[derive(Debug)]
pub enum DetailField {
    Missing,
    Text(String),
    /// Any other JSON value, as JSON text.
    Other(String),
}

/// One entry of the debug log, as far as the summary reads it: each field
/// is present when the entry holds it as a string.
#[derive(Debug)]
pub struct DebugEntry {
    pub ts: Option<String>,
    pub event: Option<String>,
    pub tool: Option<String>,
    pub status: Option<String>,
    pub detail: DetailField,
    pub from: Option<String>,
    pub to: Option<String>,
    pub raw: Option<String>,
    pub agent: Option<String>,
    pub phase: Option<String>,
}

// ───────────────────────────── specification ─────────────────────────────

/// The field's text, or `d` when it is missing.
pub open spec fn or_default(o: Option<String>, d: Seq<char>) -> Seq<char> {
    match o {
        Some(s) => s@,
        None => d,
    }
}

/// The clock time of an RFC 3339 time stamp: what lies between `T` and
/// the zone (`+...` or `Z`); the whole stamp when there is no such part.
pub open spec fn clock_time(ts: Seq<char>) -> Seq<char> {
    let i = find_from(ts, 0, 'T');
    if i >= ts.len() {
        ts
    } else {
        let rest = ts.subrange(i + 1, ts.len() as int);
        let p = find_from(rest, 0, '+');
        let j = if p < rest.len() { p } else { find_from(rest, 0, 'Z') };
        if j < rest.len() {
            rest.subrange(0, j)
        } else {
            ts
        }
    }
}

/// The detail when it is text, else nothing.
pub open spec fn detail_text(d: DetailField) -> Option<Seq<char>> {
    match d {
        DetailField::Text(s) => Some(s@),
        _ => None,
    }
}

/// The detail as shown for events without a layout of their own.
pub open spec fn detail_shown(d: DetailField) -> Seq<char> {
    match d {
        DetailField::Missing => Seq::empty(),
        DetailField::Text(s) => s@,
        DetailField::Other(j) => j@,
    }
}

/// At most the first 60 bytes of a skipped evidence item.
pub open spec fn skip_preview(raw: Seq<char>) -> Seq<char> {
    if utf8_len(raw) > 60 {
        utf8_prefix(raw, 60)
    } else {
        raw
    }
}

/// 60 bytes into `raw` is a character boundary, when it is longer (the
/// preview is cut there).
pub open spec fn preview_cut_ok(raw: Seq<char>) -> bool {
    utf8_len(raw) > 60 ==> utf8_len(utf8_prefix(raw, 60)) == 60
}

/// The status of an entry in upper case, as the summary shows it.
pub open spec fn shown_status(e: DebugEntry) -> Seq<char> {
    uppercase(or_default(e.status, "?"@))
}

/// The statuses of the entries in upper case, in order.
pub open spec fn shown_statuses(es: Seq<DebugEntry>) -> Seq<Seq<char>> {
    Seq::new(es.len(), |k: int| shown_status(es[k]))
}

/// The detail column of an event line, with `st` the entry's status in
/// upper case.
pub open spec fn entry_detail(e: DebugEntry, st: Seq<char>) -> Seq<char> {
    let ev = or_default(e.event, "?"@);
    if ev == "tool_call"@ {
        let tool = or_default(e.tool, "?"@);
        match detail_text(e.detail) {
            Some(d) => if d.len() == 0 {
                tool + " -> "@ + st
            } else {
                tool + " -> "@ + st + " ("@ + d + ")"@
            },
            None => tool + " -> "@ + st,
        }
    } else if ev == "phase_transition"@ || ev == "phase_transition_failed"@ || ev == "mode_switch"@ {
        or_default(e.from, "?"@) + " -> "@ + or_default(e.to, "?"@)
    } else if ev == "evidence_skip"@ {
        "skipped: "@ + skip_preview(or_default(e.raw, "?"@))
    } else if ev == "turn_start"@ || ev == "turn_end"@ || ev == "stall_hint"@ {
        "agent="@ + or_default(e.agent, "?"@)
    } else {
        detail_shown(e.detail)
    }
}

/// One line of the recent events, with `st` the entry's status in upper
/// case.
pub open spec fn event_line(e: DebugEntry, st: Seq<char>) -> Seq<char> {
    "  "@ + clock_time(or_default(e.ts, "?"@)) + " ["@ + or_default(e.event, "?"@) + "] "@ + entry_detail(e, st)
        + "\n"@
}

/// The event lines of `es`, in order, with `sts` their statuses in upper
/// case.
pub open spec fn event_lines(es: Seq<DebugEntry>, sts: Seq<Seq<char>>) -> Seq<char>
    decreases es.len(),
{
    if es.len() == 0 {
        Seq::empty()
    } else {
        event_lines(es.drop_last(), sts.take(es.len() - 1)) + event_line(es.last(), sts[es.len() - 1])
    }
}

/// The entry is blocked tool call.
pub open spec fn is_blocked(e: DebugEntry) -> bool {
    or_default(e.status, ""@) == "blocked"@
}

/// The entry counts as an error: a failed transition, a blocked tool call
/// or a skipped evidence item.
pub open spec fn is_error(e: DebugEntry) -> bool {
    or_default(e.event, ""@) == "phase_transition_failed"@ || is_blocked(e) || or_default(e.event, ""@)
        == "evidence_skip"@
}

/// Number of error entries.
pub open spec fn error_count(es: Seq<DebugEntry>) -> nat
    decreases es.len(),
{
    if es.len() == 0 {
        0
    } else {
        error_count(es.drop_last()) + if is_error(es.last()) { 1nat } else { 0nat }
    }
}

/// The line an error entry that is no blocked call contributes.
pub open spec fn error_line(e: DebugEntry) -> Seq<char> {
    if is_blocked(e) {
        Seq::empty()
    } else if or_default(e.event, ""@) == "phase_transition_failed"@ {
        "  phase_transition_failed: "@ + match detail_text(e.detail) {
            Some(d) => d,
            None => "?"@,
        } + "\n"@
    } else if or_default(e.event, ""@) == "evidence_skip"@ {
        "  evidence_skip\n"@
    } else {
        Seq::empty()
    }
}

/// The lines of the error entries that are no blocked calls, in order.
pub open spec fn error_lines(es: Seq<DebugEntry>) -> Seq<char>
    decreases es.len(),
{
    if es.len() == 0 {
        Seq::empty()
    } else {
        error_lines(es.drop_last()) + error_line(es.last())
    }
}

/// The key a blocked call is counted under.
pub open spec fn blocked_key(e: DebugEntry) -> Seq<char> {
    or_default(e.tool, "?"@) + " blocked in "@ + or_default(e.phase, "?"@) + " phase"@
}

/// Index of the group with key `k`.
pub open spec fn group_index(gs: Seq<(Seq<char>, nat)>, k: Seq<char>, i: int) -> Option<int>
    decreases gs.len() - i,
{
    if i < 0 || i >= gs.len() {
        None
    } else if gs[i].0 == k {
        Some(i)
    } else {
        group_index(gs, k, i + 1)
    }
}

/// The blocked calls of `es` counted per key, keys in order of first
/// appearance.
pub open spec fn blocked_groups(es: Seq<DebugEntry>) -> Seq<(Seq<char>, nat)>
    decreases es.len(),
{
    if es.len() == 0 {
        seq![]
    } else {
        let gs = blocked_groups(es.drop_last());
        let e = es.last();
        if !is_blocked(e) {
            gs
        } else {
            match group_index(gs, blocked_key(e), 0) {
                Some(i) => gs.update(i, (gs[i].0, gs[i].1 + 1)),
                None => gs.push((blocked_key(e), 1nat)),
            }
        }
    }
}

/// The lines of the counted groups.
pub open spec fn group_lines(gs: Seq<(Seq<char>, nat)>) -> Seq<char>
    decreases gs.len(),
{
    if gs.len() == 0 {
        Seq::empty()
    } else {
        group_lines(gs.drop_last()) + "  "@ + decimal(gs.last().1) + "x "@ + gs.last().0 + "\n"@
    }
}

/// The line a phase transition contributes to the history.
pub open spec fn history_line(e: DebugEntry) -> Seq<char> {
    if or_default(e.event, ""@) == "phase_transition"@ {
        "  "@ + or_default(e.from, "?"@) + " -> "@ + or_default(e.to, "?"@) + " ("@ + clock_time(
            or_default(e.ts, "?"@),
        ) + ")\n"@
    } else {
        Seq::empty()
    }
}

/// The history lines of `es`, in order.
pub open spec fn history_lines(es: Seq<DebugEntry>) -> Seq<char>
    decreases es.len(),
{
    if es.len() == 0 {
        Seq::empty()
    } else {
        history_lines(es.drop_last()) + history_line(es.last())
    }
}

/// There is a phase transition among `es`.
pub open spec fn has_transition(es: Seq<DebugEntry>) -> bool {
    exists|i: int| 0 <= i < es.len() && or_default(#[trigger] es[i].event, ""@) == "phase_transition"@
}

/// The tool list wrapped at about 70 columns: text, line length in
/// bytes, and whether no tool was written yet.
pub open spec fn wrap_tools(tools: Seq<Seq<char>>) -> (Seq<char>, int, bool)
    decreases tools.len(),
{
    if tools.len() == 0 {
        (Seq::empty(), 2, true)
    } else {
        let (text, line, first) = wrap_tools(tools.drop_last());
        let t = tools.last();
        let add = (if first { 0int } else { 2int }) + utf8_len(t);
        if !first && line + add > 72 {
            (text + ",\n  "@ + t, 2 + utf8_len(t) as int, false)
        } else {
            (text + (if first { Seq::empty() } else { ", "@ }) + t, line + add, false)
        }
    }
}

/// The session lines of the summary.
pub open spec fn header_part(agent: Seq<char>, phase: Seq<char>, session_id: Seq<char>, started_at: Seq<char>) -> Seq<char> {
    "=== OMD Debug Status ===\n"@ + "Agent: "@ + agent + "\n"@ + "Phase: "@ + phase + "\n"@ + "Session: "@
        + session_id + "\n"@ + "Started: "@ + started_at + "\n"@ + "\n"@
}

/// The tools part of the summary.
pub open spec fn tools_part(tools: Seq<Seq<char>>) -> Seq<char> {
    "Available tools ("@ + decimal(tools.len()) + "):\n  "@ + wrap_tools(tools).0 + (if tools.len() > 0 {
        "\n"@
    } else {
        Seq::empty()
    })
}

/// The recent events part of the summary.
pub open spec fn events_part(es: Seq<DebugEntry>, sts: Seq<Seq<char>>) -> Seq<char> {
    if es.len() > 0 {
        "\nRecent events (last "@ + decimal(es.len()) + "):\n"@ + event_lines(es, sts)
    } else {
        Seq::empty()
    }
}

/// The errors part of the summary.
pub open spec fn errors_part(es: Seq<DebugEntry>) -> Seq<char> {
    if error_count(es) > 0 {
        "\nErrors (last "@ + decimal(error_count(es)) + "):\n"@ + error_lines(es) + group_lines(
            blocked_groups(es),
        )
    } else {
        Seq::empty()
    }
}

/// The phase history part of the summary.
pub open spec fn history_part(es: Seq<DebugEntry>) -> Seq<char> {
    if has_transition(es) {
        "\nPhase history:\n"@ + history_lines(es)
    } else {
        Seq::empty()
    }
}

/// The summary `/omd-debug` shows, with `sts` the entries' statuses in
/// upper case.
pub open spec fn spec_summary_with(
    agent: Seq<char>,
    phase: Seq<char>,
    session_id: Seq<char>,
    started_at: Seq<char>,
    tools: Seq<Seq<char>>,
    es: Seq<DebugEntry>,
    sts: Seq<Seq<char>>,
) -> Seq<char> {
    header_part(agent, phase, session_id, started_at) + tools_part(tools) + events_part(es, sts) + errors_part(es)
        + history_part(es)
}

/// The summary `/omd-debug` shows.
pub open spec fn spec_summary(
    agent: Seq<char>,
    phase: Seq<char>,
    session_id: Seq<char>,
    started_at: Seq<char>,
    tools: Seq<Seq<char>>,
    es: Seq<DebugEntry>,
) -> Seq<char> {
    spec_summary_with(agent, phase, session_id, started_at, tools, es, shown_statuses(es))
}

/// The entry can be summarized: when it records skipped evidence, the
/// preview of its raw text is cut on a character boundary (other entries
/// show no preview).
pub open spec fn entry_cut_ok(e: DebugEntry) -> bool {
    or_default(e.event, "?"@) == "evidence_skip"@ ==> preview_cut_ok(or_default(e.raw, "?"@))
}

/// The entries can be summarized: every skipped evidence item is cut on a
/// character boundary.
pub open spec fn entries_summarizable(es: Seq<DebugEntry>) -> bool {
    forall|i: int| 0 <= i < es.len() ==> entry_cut_ok(#[trigger] es[i])
}

// ───────────────────────────── executable ─────────────────────────────

fn text_or<'a>(o: &'a Option<String>, d: &'a str) -> (r: &'a str)
    ensures
        r@ == or_default(*o, d@),
{
    match o {
        Some(s) => s.as_str(),
        None => d,
    }
}

fn push_clock_time(out: &mut String, ts: &str)
    ensures
        final(out)@ == old(out)@ + clock_time(ts@),
{
    let v = chars_of(ts);
    let i = find_char(&v, 0, 'T');
    if i >= v.len() {
        append_str(out, ts);
        return;
    }
    let rest = sub_vec(&v, i + 1, v.len());
    let p = find_char(&rest, 0, '+');
    let j = if p < rest.len() { p } else { find_char(&rest, 0, 'Z') };
    if j < rest.len() {
        crate::text::append_range(out, &rest, 0, j);
    } else {
        append_str(out, ts);
    }
}

fn push_entry_detail(out: &mut String, e: &DebugEntry, up: &String)
    requires
        entry_cut_ok(*e),
    ensures
        final(out)@ == old(out)@ + entry_detail(*e, up@),
{
    let ev = text_or(&e.event, "?");
    if str_eq(ev, "tool_call") {
        append_str(out, text_or(&e.tool, "?"));
        append_str(out, " -> ");
        append_string(out, up);
        match &e.detail {
            DetailField::Text(d) => {
                if !d.as_str().is_empty() {
                    append_str(out, " (");
                    append_string(out, d);
                    append_str(out, ")");
                }
            },
            _ => {},
        }
    } else if str_eq(ev, "phase_transition") || str_eq(ev, "phase_transition_failed") || str_eq(ev, "mode_switch") {
        append_str(out, text_or(&e.from, "?"));
        append_str(out, " -> ");
        append_str(out, text_or(&e.to, "?"));
    } else if str_eq(ev, "evidence_skip") {
        append_str(out, "skipped: ");
        let raw = text_or(&e.raw, "?");
        if utf8_len_exec(raw) > 60 {
            let p = utf8_prefix_exec(raw, 60);
            append_string(out, &p);
        } else {
            append_str(out, raw);
        }
    } else if str_eq(ev, "turn_start") || str_eq(ev, "turn_end") || str_eq(ev, "stall_hint") {
        append_str(out, "agent=");
        append_str(out, text_or(&e.agent, "?"));
    } else {
        match &e.detail {
            DetailField::Missing => {
                assert(old(out)@ + Seq::<char>::empty() =~= old(out)@);
            },
            DetailField::Text(s) => append_string(out, s),
            DetailField::Other(j) => append_string(out, j),
        }
    }
}

fn push_event_line(out: &mut String, e: &DebugEntry, up: &String)
    requires
        entry_cut_ok(*e),
    ensures
        final(out)@ == old(out)@ + event_line(*e, up@),
{
    append_str(out, "  ");
    push_clock_time(out, text_or(&e.ts, "?"));
    append_str(out, " [");
    append_str(out, text_or(&e.event, "?"));
    append_str(out, "] ");
    push_entry_detail(out, e, up);
    append_str(out, "\n");
}

fn is_blocked_exec(e: &DebugEntry) -> (r: bool)
    ensures
        r == is_blocked(*e),
{
    str_eq(text_or(&e.status, ""), "blocked")
}

fn is_error_exec(e: &DebugEntry) -> (r: bool)
    ensures
        r == is_error(*e),
{
    let ev = text_or(&e.event, "");
    str_eq(ev, "phase_transition_failed") || is_blocked_exec(e) || str_eq(ev, "evidence_skip")
}

fn push_error_line(out: &mut String, e: &DebugEntry)
    ensures
        final(out)@ == old(out)@ + error_line(*e),
{
    let ev = text_or(&e.event, "");
    if is_blocked_exec(e) {
        assert(old(out)@ + Seq::<char>::empty() =~= old(out)@);
    } else if str_eq(ev, "phase_transition_failed") {
        append_str(out, "  phase_transition_failed: ");
        match &e.detail {
            DetailField::Text(d) => append_string(out, d),
            _ => append_str(out, "?"),
        }
        append_str(out, "\n");
    } else if str_eq(ev, "evidence_skip") {
        append_str(out, "  evidence_skip\n");
    } else {
        assert(old(out)@ + Seq::<char>::empty() =~= old(out)@);
    }
}

fn push_history_line(out: &mut String, e: &DebugEntry)
    ensures
        final(out)@ == old(out)@ + history_line(*e),
{
    if str_eq(text_or(&e.event, ""), "phase_transition") {
        append_str(out, "  ");
        append_str(out, text_or(&e.from, "?"));
        append_str(out, " -> ");
        append_str(out, text_or(&e.to, "?"));
        append_str(out, " (");
        push_clock_time(out, text_or(&e.ts, "?"));
        append_str(out, ")\n");
    } else {
        assert(old(out)@ + Seq::<char>::empty() =~= old(out)@);
    }
}

fn blocked_key_exec(e: &DebugEntry) -> (r: String)
    ensures
        r@ == blocked_key(*e),
{
    let mut k = string_from(text_or(&e.tool, "?"));
    append_str(&mut k, " blocked in ");
    append_str(&mut k, text_or(&e.phase, "?"));
    append_str(&mut k, " phase");
    k
}

/// The views of counted groups.
pub open spec fn group_views(gs: Seq<(String, usize)>) -> Seq<(Seq<char>, nat)> {
    gs.map_values(|g: (String, usize)| (g.0@, g.1 as nat))
}

fn find_group(gs: &Vec<(String, usize)>, key: &String) -> (r: Option<usize>)
    ensures
        match group_index(group_views(gs@), key@, 0) {
            Some(i) => r == Some(i as usize) && 0 <= i < gs.len(),
            None => r is None,
        },
{
    let mut i: usize = 0;
    while i < gs.len()
        invariant
            i <= gs.len(),
            group_index(group_views(gs@), key@, 0) == group_index(group_views(gs@), key@, i as int),
        decreases gs.len() - i,
    {
        if crate::text::string_eq_str(&gs[i].0, key.as_str()) {
            assert(group_views(gs@)[i as int].0 == key@);
            return Some(i);
        }
        i += 1;
    }
    None
}

fn push_tools_part(out: &mut String, available_tools: &[&str])
    ensures
        final(out)@ == old(out)@ + tools_part(str_views(available_tools@)),
{
    let ghost tools = str_views(available_tools@);
    let ghost o0 = out@;
    append_str(out, "Available tools (");
    push_decimal(out, available_tools.len() as u64);
    append_str(out, "):\n  ");
    let ghost head = out@;
    // Wrap at about 70 columns.
    let mut line_len: u128 = 2;
    let mut first = true;
    let mut k: usize = 0;
    assert(tools.take(0) =~= Seq::<Seq<char>>::empty());
    proof {
        reveal_strlit(", ");
        assert(utf8_len(", "@) == 2) by {
            assert(", "@ =~= seq![','] + seq![' ']);
            crate::text::lemma_utf8_len_concat(seq![','], seq![' ']);
            crate::text::lemma_utf8_len_single(',');
            crate::text::lemma_utf8_len_single(' ');
        }
    }
    while k < available_tools.len()
        invariant
            k <= available_tools.len(),
            tools == str_views(available_tools@),
            utf8_len(", "@) == 2,
            out@ == head + wrap_tools(tools.take(k as int)).0,
            line_len == wrap_tools(tools.take(k as int)).1,
            first == wrap_tools(tools.take(k as int)).2,
            line_len <= 4 * usize::MAX + 72,
        decreases available_tools.len() - k,
    {
        let tool = available_tools[k];
        let tl = utf8_len_exec(tool);
        let add: u128 = if first { tl } else { 2 + tl };
        proof {
            assert(tools.take(k + 1).drop_last() =~= tools.take(k as int));
            assert(tools.take(k + 1).last() == tool@);
        }
        if !first && line_len + add > 72 {
            append_str(out, ",\n  ");
            append_str(out, tool);
            line_len = 2 + tl;
        } else {
            if !first {
                append_str(out, ", ");
            } else {
                assert(out@ + Seq::<char>::empty() =~= out@);
            }
            append_str(out, tool);
            line_len = line_len + add;
        }
        first = false;
        k += 1;
    }
    assert(tools.take(available_tools@.len() as int) =~= tools);
    if available_tools.len() > 0 {
        append_str(out, "\n");
    } else {
        assert(out@ + Seq::<char>::empty() =~= out@);
    }
}

fn push_events_part(out: &mut String, entries: &[DebugEntry], statuses: &[String])
    requires
        entries_summarizable(entries@),
        statuses@.len() == entries@.len(),
    ensures
        final(out)@ == old(out)@ + events_part(entries@, string_views(statuses@)),
{
    let ghost sts = string_views(statuses@);
    let ghost es = entries@;
    if entries.len() > 0 {
        append_str(out, "\nRecent events (last ");
        push_decimal(out, entries.len() as u64);
        append_str(out, "):\n");
        let ghost h = out@;
        let mut k: usize = 0;
        assert(es.take(0) =~= Seq::<DebugEntry>::empty());
        while k < entries.len()
            invariant
                k <= entries.len(),
                es == entries@,
                entries_summarizable(es),
                statuses@.len() == entries@.len(),
                sts == string_views(statuses@),
                out@ == h + event_lines(es.take(k as int), sts.take(k as int)),
            decreases entries.len() - k,
        {
            assert(es.take(k + 1).drop_last() =~= es.take(k as int));
            assert(sts.take(k + 1).take(k as int) =~= sts.take(k as int));
            assert(sts.take(k + 1)[k as int] == statuses@[k as int]@);
            assert(entry_cut_ok(es[k as int]));
            push_event_line(out, &entries[k], &statuses[k]);
            k += 1;
        }
        assert(es.take(es.len() as int) =~= es);
        assert(sts.take(es.len() as int) =~= sts);
    } else {
        assert(out@ + Seq::<char>::empty() =~= out@);
    }
}

fn push_errors_part(out: &mut String, entries: &[DebugEntry])
    ensures
        final(out)@ == old(out)@ + errors_part(entries@),
{
    let ghost es = entries@;
    let mut n_errors: usize = 0;
    let mut groups: Vec<(String, usize)> = Vec::new();
    let mut lines = string_from("");
    proof {
        reveal_strlit("");
    }
    let mut k: usize = 0;
    assert(es.take(0) =~= Seq::<DebugEntry>::empty());
    while k < entries.len()
        invariant
            k <= entries.len(),
            es == entries@,
            n_errors == error_count(es.take(k as int)),
            n_errors <= k,
            lines@ == error_lines(es.take(k as int)),
            group_views(groups@) == blocked_groups(es.take(k as int)),
            forall|g: int| 0 <= g < groups@.len() ==> #[trigger] groups@[g].1 <= k,
        decreases entries.len() - k,
    {
        let e = &entries[k];
        assert(es.take(k + 1).drop_last() =~= es.take(k as int));
        assert(es.take(k + 1).last() == *e);
        if is_error_exec(e) {
            n_errors += 1;
        }
        push_error_line(&mut lines, e);
        if is_blocked_exec(e) {
            let key = blocked_key_exec(e);
            let ghost before = groups@;
            match find_group(&groups, &key) {
                Some(i) => {
                    let c = groups[i].1;
                    let kk = string_from(groups[i].0.as_str());
                    groups.set(i, (kk, c + 1));
                    assert(group_views(groups@) =~= group_views(before).update(
                        i as int,
                        (group_views(before)[i as int].0, group_views(before)[i as int].1 + 1),
                    ));
                },
                None => {
                    groups.push((key, 1));
                    assert(group_views(groups@) =~= group_views(before).push((blocked_key(*e), 1nat)));
                },
            }
        }
        k += 1;
    }
    assert(es.take(es.len() as int) =~= es);
    if n_errors > 0 {
        append_str(out, "\nErrors (last ");
        push_decimal(out, n_errors as u64);
        append_str(out, "):\n");
        append_string(out, &lines);
        let ghost h = out@;
        let ghost gv = group_views(groups@);
        let mut g: usize = 0;
        assert(gv.take(0) =~= Seq::<(Seq<char>, nat)>::empty());
        while g < groups.len()
            invariant
                g <= groups.len(),
                gv == group_views(groups@),
                out@ == h + group_lines(gv.take(g as int)),
            decreases groups.len() - g,
        {
            assert(gv.take(g + 1).drop_last() =~= gv.take(g as int));
            append_str(out, "  ");
            push_decimal(out, groups[g].1 as u64);
            append_str(out, "x ");
            append_string(out, &groups[g].0);
            append_str(out, "\n");
            g += 1;
        }
        assert(gv.take(gv.len() as int) =~= gv);
    } else {
        assert(out@ + Seq::<char>::empty() =~= out@);
    }
}

fn push_history_part(out: &mut String, entries: &[DebugEntry])
    ensures
        final(out)@ == old(out)@ + history_part(entries@),
{
    let ghost es = entries@;
    let mut history = string_from("");
    proof {
        reveal_strlit("");
    }
    let mut any = false;
    let mut k: usize = 0;
    assert(es.take(0) =~= Seq::<DebugEntry>::empty());
    while k < entries.len()
        invariant
            k <= entries.len(),
            es == entries@,
            history@ == history_lines(es.take(k as int)),
            any == exists|i: int| 0 <= i < k && or_default(#[trigger] es[i].event, ""@) == "phase_transition"@,
        decreases entries.len() - k,
    {
        assert(es.take(k + 1).drop_last() =~= es.take(k as int));
        let e = &entries[k];
        if str_eq(text_or(&e.event, ""), "phase_transition") {
            any = true;
        }
        push_history_line(&mut history, e);
        k += 1;
    }
    assert(es.take(es.len() as int) =~= es);
    if any {
        append_str(out, "\nPhase history:\n");
        append_string(out, &history);
    } else {
        assert(out@ + Seq::<char>::empty() =~= out@);
    }
}

/// The debug logger of a workspace; the log is `.omd/debug.jsonl`.
pub struct OmdDebugLogger {
    path: String,
}

impl OmdDebugLogger {
    /// The log file.
    pub closed spec fn spec_path(&self) -> Seq<char> {
        self.path@
    }

    /// The logger of `workspace`.
    pub fn new(workspace: &str) -> (r: Self)
        ensures
            r.spec_path() == path_join(path_join(workspace@, ".omd"@), "debug.jsonl"@),
    {
        let omd = join_path(workspace, ".omd");
        OmdDebugLogger { path: join_path(omd.as_str(), "debug.jsonl") }
    }

    /// The log file.
    pub fn path(&self) -> (r: &str)
        ensures
            r@ == self.spec_path(),
    {
        self.path.as_str()
    }

    /// The summary `/omd-debug` shows for a session (`spec_summary`): the
    /// session, the available tools wrapped at about 70 columns, the
    /// recent `entries`, the errors among them (blocked calls counted per
    /// tool and phase, in order of first appearance), and the phase
    /// history. Each entry's status is upper-cased (`str::to_uppercase`)
    /// and the rest is `format_summary_with`.
    pub fn format_summary(
        &self,
        agent: &str,
        phase: &str,
        session_id: &str,
        started_at: &str,
        available_tools: &[&str],
        entries: &[DebugEntry],
    ) -> (r: String)
        requires
            entries_summarizable(entries@),
        ensures
            r@ == spec_summary(agent@, phase@, session_id@, started_at@, str_views(available_tools@), entries@),
    {
        let mut statuses: Vec<String> = Vec::new();
        let mut k: usize = 0;
        while k < entries.len()
            invariant
                k <= entries.len(),
                string_views(statuses@) == shown_statuses(entries@).take(k as int),
            decreases entries.len() - k,
        {
            let up = to_uppercase_call(text_or(&entries[k].status, "?"));
            let ghost before = statuses@;
            statuses.push(up);
            assert(string_views(statuses@) =~= string_views(before).push(up@));
            assert(shown_statuses(entries@).take(k + 1) =~= shown_statuses(entries@).take(k as int).push(
                shown_status(entries@[k as int]),
            ));
            k += 1;
        }
        assert(shown_statuses(entries@).take(entries@.len() as int) =~= shown_statuses(entries@));
        Self::format_summary_with(agent, phase, session_id, started_at, available_tools, entries, &statuses)
    }

    /// The summary `/omd-debug` shows (`spec_summary_with`), given each
    /// entry's status in upper case in `statuses`.
    pub fn format_summary_with(
        agent: &str,
        phase: &str,
        session_id: &str,
        started_at: &str,
        available_tools: &[&str],
        entries: &[DebugEntry],
        statuses: &[String],
    ) -> (r: String)
        requires
            entries_summarizable(entries@),
            statuses@.len() == entries@.len(),
        ensures
            r@ == spec_summary_with(
                agent@,
                phase@,
                session_id@,
                started_at@,
                str_views(available_tools@),
                entries@,
                string_views(statuses@),
            ),
    {
        let mut out = string_from("=== OMD Debug Status ===\n");
        append_str(&mut out, "Agent: ");
        append_str(&mut out, agent);
        append_str(&mut out, "\n");
        append_str(&mut out, "Phase: ");
        append_str(&mut out, phase);
        append_str(&mut out, "\n");
        append_str(&mut out, "Session: ");
        append_str(&mut out, session_id);
        append_str(&mut out, "\n");
        append_str(&mut out, "Started: ");
        append_str(&mut out, started_at);
        append_str(&mut out, "\n");
        append_str(&mut out, "\n");
        push_tools_part(&mut out, available_tools);
        push_events_part(&mut out, entries, statuses);
        push_errors_part(&mut out, entries);
        push_history_part(&mut out, entries);
        out
    }
}

/// The event name the debug log gives a phase transition.
pub fn phase_transition_event(success: bool) -> (r: &'static str)
    ensures
        r@ == (if success { "phase_transition"@ } else { "phase_transition_failed"@ }),
{
    if success { "phase_transition" } else { "phase_transition_failed" }
}

} // verus!

# omd

Workflow orchestration for coding agents, verified with Verus.

Four agents (Tongtian, Fuxi, Pangu, Hongjun) each move through a fixed set of
phases. Each phase has a tool allowlist and a shell tier. Phase transitions
are gated by typed evidence. Pangu breaks a plan into a task graph and
delegates tasks to a registry of worker agents. A session is an event log
that can be replayed after a crash.

## Layout

- `src/`: the verified library. Every function carries a `requires`/`ensures`
  contract over spec functions, and the public `lemma_*` proof functions state
  the laws the library keeps (for example, a model cannot approve its own
  evidence skip, restricted phases register only allowed tools, and at most
  one task is active).
  - `shell_parser`, `shell_policy`: argv tokenizing, chain splitting,
    quote-aware detection of pipes, redirects and substitutions, and the
    read-only shell allowlist.
  - `types`, `fsm`, `policy`, `transition_guards`: phases, per-agent state
    machines, per-phase tool allowlists and evidence requirements.
  - `tasks`, `workers`, `delegation`: the task graph, the worker registry and
    delegation planning.
  - `evidence`, `scope`: evidence judging (`git diff --stat` parsing
    included) and write-scope checks.
  - `state`, `runtime`: session state, event replay, and the runtime, which
    decides and queues its store effects.
  - `debug`, `commands`: the `/omd-debug` summary, slash commands and the
    per-turn tool registry plan.
- `app/`: the parts that touch the outside world: session files and locks,
  the debug log, git and the filesystem for evidence, JSON for the tools,
  and the shared async runtime handle. It performs the effects the library
  queues and converts values; it makes no decisions.
- `tests/`: tests of the library on concrete values.

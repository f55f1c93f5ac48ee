//! The selection session: parsing what the fuzzy-finder reported, the state
//! carried between its invocations, and the transition taken on each exit.

use vstd::prelude::*;

use crate::config::{Config, Keybinds};
use crate::filter::{
    dedup_first, filtered_text, get_filtered_data_from_lines, nonempty, pattern_compiles,
    snapshot_lines, CompiledRegex,
};
use crate::text::{split_nl, split_on_newline, trim, trim_spec};

verus! {

/// What the fuzzy-finder reported, recovered from its exit code and output.
pub enum FzfOutcome {
    /// Exit code 130: the user cancelled.
    Cancelled,
    /// Exit code 2: the tool itself failed.
    Fatal,
    /// A key press, with the query and the selection, each empty when the
    /// output did not carry it.
    Keyed { query: String, key: String, selection: String },
}

/// The output lines of the fuzzy-finder: its standard output, trimmed, then
/// split at newlines.
pub open spec fn output_lines(stdout: Seq<char>) -> Seq<Seq<char>> {
    split_nl(trim_spec(stdout))
}

/// The `(query, key, selection)` triple encoded by the output lines and the
/// exit code. The tool omits the query line when a selection exists but no
/// query was echoed, and omits the selection line when no match existed; the
/// exit code tells the two two-line cases apart.
pub open spec fn recovered_triple(code: int, ls: Seq<Seq<char>>) -> (Seq<char>, Seq<char>, Seq<
    char,
>) {
    if ls.len() == 3 {
        (ls[0], ls[1], ls[2])
    } else if ls.len() == 2 && code == 0 {
        (Seq::<char>::empty(), ls[0], ls[1])
    } else if ls.len() == 2 {
        (ls[0], ls[1], Seq::<char>::empty())
    } else if ls.len() == 1 {
        (Seq::<char>::empty(), ls[0], Seq::<char>::empty())
    } else {
        (Seq::<char>::empty(), Seq::<char>::empty(), Seq::<char>::empty())
    }
}

/// Recovers the fuzzy-finder's report from its exit code and raw standard
/// output. Total: every combination of line count and exit code maps to a
/// cancellation, a fatal error, or a defined `(query, key, selection)`.
pub fn parse_fzf_output(exit_code: i32, stdout: &str) -> (r: FzfOutcome)
    ensures
        exit_code == 130 ==> r is Cancelled,
        exit_code == 2 ==> r is Fatal,
        exit_code != 130 && exit_code != 2 ==> ({
            let t = recovered_triple(exit_code as int, output_lines(stdout@));
            r matches FzfOutcome::Keyed { query, key, selection } && query@ == t.0 && key@ == t.1
                && selection@ == t.2
        }),
{
    if exit_code == 130 {
        return FzfOutcome::Cancelled;
    }
    if exit_code == 2 {
        return FzfOutcome::Fatal;
    }
    let trimmed = trim(stdout);
    let ls = split_on_newline(trimmed);
    let ghost lv = ls.deep_view();
    proof {
        assert(lv == output_lines(stdout@));
    }
    if ls.len() == 3 {
        proof {
            assert(ls@[0]@ == lv[0] && ls@[1]@ == lv[1] && ls@[2]@ == lv[2]);
        }
        FzfOutcome::Keyed { query: ls[0].clone(), key: ls[1].clone(), selection: ls[2].clone() }
    } else if ls.len() == 2 && exit_code == 0 {
        FzfOutcome::Keyed { query: String::new(), key: ls[0].clone(), selection: ls[1].clone() }
    } else if ls.len() == 2 {
        FzfOutcome::Keyed { query: ls[0].clone(), key: ls[1].clone(), selection: String::new() }
    } else if ls.len() == 1 {
        FzfOutcome::Keyed { query: String::new(), key: ls[0].clone(), selection: String::new() }
    } else {
        FzfOutcome::Keyed { query: String::new(), key: String::new(), selection: String::new() }
    }
}

/// Where the mode index stands after one advance through `n` modes.
pub open spec fn next_mode(i: int, n: int) -> int {
    if i + 1 == n {
        0
    } else {
        i + 1
    }
}

/// The mode index after `k` advances.
pub open spec fn next_mode_k(i: int, n: int, k: nat) -> int
    decreases k,
{
    if k == 0 {
        i
    } else {
        next_mode(next_mode_k(i, n, (k - 1) as nat), n)
    }
}

proof fn lemma_next_mode_k_val(start: int, n: int, k: nat)
    requires
        0 <= start < n,
        k <= n,
    ensures
        next_mode_k(start, n, k) == if start + k < n {
            start + k
        } else {
            start + k - n
        },
    decreases k,
{
    if k > 0 {
        lemma_next_mode_k_val(start, n, (k - 1) as nat);
    }
}

/// Law: advancing the mode once per configured mode returns to the starting
/// mode.
pub proof fn lemma_mode_cycle_round_trip(start: int, n: int)
    requires
        0 <= start < n,
    ensures
        next_mode_k(start, n, n as nat) == start,
{
    lemma_next_mode_k_val(start, n, n as nat);
}

/// The outcome of one session step; the three terminal outcomes end the
/// session.
pub enum StepOutcome {
    /// Show the fuzzy-finder again.
    Continue,
    /// Copy this text to the clipboard, then stop.
    Copy(String),
    /// Insert this text into the pane, then stop.
    Insert(String),
    /// Stop without any side effect.
    Cancelled,
    /// The fuzzy-finder failed; stop and report.
    Fatal,
}

/// An error found while setting a session up.
#[derive(Debug)]
pub enum SetupError {
    /// The configured mode order is empty.
    EmptyModeOrder,
    /// A pattern the regular-expression engine refused, named by its mode.
    BadPattern(String),
}

impl SetupError {
    /// A description of the error.
    pub fn message(&self) -> (r: String)
        ensures
            self is EmptyModeOrder ==> r@ == "the configured mode order is empty"@,
            self matches SetupError::BadPattern(m) ==> r@ == "invalid pattern for mode "@ + m@,
    {
        match self {
            SetupError::EmptyModeOrder => "the configured mode order is empty".to_owned(),
            SetupError::BadPattern(m) => {
                let mut r = "invalid pattern for mode ".to_owned();
                r.append(m.as_str());
                r
            },
        }
    }
}

/// The state a selection session carries between fuzzy-finder invocations:
/// the immutable buffer snapshot, the modes in cycling order with their
/// compiled patterns, the key bindings, and the current mode, query and
/// candidate text.
pub struct Session {
    lines: Vec<String>,
    modes: Vec<(String, CompiledRegex)>,
    keys: Keybinds,
    min_length: u8,
    mode_index: usize,
    query: String,
    filtered: String,
}

impl Session {
    /// The buffer snapshot.
    pub closed spec fn lines_view(&self) -> Seq<Seq<char>> {
        self.lines.deep_view()
    }

    /// How many modes are configured.
    pub closed spec fn mode_count(&self) -> int {
        self.modes@.len() as int
    }

    /// The name of mode `i`.
    pub closed spec fn mode_name_at(&self, i: int) -> Seq<char> {
        self.modes@[i].0@
    }

    /// The pattern of mode `i`.
    pub closed spec fn pattern_at(&self, i: int) -> Seq<char> {
        self.modes@[i].1.pattern_view()
    }

    /// The current mode's position in the cycling order.
    pub closed spec fn mode_index_view(&self) -> int {
        self.mode_index as int
    }

    /// The query carried across invocations.
    pub closed spec fn query_view(&self) -> Seq<char> {
        self.query@
    }

    /// The candidate text for the current mode.
    pub closed spec fn filtered_view(&self) -> Seq<char> {
        self.filtered@
    }

    /// The minimum match length in force.
    pub closed spec fn min_view(&self) -> int {
        self.min_length as int
    }

    /// The key that cycles the filter mode.
    pub closed spec fn filter_key_view(&self) -> Seq<char> {
        self.keys.filter@
    }

    /// The key that copies the selection.
    pub closed spec fn copy_key_view(&self) -> Seq<char> {
        self.keys.copy@
    }

    /// The key that inserts the selection.
    pub closed spec fn insert_key_view(&self) -> Seq<char> {
        self.keys.insert@
    }

    /// The session invariant: at least one mode, the current index in
    /// range, and the candidate text computed by the line filter for the
    /// current mode over the snapshot.
    pub closed spec fn wf(&self) -> bool {
        &&& self.modes@.len() > 0
        &&& self.mode_index < self.modes@.len()
        &&& self.filtered@ == filtered_text(
            self.pattern_at(self.mode_index as int),
            self.lines.deep_view(),
            self.min_length as nat,
        )
    }

    /// What the session invariant promises callers: at least one mode, the
    /// current index in range, and the candidate text equal to the line
    /// filter's output for the current mode over the snapshot. `init`
    /// establishes the invariant and `step` preserves it.
    pub proof fn lemma_session_invariant(&self)
        requires
            self.wf(),
        ensures
            0 < self.mode_count(),
            0 <= self.mode_index_view() < self.mode_count(),
            self.filtered_view() == filtered_text(
                self.pattern_at(self.mode_index_view()),
                self.lines_view(),
                self.min_view() as nat,
            ),
    {
    }

    /// Everything that never changes after setup: snapshot, modes, keys,
    /// and the minimum length.
    pub open spec fn same_setup(&self, other: &Session) -> bool {
        &&& self.lines_view() == other.lines_view()
        &&& self.mode_count() == other.mode_count()
        &&& forall|i: int|
            0 <= i < self.mode_count() ==> self.mode_name_at(i) == other.mode_name_at(i)
                && self.pattern_at(i) == other.pattern_at(i)
        &&& self.min_view() == other.min_view()
        &&& self.filter_key_view() == other.filter_key_view()
        &&& self.copy_key_view() == other.copy_key_view()
        &&& self.insert_key_view() == other.insert_key_view()
    }

    /// Builds the session's initial state from a configuration and a raw
    /// pane capture: snapshot taken, every configured pattern compiled, the
    /// first mode active, the query empty, and the candidate text computed.
    /// Succeeds exactly when the mode order is non-empty and the engine
    /// accepts every configured pattern.
    pub fn init(cfg: &Config, raw_capture: &str) -> (r: Result<Session, SetupError>)
        requires
            cfg.wf(),
        ensures
            cfg.general.regex_order@.len() == 0 <==> r == Err::<Session, SetupError>(
                SetupError::EmptyModeOrder,
            ),
            ({
                let order = cfg.general.regex_order.deep_view();
                r is Ok <==> order.len() > 0 && (forall|i: int|
                    0 <= i < order.len() ==> pattern_compiles(#[trigger] cfg.regex_map()[order[i]]))
            }),
            ({
                let order = cfg.general.regex_order.deep_view();
                match r {
                    Ok(s) => {
                        &&& s.wf()
                        &&& s.mode_count() == order.len()
                        &&& forall|i: int|
                            0 <= i < order.len() ==> s.mode_name_at(i) == order[i]
                                && s.pattern_at(i) == cfg.regex_map()[order[i]]
                        &&& s.mode_index_view() == 0
                        &&& s.query_view() == Seq::<char>::empty()
                        &&& s.lines_view() == dedup_first(nonempty(split_nl(raw_capture@)))
                        &&& s.min_view() == cfg.general.min_length as int
                        &&& s.filter_key_view() == cfg.keybinds.filter@
                        &&& s.copy_key_view() == cfg.keybinds.copy@
                        &&& s.insert_key_view() == cfg.keybinds.insert@
                    },
                    Err(e) => (e matches SetupError::BadPattern(m) ==> exists|i: int|
                        0 <= i < order.len() && order[i] == m@ && !pattern_compiles(
                            cfg.regex_map()[m@],
                        )),
                }
            }),
    {
        let order_len = cfg.general.regex_order.len();
        if order_len == 0 {
            return Err(SetupError::EmptyModeOrder);
        }
        let ghost order = cfg.general.regex_order.deep_view();
        let mut modes: Vec<(String, CompiledRegex)> = Vec::new();
        let mut i: usize = 0;
        while i < order_len
            invariant
                cfg.wf(),
                order == cfg.general.regex_order.deep_view(),
                order_len == cfg.general.regex_order@.len(),
                0 <= i <= order_len,
                modes@.len() == i,
                forall|j: int|
                    0 <= j < i ==> modes@[j].0@ == order[j] && modes@[j].1.pattern_view()
                        == cfg.regex_map()[order[j]],
                forall|j: int| 0 <= j < i ==> pattern_compiles(#[trigger] cfg.regex_map()[order[j]]),
            decreases order_len - i,
        {
            let name = &cfg.general.regex_order[i];
            proof {
                assert(order[i as int] == cfg.general.regex_order@[i as int]@);
            }
            match cfg.pattern_for(name) {
                Some(p) => {
                    match CompiledRegex::compile(p.as_str()) {
                        Some(re) => {
                            modes.push((name.clone(), re));
                        },
                        None => {
                            return Err(SetupError::BadPattern(name.clone()));
                        },
                    }
                },
                None => {
                    return Err(SetupError::BadPattern(name.clone()));
                },
            }
            i = i + 1;
        }
        let lines = snapshot_lines(raw_capture);
        let keys = Keybinds {
            insert: cfg.keybinds.insert.clone(),
            copy: cfg.keybinds.copy.clone(),
            filter: cfg.keybinds.filter.clone(),
        };
        let filtered = get_filtered_data_from_lines(
            &lines,
            &modes[0].1,
            cfg.general.min_length,
        );
        Ok(
            Session {
                lines,
                modes,
                keys,
                min_length: cfg.general.min_length,
                mode_index: 0,
                query: String::new(),
                filtered,
            },
        )
    }

    /// One iteration of the selection loop: interprets the fuzzy-finder's
    /// exit, and either ends the session or carries it forward — cycling
    /// the mode and recomputing the candidate text on the filter key,
    /// keeping the just-typed query on every continuing outcome.
    pub fn step(&mut self, exit_code: i32, stdout: &str) -> (out: StepOutcome)
        requires
            old(self).wf(),
        ensures
            final(self).wf(),
            final(self).same_setup(old(self)),
            ({
                let t = recovered_triple(exit_code as int, output_lines(stdout@));
                if exit_code == 130 {
                    out is Cancelled && *final(self) == *old(self)
                } else if exit_code == 2 {
                    out is Fatal && *final(self) == *old(self)
                } else if t.1 == old(self).filter_key_view() {
                    out is Continue && final(self).mode_index_view() == next_mode(
                        old(self).mode_index_view(),
                        old(self).mode_count(),
                    ) && final(self).query_view() == t.0
                } else if t.1 == old(self).copy_key_view() {
                    (out matches StepOutcome::Copy(s) && s@ == t.2) && *final(self) == *old(self)
                } else if t.1 == old(self).insert_key_view() {
                    (out matches StepOutcome::Insert(s) && s@ == t.2) && *final(self) == *old(self)
                } else if t.1 == "esc"@ || t.1.len() == 0 {
                    out is Cancelled && *final(self) == *old(self)
                } else {
                    out is Continue && final(self).query_view() == t.0
                        && final(self).mode_index_view() == old(self).mode_index_view()
                }
            }),
    {
        let parsed = parse_fzf_output(exit_code, stdout);
        match parsed {
            FzfOutcome::Cancelled => StepOutcome::Cancelled,
            FzfOutcome::Fatal => StepOutcome::Fatal,
            FzfOutcome::Keyed { query, key, selection } => {
                if key == self.keys.filter {
                    let n = self.modes.len();
                    let next: usize = if self.mode_index + 1 == n {
                        0
                    } else {
                        self.mode_index + 1
                    };
                    self.mode_index = next;
                    self.query = query;
                    let f = get_filtered_data_from_lines(
                        &self.lines,
                        &self.modes[next].1,
                        self.min_length,
                    );
                    self.filtered = f;
                    StepOutcome::Continue
                } else if key == self.keys.copy {
                    StepOutcome::Copy(selection)
                } else if key == self.keys.insert {
                    StepOutcome::Insert(selection)
                } else {
                    let esc = String::from_str("esc");
                    if key == esc || key.unicode_len() == 0 {
                        StepOutcome::Cancelled
                    } else {
                        self.query = query;
                        StepOutcome::Continue
                    }
                }
            },
        }
    }

    /// The name of the current mode.
    pub fn current_mode_name(&self) -> (r: &String)
        requires
            self.wf(),
        ensures
            r@ == self.mode_name_at(self.mode_index_view()),
    {
        &self.modes[self.mode_index].0
    }

    /// The query to hand to the next fuzzy-finder invocation.
    pub fn current_query(&self) -> (r: &String)
        ensures
            r@ == self.query_view(),
    {
        &self.query
    }

    /// The candidate text to feed the fuzzy-finder.
    pub fn candidate_text(&self) -> (r: &String)
        ensures
            r@ == self.filtered_view(),
    {
        &self.filtered
    }

    /// The current mode's position in the cycling order.
    pub fn mode_position(&self) -> (r: usize)
        ensures
            r as int == self.mode_index_view(),
    {
        self.mode_index
    }

    /// How many modes are configured.
    pub fn mode_total(&self) -> (r: usize)
        ensures
            r as int == self.mode_count(),
    {
        self.modes.len()
    }

    /// The configured key bindings.
    pub fn bindings(&self) -> (r: &Keybinds)
        ensures
            r.filter@ == self.filter_key_view(),
            r.copy@ == self.copy_key_view(),
            r.insert@ == self.insert_key_view(),
    {
        &self.keys
    }
}

/// The header line shown above the fuzzy-finder.
pub open spec fn fzf_header_spec(mode: Seq<char>, fk: Seq<char>, ck: Seq<char>, ik: Seq<char>) -> Seq<
    char,
> {
    "--header=\x1b[0;32mPLUCKRS\x1b[0m | mode: \x1b[0;32m["@ + mode
        + "]\x1b[0m | Toggle filter: "@ + fk + " | Copy: "@ + ck + " | Insert: "@ + ik
}

/// The argument list for one fuzzy-finder invocation.
pub open spec fn fzf_args_spec(
    query: Seq<char>,
    mode: Seq<char>,
    fk: Seq<char>,
    ck: Seq<char>,
    ik: Seq<char>,
) -> Seq<Seq<char>> {
    seq![
        "--expect="@ + fk + ","@ + ck + ","@ + ik,
        "--expect=ctrl-g,esc"@,
        "--print-query"@,
        "--query="@ + query,
        fzf_header_spec(mode, fk, ck, ik),
    ]
}

/// Builds the argument list for one fuzzy-finder invocation: the keys to
/// expect, an always-captured pair of closing keys, the query echo flag,
/// the previous query, and the header.
pub fn build_fzf_args(query: &str, mode: &str, keys: &Keybinds) -> (r: Vec<String>)
    ensures
        r.deep_view() == fzf_args_spec(query@, mode@, keys.filter@, keys.copy@, keys.insert@),
{
    let mut r: Vec<String> = Vec::new();
    let mut expect = "--expect=".to_owned();
    expect.append(keys.filter.as_str());
    expect.append(",");
    expect.append(keys.copy.as_str());
    expect.append(",");
    expect.append(keys.insert.as_str());
    r.push(expect);
    r.push("--expect=ctrl-g,esc".to_owned());
    r.push("--print-query".to_owned());
    let mut query_arg = "--query=".to_owned();
    query_arg.append(query);
    r.push(query_arg);
    let mut header = "--header=\x1b[0;32mPLUCKRS\x1b[0m | mode: \x1b[0;32m[".to_owned();
    header.append(mode);
    header.append("]\x1b[0m | Toggle filter: ");
    header.append(keys.filter.as_str());
    header.append(" | Copy: ");
    header.append(keys.copy.as_str());
    header.append(" | Insert: ");
    header.append(keys.insert.as_str());
    r.push(header);
    proof {
        assert(r.deep_view() =~~= fzf_args_spec(
            query@,
            mode@,
            keys.filter@,
            keys.copy@,
            keys.insert@,
        ));
    }
    r
}

} // verus!

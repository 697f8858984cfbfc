//! One evaluation, step by step: the bootstrap bindings in their fixed order,
//! then the caller's expression.
//!
//! The library decides what is evaluated next and what an answer means; the
//! caller runs the evaluator and hands each answer back.

use crate::outcome::{check_value_for_errors, checked, EvaluationOutcome, OutcomeView};
use crate::text::texts;
use rustc_hash::FxHashMap;
use vstd::prelude::*;

verus! {

/// The hasher of the map that holds the bindings.
#[verifier::external_type_specification]
#[verifier::external_body]
pub struct ExFxBuildHasher(rustc_hash::FxBuildHasher);

/// What a map of bindings holds: for each name bound, the handle of its
/// value.
pub uninterp spec fn bindings_of(map: FxHashMap<String, u64>) -> Map<Seq<char>, u64>;

/// No name is bound.
pub open spec fn nothing_bound() -> Map<Seq<char>, u64> {
    Map::empty()
}

/// `FxHashMap::default`, which is `HashMap::default` with the hasher of
/// `rustc_hash`: a map that holds nothing.
#[verifier::external_body]
fn no_bindings() -> (out: FxHashMap<String, u64>)
    ensures
        bindings_of(out) == nothing_bound(),
{
    FxHashMap::default()
}

/// `HashMap::insert` on a map of `rustc_hash`: afterwards `name` is bound to
/// `handle`, whether or not it was bound before, and every other name is
/// bound as it was.
#[verifier::external_body]
fn bind(map: &mut FxHashMap<String, u64>, name: String, handle: u64)
    ensures
        bindings_of(*final(map)) == bindings_of(*old(map)).insert(name@, handle),
{
    map.insert(name, handle);
}

/// How far a value is forced.
#[derive(Clone, Copy, Debug, PartialEq, Eq, Structural)]
pub enum EvalMode {
    /// Only as far as its outermost form.
    Lazy,
    /// Completely.
    Strict,
}

/// Which global bindings an evaluation runs with.
#[derive(Clone, Copy, Debug, PartialEq, Eq, Structural)]
pub enum Globals {
    /// The evaluator's own, without imports or file access.
    Pure,
    /// Freshly built: imports enabled, file access through the sandbox, and
    /// the stub builtins added. They are kept for the steps that follow.
    Fresh,
    /// Those that the `Fresh` step built, with file access through the sandbox.
    Shared,
}

/// Where a session stands.
#[derive(Clone, Copy, Debug, PartialEq, Eq, Structural)]
pub enum Stage {
    /// The stub for `derivation` is due.
    Derivation,
    /// The stub for `placeholder` is due.
    Placeholder,
    /// The standard library is due.
    Lib,
    /// The package set is due.
    Pkgs,
    /// The caller's expression is due.
    Expression,
    /// Nothing is due: the session has its outcome.
    Finished,
}

/// What the caller is to evaluate next. The values stay with the caller; the
/// library knows each by a handle, a number that the caller finds it by.
#[derive(Clone, Debug, PartialEq, Eq)]
pub struct Request {
    /// The source text.
    pub source: String,
    /// How far to force the value.
    pub mode: EvalMode,
    /// The global bindings to evaluate with. With `Pure` globals nothing is
    /// bound; with the others, what [`Session::env`] holds.
    pub globals: Globals,
    /// The builtins to add to fresh globals: the name of each and the handle
    /// of its value, in the order in which the values were made.
    pub builtins: Vec<(String, u64)>,
    /// Whether relative paths in the source start at the sandbox root.
    pub at_root: bool,
    /// The name and the handle under which the caller is to keep the value:
    /// as a builtin for the stubs, as a binding for the rest of the
    /// bootstrap, and not at all for the expression itself.
    pub keep: Option<(String, u64)>,
}

/// The mathematical content of a [`Request`].
pub struct RequestView {
    pub source: Seq<char>,
    pub mode: EvalMode,
    pub globals: Globals,
    pub builtins: Seq<(Seq<char>, u64)>,
    pub at_root: bool,
    pub keep: Option<(Seq<char>, u64)>,
}

/// The names and handles of `v`.
pub open spec fn handles(v: Seq<(String, u64)>) -> Seq<(Seq<char>, u64)> {
    v.map_values(|e: (String, u64)| (e.0@, e.1))
}

impl View for Request {
    type V = RequestView;

    open spec fn view(&self) -> RequestView {
        RequestView {
            source: self.source@,
            mode: self.mode,
            globals: self.globals,
            builtins: handles(self.builtins@),
            at_root: self.at_root,
            keep: match self.keep {
                Some(kept) => Some((kept.0@, kept.1)),
                None => None,
            },
        }
    }
}

/// One evaluation under way.
pub struct Session {
    stage: Stage,
    expression: String,
    system: Option<String>,
    builtins: Vec<(String, u64)>,
    env: FxHashMap<String, u64>,
    outcome: Option<EvaluationOutcome>,
}

/// The mathematical content of a [`Session`].
pub struct SessionView {
    pub stage: Stage,
    pub expression: Seq<char>,
    pub system: Option<Seq<char>>,
    pub builtins: Seq<(Seq<char>, u64)>,
    pub env: Map<Seq<char>, u64>,
    pub outcome: Option<OutcomeView>,
}

/// The source of the stub that stands for `derivation`.
pub open spec fn derivation_stub() -> Seq<char> {
    "arg: arg // {out={type=null;outputName=null;};}"@
}

/// The source of the stub that stands for `placeholder`.
pub open spec fn placeholder_stub() -> Seq<char> {
    "arg: arg"@
}

/// The source that imports the standard library.
pub open spec fn lib_source() -> Seq<char> {
    "import ./lib"@
}

/// The source that imports the package set for the platform `system`.
pub open spec fn pkgs_source(system: Seq<char>) -> Seq<char> {
    "import ./pkgs/top-level/default.nix {localSystem = \""@ + system + "\";}"@
}

/// The name and the handle under which the value of `stage` is kept, where
/// it is kept.
pub open spec fn kept(stage: Stage) -> Option<(Seq<char>, u64)> {
    match stage {
        Stage::Derivation => Some(("derivation"@, 0u64)),
        Stage::Placeholder => Some(("placeholder"@, 1u64)),
        Stage::Lib => Some(("lib"@, 2u64)),
        Stage::Pkgs => Some(("pkgs"@, 3u64)),
        Stage::Expression => None,
        Stage::Finished => None,
    }
}

/// The builtins that are in place when `stage` is due.
pub open spec fn builtins_at(stage: Stage) -> Seq<(Seq<char>, u64)> {
    match stage {
        Stage::Derivation => seq![],
        Stage::Placeholder => seq![("derivation"@, 0u64)],
        _ => seq![("derivation"@, 0u64), ("placeholder"@, 1u64)],
    }
}

/// The bindings that are in place when `stage` is due, in a session whose
/// package set is imported or not.
pub open spec fn env_at(stage: Stage, with_pkgs: bool) -> Map<Seq<char>, u64> {
    match stage {
        Stage::Derivation => Map::empty(),
        Stage::Placeholder => Map::empty(),
        Stage::Lib => Map::empty(),
        Stage::Pkgs => Map::empty().insert("lib"@, 2u64),
        _ => if with_pkgs {
            Map::empty().insert("lib"@, 2u64).insert("pkgs"@, 3u64)
        } else {
            Map::empty().insert("lib"@, 2u64)
        },
    }
}

/// The stage that follows `stage` when its evaluation gave a value.
pub open spec fn stage_after(stage: Stage, with_pkgs: bool) -> Stage {
    match stage {
        Stage::Derivation => Stage::Placeholder,
        Stage::Placeholder => Stage::Lib,
        Stage::Lib => if with_pkgs {
            Stage::Pkgs
        } else {
            Stage::Expression
        },
        Stage::Pkgs => Stage::Expression,
        Stage::Expression => Stage::Finished,
        Stage::Finished => Stage::Finished,
    }
}

/// What is to be evaluated in state `s`, if anything.
pub open spec fn request_of(s: SessionView) -> Option<RequestView> {
    match s.stage {
        Stage::Derivation => Some(
            RequestView {
                source: derivation_stub(),
                mode: EvalMode::Lazy,
                globals: Globals::Pure,
                builtins: seq![],
                at_root: false,
                keep: kept(s.stage),
            },
        ),
        Stage::Placeholder => Some(
            RequestView {
                source: placeholder_stub(),
                mode: EvalMode::Lazy,
                globals: Globals::Pure,
                builtins: seq![],
                at_root: false,
                keep: kept(s.stage),
            },
        ),
        Stage::Lib => Some(
            RequestView {
                source: lib_source(),
                mode: EvalMode::Lazy,
                globals: Globals::Fresh,
                builtins: s.builtins,
                at_root: true,
                keep: kept(s.stage),
            },
        ),
        Stage::Pkgs => Some(
            RequestView {
                source: pkgs_source(
                    match s.system {
                        Some(system) => system,
                        None => seq![],
                    },
                ),
                mode: EvalMode::Lazy,
                globals: Globals::Shared,
                builtins: seq![],
                at_root: true,
                keep: kept(s.stage),
            },
        ),
        Stage::Expression => Some(
            RequestView {
                source: s.expression,
                mode: EvalMode::Strict,
                globals: Globals::Shared,
                builtins: seq![],
                at_root: true,
                keep: kept(s.stage),
            },
        ),
        Stage::Finished => None,
    }
}

/// The state after the evaluator answered the request of state `s` with
/// `value` and `diagnostics`. An answer without a value ends the session with
/// the failure; the value of a bootstrap step is bound under its name; the
/// value of the expression is the outcome.
pub open spec fn advanced(
    s: SessionView,
    value: Option<Seq<char>>,
    diagnostics: Seq<Seq<char>>,
) -> SessionView {
    if s.stage == Stage::Finished {
        s
    } else if value is None {
        SessionView { stage: Stage::Finished, outcome: Some(checked(value, diagnostics)), ..s }
    } else {
        match s.stage {
            Stage::Derivation | Stage::Placeholder => SessionView {
                stage: stage_after(s.stage, s.system is Some),
                builtins: s.builtins.push(kept(s.stage)->0),
                ..s
            },
            Stage::Lib | Stage::Pkgs => {
                let (name, handle) = kept(s.stage)->0;
                SessionView {
                    stage: stage_after(s.stage, s.system is Some),
                    env: s.env.insert(name, handle),
                    ..s
                }
            },
            _ => SessionView {
                stage: Stage::Finished,
                outcome: Some(checked(value, diagnostics)),
                ..s
            },
        }
    }
}

impl View for Session {
    type V = SessionView;

    closed spec fn view(&self) -> SessionView {
        SessionView {
            stage: self.stage,
            expression: self.expression@,
            system: match self.system {
                Some(system) => Some(system@),
                None => None,
            },
            builtins: handles(self.builtins@),
            env: bindings_of(self.env),
            outcome: match self.outcome {
                Some(o) => Some(o@),
                None => None,
            },
        }
    }
}

/// What holds of every session: the bindings in place are those of its stage,
/// a package set is due only where a platform is named, and it has an outcome
/// when it is finished and only then.
pub open spec fn well_formed(s: SessionView) -> bool {
    &&& s.builtins == builtins_at(s.stage) || s.stage == Stage::Finished
    &&& s.env == env_at(s.stage, s.system is Some) || s.stage == Stage::Finished
    &&& s.stage == Stage::Pkgs ==> s.system is Some
    &&& s.stage == Stage::Finished <==> s.outcome is Some
}

impl Session {
    /// Whether the session's invariant holds.
    pub open spec fn wf(&self) -> bool {
        well_formed(self@)
    }

    /// A session that will evaluate `expression`, with the package set of the
    /// platform `system` bound where one is named.
    pub fn new(expression: String, system: Option<String>) -> (s: Session)
        ensures
            s.wf(),
            s@ == (SessionView {
                stage: Stage::Derivation,
                expression: expression@,
                system: match system {
                    Some(name) => Some(name@),
                    None => None,
                },
                builtins: seq![],
                env: Map::empty(),
                outcome: None,
            }),
    {
        let s = Session {
            stage: Stage::Derivation,
            expression,
            system,
            builtins: Vec::new(),
            env: no_bindings(),
            outcome: None,
        };
        assert(handles(s.builtins@) =~= seq![]);
        s
    }

    /// Where the session stands.
    pub fn stage(&self) -> (stage: Stage)
        ensures
            stage == self@.stage,
    {
        self.stage
    }

    /// The bindings in place: each name with the handle of its value.
    pub fn env(&self) -> (env: &FxHashMap<String, u64>)
        ensures
            bindings_of(*env) == self@.env,
    {
        &self.env
    }

    /// The outcome, once the session is finished.
    pub fn outcome(&self) -> (outcome: Option<&EvaluationOutcome>)
        ensures
            match outcome {
                Some(o) => self@.outcome == Some(o@),
                None => self@.outcome is None,
            },
    {
        self.outcome.as_ref()
    }

    /// The session's outcome, or `None` while an evaluation is due.
    pub fn into_outcome(self) -> (outcome: Option<EvaluationOutcome>)
        ensures
            match outcome {
                Some(o) => self@.outcome == Some(o@),
                None => self@.outcome is None,
            },
    {
        self.outcome
    }

    /// What the caller is to evaluate next; `None` once the session is
    /// finished.
    pub fn request(&self) -> (r: Option<Request>)
        ensures
            match r {
                Some(request) => request_of(self@) == Some(request@),
                None => request_of(self@) is None,
            },
    {
        match self.stage {
            Stage::Derivation => Some(
                stub_request(
                    String::from_str("arg: arg // {out={type=null;outputName=null;};}"),
                    String::from_str("derivation"),
                    0,
                ),
            ),
            Stage::Placeholder => Some(
                stub_request(String::from_str("arg: arg"), String::from_str("placeholder"), 1),
            ),
            Stage::Lib => Some(
                Request {
                    source: String::from_str("import ./lib"),
                    mode: EvalMode::Lazy,
                    globals: Globals::Fresh,
                    builtins: copy_handles(&self.builtins),
                    at_root: true,
                    keep: Some((String::from_str("lib"), 2)),
                },
            ),
            Stage::Pkgs => {
                let mut source = String::from_str(
                    "import ./pkgs/top-level/default.nix {localSystem = \"",
                );
                match &self.system {
                    Some(system) => {
                        source.append(system.as_str());
                    },
                    None => {},
                }
                source.append("\";}");
                let builtins: Vec<(String, u64)> = Vec::new();
                assert(handles(builtins@) =~= seq![]);
                Some(
                    Request {
                        source,
                        mode: EvalMode::Lazy,
                        globals: Globals::Shared,
                        builtins,
                        at_root: true,
                        keep: Some((String::from_str("pkgs"), 3)),
                    },
                )
            },
            Stage::Expression => {
                let builtins: Vec<(String, u64)> = Vec::new();
                assert(handles(builtins@) =~= seq![]);
                Some(
                    Request {
                        source: self.expression.clone(),
                        mode: EvalMode::Strict,
                        globals: Globals::Shared,
                        builtins,
                        at_root: true,
                        keep: None,
                    },
                )
            },
            Stage::Finished => None,
        }
    }

    /// Takes the evaluator's answer to the request that was due: the text of
    /// the value, if it gave one, and its diagnostics. Of the value of a
    /// bootstrap step only the presence counts, not the text. On a finished
    /// session nothing changes.
    pub fn advance(&mut self, value: Option<String>, diagnostics: Vec<String>)
        ensures
            old(self).wf() ==> final(self).wf(),
            final(self)@ == advanced(
                old(self)@,
                match value {
                    Some(v) => Some(v@),
                    None => None,
                },
                texts(diagnostics@),
            ),
    {
        let with_pkgs = self.system.is_some();
        let ghost before = self.builtins@;
        match self.stage {
            Stage::Finished => {},
            Stage::Derivation => {
                if value.is_some() {
                    self.builtins.push((String::from_str("derivation"), 0));
                    self.stage = Stage::Placeholder;
                    assert(handles(self.builtins@) =~= handles(before).push(("derivation"@, 0u64)));
                    assert(seq![].push(("derivation"@, 0u64)) =~= builtins_at(Stage::Placeholder));
                } else {
                    self.outcome = Some(check_value_for_errors(value, diagnostics));
                    self.stage = Stage::Finished;
                }
            },
            Stage::Placeholder => {
                if value.is_some() {
                    self.builtins.push((String::from_str("placeholder"), 1));
                    self.stage = Stage::Lib;
                    assert(handles(self.builtins@) =~= handles(before).push(
                        ("placeholder"@, 1u64),
                    ));
                    assert(builtins_at(Stage::Placeholder).push(("placeholder"@, 1u64))
                        =~= builtins_at(Stage::Lib));
                } else {
                    self.outcome = Some(check_value_for_errors(value, diagnostics));
                    self.stage = Stage::Finished;
                }
            },
            Stage::Lib => {
                if value.is_some() {
                    bind(&mut self.env, String::from_str("lib"), 2);
                    self.stage = if with_pkgs {
                        Stage::Pkgs
                    } else {
                        Stage::Expression
                    };
                } else {
                    self.outcome = Some(check_value_for_errors(value, diagnostics));
                    self.stage = Stage::Finished;
                }
            },
            Stage::Pkgs => {
                if value.is_some() {
                    bind(&mut self.env, String::from_str("pkgs"), 3);
                    self.stage = Stage::Expression;
                } else {
                    self.outcome = Some(check_value_for_errors(value, diagnostics));
                    self.stage = Stage::Finished;
                }
            },
            Stage::Expression => {
                self.outcome = Some(check_value_for_errors(value, diagnostics));
                self.stage = Stage::Finished;
            },
        }
    }
}

/// An answer without a value ends the session, whatever step was due: the
/// outcome is the failure, never a value, and nothing more is asked for. No
/// step of the bootstrap is skipped over.
pub proof fn lemma_failure_ends_session(s: SessionView, diagnostics: Seq<Seq<char>>)
    requires
        s.stage != Stage::Finished,
    ensures
        advanced(s, None, diagnostics).stage == Stage::Finished,
        advanced(s, None, diagnostics).outcome == Some(checked(None, diagnostics)),
        !(advanced(s, None, diagnostics).outcome->0 is Value),
        request_of(advanced(s, None, diagnostics)) is None,
        advanced(s, None, diagnostics).env == s.env,
        advanced(s, None, diagnostics).builtins == s.builtins,
{
}

/// An answer keeps a well-formed session well-formed.
pub proof fn lemma_advanced_well_formed(
    s: SessionView,
    value: Option<Seq<char>>,
    diagnostics: Seq<Seq<char>>,
)
    requires
        well_formed(s),
    ensures
        well_formed(advanced(s, value, diagnostics)),
{
    let t = advanced(s, value, diagnostics);
    if s.stage != Stage::Finished && value is Some {
        match s.stage {
            Stage::Derivation => {
                assert(t.builtins =~= builtins_at(t.stage));
            },
            Stage::Placeholder => {
                assert(t.builtins =~= builtins_at(t.stage));
            },
            Stage::Lib => {
                assert(t.env =~= env_at(t.stage, s.system is Some));
            },
            Stage::Pkgs => {
                assert(t.env =~= env_at(t.stage, s.system is Some));
            },
            _ => {},
        }
    }
}

/// The bootstrap runs in one fixed order, and each name is bound before the
/// next step is asked for: a well-formed session that asks for the caller's
/// expression has `derivation` and `placeholder` as builtins and `lib`, and
/// `pkgs` where a platform is named, as bindings; one that asks for the
/// package set has `lib` bound; and a step that gave a value is followed by
/// the next in the order.
pub proof fn lemma_bootstrap_order(s: SessionView, value: Seq<char>, diagnostics: Seq<Seq<char>>)
    requires
        well_formed(s),
    ensures
        s.stage == Stage::Expression ==> s.env.contains_key("lib"@) && (s.system is Some
            ==> s.env.contains_key("pkgs"@)) && s.builtins == seq![
            ("derivation"@, 0u64),
            ("placeholder"@, 1u64),
        ],
        s.stage == Stage::Pkgs ==> s.env == Map::<Seq<char>, u64>::empty().insert("lib"@, 2u64),
        s.stage == Stage::Lib ==> request_of(s)->0.builtins == seq![
            ("derivation"@, 0u64),
            ("placeholder"@, 1u64),
        ] && s.env == Map::<Seq<char>, u64>::empty(),
        advanced(s, Some(value), diagnostics).stage == stage_after(s.stage, s.system is Some),
        s.stage == Stage::Expression ==> advanced(s, Some(value), diagnostics).outcome == Some(
            OutcomeView::Value(value),
        ),
{
}

/// A request for a stub: evaluated without globals of its own, bindings or
/// file access.
fn stub_request(source: String, name: String, handle: u64) -> (r: Request)
    ensures
        r@ == (RequestView {
            source: source@,
            mode: EvalMode::Lazy,
            globals: Globals::Pure,
            builtins: seq![],
            at_root: false,
            keep: Some((name@, handle)),
        }),
{
    let builtins: Vec<(String, u64)> = Vec::new();
    assert(handles(builtins@) =~= seq![]);
    Request {
        source,
        mode: EvalMode::Lazy,
        globals: Globals::Pure,
        builtins,
        at_root: false,
        keep: Some((name, handle)),
    }
}

/// A copy of `list`.
fn copy_handles(list: &Vec<(String, u64)>) -> (out: Vec<(String, u64)>)
    ensures
        handles(out@) == handles(list@),
{
    let mut out: Vec<(String, u64)> = Vec::new();
    let mut i: usize = 0;
    assert(handles(out@) =~= handles(list@).take(0));
    while i < list.len()
        invariant
            i <= list@.len(),
            handles(out@) == handles(list@).take(i as int),
        decreases list@.len() - i,
    {
        let ghost before = out@;
        out.push((list[i].0.clone(), list[i].1));
        assert(handles(out@) =~= handles(before).push(handles(list@)[i as int]));
        assert(handles(list@).take(i + 1) =~= handles(list@).take(i as int).push(
            handles(list@)[i as int],
        ));
        i += 1;
    }
    assert(handles(list@).take(list@.len() as int) == handles(list@));
    out
}

} // verus!

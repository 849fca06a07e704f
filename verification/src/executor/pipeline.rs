//! Traces of pipeline runs, and named strategies.
use vstd::prelude::*;
use vstd::string::*;
use crate::error_code::ErrorCode;
use crate::errors::ModuleError;
use crate::text::{cat3, clone_texts, str_eq};
use crate::errors;
use crate::text;

verus! {

/// What one step of a run did.
#[derive(Debug)]
pub struct StepTrace {
    pub name: String,
    pub skipped: bool,
    pub action: String,
    pub explanation: Option<String>,
}

/// What the steps of a run did.
#[derive(Debug)]
pub struct PipelineTrace {
    pub steps: Vec<StepTrace>,
    pub success: bool,
}

/// The mathematical contents of a step.
#[verifier::ext_equal]
pub struct StepView {
    pub name: Seq<char>,
    pub skipped: bool,
    pub action: Seq<char>,
    pub explanation: Option<Seq<char>>,
}

impl View for StepTrace {
    type V = StepView;

    open spec fn view(&self) -> StepView {
        StepView {
            name: self.name@,
            skipped: self.skipped,
            action: self.action@,
            explanation: text::opt_text(self.explanation),
        }
    }
}

/// The mathematical contents of steps.
pub open spec fn steps_view(s: Seq<StepTrace>) -> Seq<StepView> {
    Seq::new(s.len(), |i: int| s[i]@)
}

/// Whether a step aborted the run.
pub open spec fn aborted(s: StepView) -> bool {
    s.action == "abort"@
}

/// The first step that aborted.
pub open spec fn first_abort(s: Seq<StepView>) -> Option<StepView>
    decreases s.len(),
{
    if s.len() == 0 {
        None
    } else {
        match first_abort(s.drop_last()) {
            Some(x) => Some(x),
            None => if aborted(s.last()) {
                Some(s.last())
            } else {
                None
            },
        }
    }
}

/// The explanation of the first aborted step that gives one.
pub open spec fn first_explanation(s: Seq<StepView>) -> Option<Seq<char>>
    decreases s.len(),
{
    if s.len() == 0 {
        None
    } else {
        match first_explanation(s.drop_last()) {
            Some(x) => Some(x),
            None => if aborted(s.last()) {
                s.last().explanation
            } else {
                None
            },
        }
    }
}

proof fn lemma_first_abort_prefix(s: Seq<StepView>, n: int)
    requires
        0 <= n <= s.len(),
        first_abort(s.subrange(0, n)) is Some,
    ensures
        first_abort(s) == first_abort(s.subrange(0, n)),
    decreases s.len() - n,
{
    if n == s.len() {
        assert(s.subrange(0, n) =~= s);
    } else {
        assert(s.subrange(0, n + 1).drop_last() =~= s.subrange(0, n));
        lemma_first_abort_prefix(s, n + 1);
    }
}

proof fn lemma_first_explanation_prefix(s: Seq<StepView>, n: int)
    requires
        0 <= n <= s.len(),
        first_explanation(s.subrange(0, n)) is Some,
    ensures
        first_explanation(s) == first_explanation(s.subrange(0, n)),
    decreases s.len() - n,
{
    if n == s.len() {
        assert(s.subrange(0, n) =~= s);
    } else {
        assert(s.subrange(0, n + 1).drop_last() =~= s.subrange(0, n));
        lemma_first_explanation_prefix(s, n + 1);
    }
}

impl PipelineTrace {
    /// The steps.
    pub open spec fn all_steps(self) -> Seq<StepView> {
        steps_view(self.steps@)
    }

    /// The first step that aborted.
    pub fn aborted_step(&self) -> (r: Option<&StepTrace>)
        ensures
            match r {
                Some(s) => first_abort(self.all_steps()) == Some(s@),
                None => first_abort(self.all_steps()) is None,
            },
    {
        let n: usize = self.steps.len();
        let mut i: usize = 0;
        assert(self.all_steps().subrange(0, 0) =~= Seq::empty());
        while i < n
            invariant
                i <= n,
                n == self.steps.len(),
                first_abort(self.all_steps().subrange(0, i as int)) is None,
            decreases n - i,
        {
            let ghost part = self.all_steps().subrange(0, i + 1);
            assert(part.drop_last() =~= self.all_steps().subrange(0, i as int));
            assert(part.last() == self.steps@[i as int]@);
            if str_eq(self.steps[i].action.as_str(), "abort") {
                proof {
                    lemma_first_abort_prefix(self.all_steps(), i + 1);
                }
                return Some(&self.steps[i]);
            }
            i = i + 1;
        }
        assert(self.all_steps().subrange(0, n as int) =~= self.all_steps());
        None
    }

    /// The explanation of the first aborted step that gives one.
    pub fn abort_explanation(&self) -> (r: Option<&String>)
        ensures
            match r {
                Some(s) => first_explanation(self.all_steps()) == Some(s@),
                None => first_explanation(self.all_steps()) is None,
            },
    {
        let n: usize = self.steps.len();
        let mut i: usize = 0;
        assert(self.all_steps().subrange(0, 0) =~= Seq::empty());
        while i < n
            invariant
                i <= n,
                n == self.steps.len(),
                first_explanation(self.all_steps().subrange(0, i as int)) is None,
            decreases n - i,
        {
            let ghost part = self.all_steps().subrange(0, i + 1);
            assert(part.drop_last() =~= self.all_steps().subrange(0, i as int));
            assert(part.last() == self.steps@[i as int]@);
            if str_eq(self.steps[i].action.as_str(), "abort") {
                match &self.steps[i].explanation {
                    Some(text) => {
                        proof {
                            lemma_first_explanation_prefix(self.all_steps(), i + 1);
                        }
                        return Some(text);
                    },
                    None => {},
                }
            }
            i = i + 1;
        }
        assert(self.all_steps().subrange(0, n as int) =~= self.all_steps());
        None
    }
}

// ---------------------------------------------------------------------------
// Strategies
// ---------------------------------------------------------------------------

/// The built-in strategies.
#[derive(Debug, Clone, Copy, PartialEq, Eq, Structural)]
pub enum StrategyPreset {
    Standard,
    Internal,
    Testing,
    Performance,
    Minimal,
}

/// The name of a built-in strategy.
pub open spec fn preset_name(p: StrategyPreset) -> Seq<char> {
    match p {
        StrategyPreset::Standard => "standard"@,
        StrategyPreset::Internal => "internal"@,
        StrategyPreset::Testing => "testing"@,
        StrategyPreset::Performance => "performance"@,
        StrategyPreset::Minimal => "minimal"@,
    }
}

/// Whether a name is that of a built-in strategy.
pub open spec fn is_preset_name(name: Seq<char>) -> bool {
    exists|p: StrategyPreset| #[trigger] preset_name(p) == name
}

/// The built-in strategy of a name.
pub fn resolve_strategy_by_name(name: &str) -> (r: Result<StrategyPreset, ModuleError>)
    ensures
        match r {
            Ok(p) => preset_name(p) == name@,
            Err(e) => !is_preset_name(name@) && e@ == errors::plain_error(
                ErrorCode::GeneralInvalidInput,
                "Unknown strategy name '"@ + name@
                    + "'. Built-in presets: standard, internal, testing, performance, minimal"@,
                e@.timestamp,
            ),
        },
{
    if str_eq(name, "standard") {
        return Ok(StrategyPreset::Standard);
    }
    if str_eq(name, "internal") {
        return Ok(StrategyPreset::Internal);
    }
    if str_eq(name, "testing") {
        return Ok(StrategyPreset::Testing);
    }
    if str_eq(name, "performance") {
        return Ok(StrategyPreset::Performance);
    }
    if str_eq(name, "minimal") {
        return Ok(StrategyPreset::Minimal);
    }
    let message = cat3(
        "Unknown strategy name '",
        name,
        "'. Built-in presets: standard, internal, testing, performance, minimal",
    );
    Err(ModuleError::new(ErrorCode::GeneralInvalidInput, message.as_str()))
}

/// No two built-in strategies share a name.
pub proof fn preset_names_are_distinct(a: StrategyPreset, b: StrategyPreset)
    requires
        preset_name(a) == preset_name(b),
    ensures
        a == b,
{
    reveal_strlit("standard");
    reveal_strlit("internal");
    reveal_strlit("testing");
    reveal_strlit("performance");
    reveal_strlit("minimal");
    assert("standard"@[0] == 's' && "internal"@[0] == 'i' && "testing"@[0] == 't' && "minimal"@[0] == 'm');
}

/// Whether the toggles of an instance are bound into the strategy of this name:
/// only into built-in ones, since a strategy of the user's is left as it is.
pub fn rebinds_toggles(strategy_name: &str) -> (r: bool)
    ensures
        r == is_preset_name(strategy_name@),
{
    match resolve_strategy_by_name(strategy_name) {
        Ok(_) => true,
        Err(_) => false,
    }
}

/// A summary of a strategy.
#[derive(Debug)]
pub struct StrategyInfo {
    pub name: String,
    pub step_count: usize,
    pub step_names: Vec<String>,
    pub description: String,
}

/// The mathematical contents of a summary.
#[verifier::ext_equal]
pub struct StrategyView {
    pub name: Seq<char>,
    pub step_count: int,
    pub step_names: Seq<Seq<char>>,
    pub description: Seq<char>,
}

impl View for StrategyInfo {
    type V = StrategyView;

    open spec fn view(&self) -> StrategyView {
        StrategyView {
            name: self.name@,
            step_count: self.step_count as int,
            step_names: text::texts(self.step_names@),
            description: self.description@,
        }
    }
}

impl Clone for StrategyInfo {
    fn clone(&self) -> (r: Self)
        ensures
            r@ == self@,
    {
        StrategyInfo {
            name: self.name.clone(),
            step_count: self.step_count,
            step_names: clone_texts(&self.step_names),
            description: self.description.clone(),
        }
    }
}

/// The summaries of registered strategies, at most one of each name.
#[derive(Debug)]
pub struct StrategyRegistry {
    entries: Vec<StrategyInfo>,
}

/// The mathematical contents of summaries.
pub open spec fn strategies_view(s: Seq<StrategyInfo>) -> Seq<StrategyView> {
    Seq::new(s.len(), |i: int| s[i]@)
}

/// Whether one of the summaries has this name, and which.
pub open spec fn strategy_index(s: Seq<StrategyView>, name: Seq<char>) -> Option<int>
    decreases s.len(),
{
    if s.len() == 0 {
        None
    } else {
        match strategy_index(s.drop_last(), name) {
            Some(i) => Some(i),
            None => if s.last().name == name {
                Some(s.len() - 1)
            } else {
                None
            },
        }
    }
}

/// The summaries with one more: in place of the one of its name, or at the end.
pub open spec fn with_strategy(s: Seq<StrategyView>, info: StrategyView) -> Seq<StrategyView> {
    match strategy_index(s, info.name) {
        Some(i) => s.update(i, info),
        None => s.push(info),
    }
}

/// Whether no two summaries have the same name.
pub open spec fn distinct_names(s: Seq<StrategyView>) -> bool {
    forall|i: int, j: int| 0 <= i < j < s.len() ==> (#[trigger] s[i]).name != (#[trigger] s[j]).name
}

proof fn lemma_strategy_index_prefix(s: Seq<StrategyView>, n: int, name: Seq<char>)
    requires
        0 <= n <= s.len(),
        strategy_index(s.subrange(0, n), name) is Some,
    ensures
        strategy_index(s, name) == strategy_index(s.subrange(0, n), name),
    decreases s.len() - n,
{
    if n == s.len() {
        assert(s.subrange(0, n) =~= s);
    } else {
        assert(s.subrange(0, n + 1).drop_last() =~= s.subrange(0, n));
        lemma_strategy_index_prefix(s, n + 1, name);
    }
}

impl StrategyRegistry {
    /// The registered summaries.
    pub closed spec fn strategies(self) -> Seq<StrategyView> {
        strategies_view(self.entries@)
    }

    /// No name is registered twice.
    #[verifier::type_invariant]
    spec fn names_are_distinct(self) -> bool {
        distinct_names(self.strategies())
    }

    /// An empty registry.
    pub fn new() -> (r: Self)
        ensures
            r.strategies() == Seq::<StrategyView>::empty(),
            distinct_names(r.strategies()),
    {
        let r = StrategyRegistry { entries: Vec::new() };
        assert(r.strategies() =~= Seq::empty());
        r
    }
}

/// Register the summary of a strategy, in place of one of the same name.
pub fn register_strategy(registry: &mut StrategyRegistry, info: StrategyInfo)
    ensures
        final(registry).strategies() == with_strategy(old(registry).strategies(), info@),
        distinct_names(final(registry).strategies()),
{
    let ghost s = registry.strategies();
    let mut entries: Vec<StrategyInfo> = Vec::new();
    proof {
        use_type_invariant(&*registry);
        names_stay_unique(s, info@);
    }
    std::mem::swap(&mut entries, &mut registry.entries);
    let n: usize = entries.len();
    let mut i: usize = 0;
    assert(s == strategies_view(entries@));
    assert(s.subrange(0, 0) =~= Seq::empty());
    while i < n
        invariant_except_break
            strategy_index(s.subrange(0, i as int), info@.name) is None,
        invariant
            i <= n,
            n == entries.len(),
            s == strategies_view(entries@),
        ensures
            i < n ==> strategy_index(s, info@.name) == Some(i as int),
            i == n ==> strategy_index(s.subrange(0, n as int), info@.name) is None,
        decreases n - i,
    {
        let ghost part = s.subrange(0, i + 1);
        assert(part.drop_last() =~= s.subrange(0, i as int));
        assert(part.last() == entries@[i as int]@);
        if str_eq(entries[i].name.as_str(), info.name.as_str()) {
            proof {
                lemma_strategy_index_prefix(s, i + 1, info@.name);
            }
            break;
        }
        i = i + 1;
    }
    assert(s.subrange(0, n as int) =~= s);
    let ghost added = info@;
    if i < n {
        entries.set(i, info);
        assert(strategies_view(entries@) =~= s.update(i as int, added));
    } else {
        entries.push(info);
        assert(strategies_view(entries@) =~= s.push(added));
    }
    registry.entries = entries;
}

/// Register the summary of a strategy under another name.
pub fn register_strategy_by_name(registry: &mut StrategyRegistry, name: &str, strategy: &StrategyInfo)
    ensures
        final(registry).strategies() == with_strategy(
            old(registry).strategies(),
            (StrategyView { name: name@, ..strategy@ }),
        ),
        distinct_names(final(registry).strategies()),
{
    let mut info = strategy.clone();
    info.name = name.to_owned();
    register_strategy(registry, info);
}

/// The registered summaries.
pub fn list_strategies(registry: &StrategyRegistry) -> (r: Vec<StrategyInfo>)
    ensures
        strategies_view(r@) == registry.strategies(),
        distinct_names(strategies_view(r@)),
{
    proof {
        use_type_invariant(registry);
    }
    let mut out: Vec<StrategyInfo> = Vec::new();
    let mut i: usize = 0;
    while i < registry.entries.len()
        invariant
            i <= registry.entries.len(),
            out@.len() == i,
            forall|j: int| 0 <= j < i ==> (#[trigger] out@[j])@ == registry.entries@[j]@,
        decreases registry.entries.len() - i,
    {
        out.push(registry.entries[i].clone());
        i = i + 1;
    }
    assert(strategies_view(out@) =~= registry.strategies());
    out
}

/// What an index found in a list means.
pub proof fn lemma_strategy_index(s: Seq<StrategyView>, name: Seq<char>)
    ensures
        strategy_index(s, name) matches Some(i) ==> 0 <= i < s.len() && s[i].name == name,
        strategy_index(s, name) is None ==> forall|i: int| 0 <= i < s.len() ==> (#[trigger] s[i]).name != name,
    decreases s.len(),
{
    if s.len() > 0 {
        lemma_strategy_index(s.drop_last(), name);
        if strategy_index(s, name) is None {
            assert forall|i: int| 0 <= i < s.len() implies (#[trigger] s[i]).name != name by {
                if i < s.len() - 1 {
                    assert(s.drop_last()[i].name != name);
                }
            }
        }
    }
}

/// Registration keeps names unique.
pub proof fn names_stay_unique(s: Seq<StrategyView>, info: StrategyView)
    requires
        distinct_names(s),
    ensures
        distinct_names(with_strategy(s, info)),
{
    lemma_strategy_index(s, info.name);
    let t = with_strategy(s, info);
    assert forall|i: int, j: int| 0 <= i < j < t.len() implies (#[trigger] t[i]).name != (#[trigger] t[j]).name by {
        match strategy_index(s, info.name) {
            Some(k) => {
                assert(t[i].name == s[i].name && t[j].name == s[j].name);
            },
            None => {
                assert(t[i].name == s[i].name);
                if j < s.len() {
                    assert(t[j].name == s[j].name);
                }
            },
        }
    }
}

/// The step that is found to have stopped a run is the first whose action is to
/// abort.
pub proof fn the_first_abort_is_found(s: Seq<StepView>, i: int)
    requires
        0 <= i < s.len(),
        s[i].action == "abort"@,
        forall|j: int| 0 <= j < i ==> (#[trigger] s[j]).action != "abort"@,
    ensures
        first_abort(s) == Some(s[i]),
{
    let part = s.subrange(0, i + 1);
    assert(part.drop_last() =~= s.subrange(0, i));
    assert forall|j: int| 0 <= j < i implies (#[trigger] part.drop_last()[j]).action != "abort"@ by {
        assert(s[j].action != "abort"@);
    }
    without_an_abort_none_is_found(part.drop_last());
    lemma_first_abort_prefix(s, i + 1);
}

/// Where no step aborts, none is found, nor an explanation.
pub proof fn without_an_abort_none_is_found(s: Seq<StepView>)
    requires
        forall|j: int| 0 <= j < s.len() ==> (#[trigger] s[j]).action != "abort"@,
    ensures
        first_abort(s) is None,
        first_explanation(s) is None,
    decreases s.len(),
{
    if s.len() > 0 {
        assert forall|j: int| 0 <= j < s.drop_last().len() implies (#[trigger] s.drop_last()[j]).action != "abort"@ by {
            assert(s[j].action != "abort"@);
        }
        assert(s[s.len() - 1].action != "abort"@);
        without_an_abort_none_is_found(s.drop_last());
    }
}

/// The explanation of a run that was stopped is that of the first step that
/// aborted and gave one.
pub proof fn the_first_explanation_is_found(s: Seq<StepView>, i: int)
    requires
        0 <= i < s.len(),
        s[i].action == "abort"@,
        s[i].explanation is Some,
        forall|j: int| 0 <= j < i ==> (#[trigger] s[j]).action != "abort"@ || s[j].explanation is None,
    ensures
        first_explanation(s) == s[i].explanation,
{
    let part = s.subrange(0, i + 1);
    assert(part.drop_last() =~= s.subrange(0, i));
    lemma_silent_aborts(s, i);
    lemma_first_explanation_prefix(s, i + 1);
}

proof fn lemma_silent_aborts(s: Seq<StepView>, n: int)
    requires
        0 <= n <= s.len(),
        forall|j: int| 0 <= j < n ==> (#[trigger] s[j]).action != "abort"@ || s[j].explanation is None,
    ensures
        first_explanation(s.subrange(0, n)) is None,
    decreases n,
{
    if n > 0 {
        assert(s.subrange(0, n).drop_last() =~= s.subrange(0, n - 1));
        lemma_silent_aborts(s, n - 1);
        assert(s.subrange(0, n).last() == s[n - 1]);
    }
}

/// A strategy that is registered is listed under its name with what it says, the
/// others stay, and no place is left out.
pub proof fn a_registered_strategy_is_listed(s: Seq<StrategyView>, info: StrategyView)
    requires
        distinct_names(s),
    ensures
        with_strategy(s, info).contains(info),
        forall|i: int| 0 <= i < s.len() && (#[trigger] s[i]).name != info.name ==> with_strategy(s, info)[i] == s[i],
        forall|i: int|
            0 <= i < s.len() && (#[trigger] s[i]).name == info.name ==> with_strategy(s, info).len() == s.len()
                && with_strategy(s, info)[i] == info,
        (forall|i: int| 0 <= i < s.len() ==> (#[trigger] s[i]).name != info.name) ==> with_strategy(s, info) == s.push(info),
{
    lemma_strategy_index(s, info.name);
    let t = with_strategy(s, info);
    match strategy_index(s, info.name) {
        Some(k) => {
            assert(t[k] == info);
        },
        None => {
            assert(t[s.len() as int] == info);
        },
    }
}

} // verus!

//! The ordered list of middleware and the runs over it.
use vstd::prelude::*;
use vstd::string::*;
use crate::clock::Timestamp;
use crate::error_code::ErrorCode;
use crate::errors::{ErrorView, ModuleError};
use crate::json::{empty_object, Json, JsonValue, put};
use crate::middleware::base::{MAX_MIDDLEWARE_PRIORITY, OnErrorOutcome};
use crate::text::{cat4, cat5, decimal, str_eq};
use crate::clock;
use crate::error_code;
use crate::errors;
use crate::text;

verus! {

/// A registered middleware: its name, its priority, and the number under which
/// its implementation is kept.
#[derive(Debug)]
pub struct MiddlewareEntry {
    pub name: String,
    pub priority: u16,
    pub id: u64,
}

/// The mathematical contents of an entry.
#[verifier::ext_equal]
pub struct EntryView {
    pub name: Seq<char>,
    pub priority: int,
    pub id: int,
}

impl View for MiddlewareEntry {
    type V = EntryView;

    open spec fn view(&self) -> EntryView {
        EntryView { name: self.name@, priority: self.priority as int, id: self.id as int }
    }
}

/// The middleware of a pipeline, those of higher priority first.
#[derive(Debug)]
pub struct MiddlewareManager {
    middlewares: Vec<MiddlewareEntry>,
}

/// Whether entries are ordered by falling priority.
pub open spec fn by_priority(s: Seq<EntryView>) -> bool {
    forall|i: int, j: int| 0 <= i < j < s.len() ==> (#[trigger] s[i]).priority >= (#[trigger] s[j]).priority
}

/// The position of the first entry of lower priority, at the end if there is
/// none.
pub open spec fn insertion_point(s: Seq<EntryView>, priority: int) -> int
    decreases s.len(),
{
    if s.len() == 0 {
        0
    } else if insertion_point(s.drop_last(), priority) < s.len() - 1 {
        insertion_point(s.drop_last(), priority)
    } else if s.last().priority < priority {
        s.len() - 1
    } else {
        s.len() as int
    }
}

/// The insertion point splits the entries: before it none is of lower
/// priority, and at it one is.
pub proof fn lemma_insertion_point(s: Seq<EntryView>, priority: int)
    ensures
        0 <= insertion_point(s, priority) <= s.len(),
        forall|i: int| 0 <= i < insertion_point(s, priority) ==> (#[trigger] s[i]).priority >= priority,
        insertion_point(s, priority) < s.len() ==> s[insertion_point(s, priority)].priority < priority,
    decreases s.len(),
{
    if s.len() > 0 {
        lemma_insertion_point(s.drop_last(), priority);
        let p = insertion_point(s.drop_last(), priority);
        assert forall|i: int| 0 <= i < insertion_point(s, priority) implies (#[trigger] s[i]).priority >= priority by {
            if i < p {
                assert(s.drop_last()[i].priority >= priority);
            }
        }
        if p < s.len() - 1 {
            assert(s.drop_last()[p] == s[p]);
        }
    }
}

/// The position of the first entry with a name.
pub open spec fn first_named(s: Seq<EntryView>, name: Seq<char>) -> Option<int>
    decreases s.len(),
{
    if s.len() == 0 {
        None
    } else {
        match first_named(s.drop_last(), name) {
            Some(i) => Some(i),
            None => if s.last().name == name {
                Some(s.len() - 1)
            } else {
                None
            },
        }
    }
}

/// Adding an entry keeps the order by priority.
pub proof fn adding_keeps_order(s: Seq<EntryView>, e: EntryView)
    requires
        by_priority(s),
    ensures
        by_priority(s.insert(insertion_point(s, e.priority), e)),
{
    lemma_insertion_point(s, e.priority);
    let p = insertion_point(s, e.priority);
    let t = s.insert(p, e);
    assert forall|i: int, j: int| 0 <= i < j < t.len() implies (#[trigger] t[i]).priority >= (#[trigger] t[j]).priority by {
        let a = if i < p { s[i] } else if i == p { e } else { s[i - 1] };
        let b = if j < p { s[j] } else if j == p { e } else { s[j - 1] };
        assert(t[i] == a && t[j] == b);
        if j == p {
            assert(s[i].priority >= e.priority);
        } else if i == p {
            assert(s[p].priority < e.priority);
            if p < j - 1 {
                assert(s[p].priority >= s[j - 1].priority);
            }
        }
    }
}

/// An entry is placed behind every entry of its own priority: among equals the
/// one that came first stays first.
pub proof fn equals_keep_their_order(s: Seq<EntryView>, e: EntryView, i: int)
    requires
        by_priority(s),
        0 <= i < s.len(),
        s[i].priority == e.priority,
    ensures
        i < insertion_point(s, e.priority),
{
    lemma_insertion_point(s, e.priority);
    let p = insertion_point(s, e.priority);
    if i >= p {
        assert(s[p].priority < e.priority);
        if p < i {
            assert(s[p].priority >= s[i].priority);
        }
    }
}

/// The entries of a list.
pub open spec fn entries_view(s: Seq<MiddlewareEntry>) -> Seq<EntryView> {
    Seq::new(s.len(), |i: int| s[i]@)
}

/// The error for a priority out of range.
pub open spec fn priority_error(e: EntryView, timestamp: Timestamp) -> ErrorView {
    errors::plain_error(
        ErrorCode::GeneralInvalidInput,
        "Middleware '"@ + e.name + "' has priority "@ + text::decimal_text(e.priority as nat)
            + " which exceeds the maximum allowed value of 1000"@,
        timestamp,
    )
}

impl MiddlewareManager {
    /// The entries in pipeline order.
    pub closed spec fn entries(self) -> Seq<EntryView> {
        entries_view(self.middlewares@)
    }

    #[verifier::type_invariant]
    closed spec fn ordered(self) -> bool {
        by_priority(entries_view(self.middlewares@))
    }

    /// A manager without middleware.
    pub fn new() -> (r: Self)
        ensures
            r.entries() == Seq::<EntryView>::empty(),
    {
        let r = MiddlewareManager { middlewares: Vec::new() };
        assert(r.entries() =~= Seq::empty());
        r
    }

    /// Add a middleware behind those of the same or a higher priority. A
    /// priority over 1000 is refused.
    pub fn add(&mut self, middleware: MiddlewareEntry) -> (r: Result<(), ModuleError>)
        ensures
            by_priority(final(self).entries()),
            r is Ok <==> middleware.priority <= 1000,
            match r {
                Ok(_) => final(self).entries() == old(self).entries().insert(
                    insertion_point(old(self).entries(), middleware.priority as int),
                    middleware@,
                ),
                Err(e) => final(self).entries() == old(self).entries() && e@ == priority_error(
                    middleware@,
                    e@.timestamp,
                ),
            },
    {
        proof {
            use_type_invariant(&*self);
        }
        if middleware.priority > MAX_MIDDLEWARE_PRIORITY {
            let shown = decimal(middleware.priority as u64);
            let message = cat5(
                "Middleware '",
                middleware.name.as_str(),
                "' has priority ",
                shown.as_str(),
                " which exceeds the maximum allowed value of 1000",
            );
            return Err(ModuleError::new(ErrorCode::GeneralInvalidInput, message.as_str()));
        }
        let ghost s = self.entries();
        let ghost e = middleware@;
        let pos = self.insertion_index(middleware.priority);
        let mut list: Vec<MiddlewareEntry> = Vec::new();
        assert(entries_view(list@) =~= Seq::empty());
        std::mem::swap(&mut list, &mut self.middlewares);
        proof {
            lemma_insertion_point(s, e.priority);
            adding_keeps_order(s, e);
        }
        list.insert(pos, middleware);
        assert(entries_view(list@) =~= s.insert(pos as int, e));
        self.middlewares = list;
        Ok(())
    }

    fn insertion_index(&self, priority: u16) -> (r: usize)
        ensures
            r == insertion_point(self.entries(), priority as int),
            r <= self.entries().len(),
    {
        let n: usize = self.middlewares.len();
        let mut i: usize = 0;
        assert(self.entries().subrange(0, 0) =~= Seq::empty());
        while i < n
            invariant
                i <= n,
                n == self.entries().len(),
                n == self.middlewares.len(),
                insertion_point(self.entries().subrange(0, i as int), priority as int) == i,
            decreases n - i,
        {
            let ghost part = self.entries().subrange(0, i + 1);
            assert(part.drop_last() =~= self.entries().subrange(0, i as int));
            assert(part.last() == self.middlewares@[i as int]@);
            if self.middlewares[i].priority < priority {
                proof {
                    lemma_prefix_point(self.entries(), i + 1, priority as int);
                }
                return i;
            }
            i = i + 1;
        }
        assert(self.entries().subrange(0, n as int) =~= self.entries());
        n
    }

    /// Remove the first middleware of a name.
    pub fn remove(&mut self, name: &str) -> (r: bool)
        ensures
            by_priority(final(self).entries()),
            match first_named(old(self).entries(), name@) {
                Some(i) => r && final(self).entries() == old(self).entries().remove(i),
                None => !r && final(self).entries() == old(self).entries(),
            },
    {
        proof {
            use_type_invariant(&*self);
        }
        let ghost s = self.entries();
        match self.position(name) {
            Some(i) => {
                let mut list: Vec<MiddlewareEntry> = Vec::new();
                assert(entries_view(list@) =~= Seq::empty());
                std::mem::swap(&mut list, &mut self.middlewares);
                let _gone = list.remove(i);
                proof {
                    let t = s.remove(i as int);
                    assert(entries_view(list@) =~= t);
                    assert forall|a: int, b: int| 0 <= a < b < t.len() implies (#[trigger] t[a]).priority >= (#[trigger] t[b]).priority by {
                        let a2 = if a < i { a } else { a + 1 };
                        let b2 = if b < i { b } else { b + 1 };
                        assert(t[a] == s[a2] && t[b] == s[b2]);
                    }
                }
                self.middlewares = list;
                true
            },
            None => false,
        }
    }

    /// The position of the first middleware of a name.
    pub fn position(&self, name: &str) -> (r: Option<usize>)
        ensures
            match r {
                Some(i) => first_named(self.entries(), name@) == Some(i as int) && i < self.entries().len(),
                None => first_named(self.entries(), name@) is None,
            },
    {
        let n: usize = self.middlewares.len();
        let mut i: usize = 0;
        assert(self.entries().subrange(0, 0) =~= Seq::empty());
        while i < n
            invariant
                i <= n,
                n == self.entries().len(),
                n == self.middlewares.len(),
                first_named(self.entries().subrange(0, i as int), name@) is None,
            decreases n - i,
        {
            let ghost part = self.entries().subrange(0, i + 1);
            assert(part.drop_last() =~= self.entries().subrange(0, i as int));
            assert(part.last() == self.middlewares@[i as int]@);
            if str_eq(self.middlewares[i].name.as_str(), name) {
                proof {
                    lemma_prefix_named(self.entries(), i + 1, name@);
                }
                return Some(i);
            }
            i = i + 1;
        }
        assert(self.entries().subrange(0, n as int) =~= self.entries());
        None
    }

    /// Number of middlewares.
    pub fn len(&self) -> (r: usize)
        ensures
            r == self.entries().len(),
    {
        self.middlewares.len()
    }

    /// The entry at a position.
    pub fn entry(&self, i: usize) -> (r: &MiddlewareEntry)
        requires
            i < self.entries().len(),
        ensures
            r@ == self.entries()[i as int],
    {
        &self.middlewares[i]
    }

    /// The names in pipeline order.
    pub fn snapshot(&self) -> (r: Vec<String>)
        ensures
            text::texts(r@) == names_of(self.entries()),
    {
        let mut out: Vec<String> = Vec::new();
        let mut i: usize = 0;
        while i < self.middlewares.len()
            invariant
                i <= self.middlewares.len(),
                out@.len() == i,
                forall|j: int| 0 <= j < i ==> (#[trigger] out@[j])@ == self.middlewares@[j].name@,
            decreases self.middlewares.len() - i,
        {
            out.push(self.middlewares[i].name.clone());
            i = i + 1;
        }
        assert(text::texts(out@) =~= names_of(self.entries()));
        out
    }
}

impl Default for MiddlewareManager {
    fn default() -> (r: Self)
        ensures
            r.entries() == Seq::<EntryView>::empty(),
    {
        MiddlewareManager::new()
    }
}

/// The names of entries.
pub open spec fn names_of(s: Seq<EntryView>) -> Seq<Seq<char>> {
    Seq::new(s.len(), |i: int| s[i].name)
}

/// An insertion point inside a prefix is that of the whole.
proof fn lemma_prefix_point(s: Seq<EntryView>, n: int, priority: int)
    requires
        0 <= n <= s.len(),
        insertion_point(s.subrange(0, n), priority) < n,
    ensures
        insertion_point(s, priority) == insertion_point(s.subrange(0, n), priority),
    decreases s.len() - n,
{
    if n == s.len() {
        assert(s.subrange(0, n) =~= s);
    } else {
        let t = s.subrange(0, n + 1);
        assert(t.drop_last() =~= s.subrange(0, n));
        lemma_prefix_point(s, n + 1, priority);
    }
}

/// A name found inside a prefix is found in the whole.
proof fn lemma_prefix_named(s: Seq<EntryView>, n: int, name: Seq<char>)
    requires
        0 <= n <= s.len(),
        first_named(s.subrange(0, n), name) is Some,
    ensures
        first_named(s, name) == first_named(s.subrange(0, n), name),
    decreases s.len() - n,
{
    if n == s.len() {
        assert(s.subrange(0, n) =~= s);
    } else {
        let t = s.subrange(0, n + 1);
        assert(t.drop_last() =~= s.subrange(0, n));
        lemma_prefix_named(s, n + 1, name);
    }
}

// ---------------------------------------------------------------------------
// Runs
// ---------------------------------------------------------------------------

/// The error that wraps the failure of a before hook. The failure is kept whole
/// under `details["inner_error"]`.
pub open spec fn chain_error(name: Seq<char>, e: ErrorView, timestamp: Timestamp) -> ErrorView {
    ErrorView {
        details: map!["inner_error"@ => Json::Obj(errors::error_fields(e))],
        cause: Some("Middleware '"@ + name + "' before() failed: "@ + ("["@ + error_code::code_name(e.code) + "] "@ + e.message)),
        ..errors::plain_error(ErrorCode::MiddlewareChainError, e.message, timestamp)
    }
}

/// A run of the before hooks, first middleware first. Each hook may replace the
/// inputs; the first failure ends the run.
#[derive(Debug)]
pub struct BeforeRun {
    inputs: JsonValue,
    next: usize,
    total: usize,
}

impl BeforeRun {
    /// The current inputs.
    pub closed spec fn current(self) -> Json {
        self.inputs@
    }

    /// How many hooks were called.
    pub closed spec fn called(self) -> int {
        self.next as int
    }

    /// How many hooks there are.
    pub closed spec fn hooks(self) -> int {
        self.total as int
    }

    /// A run over a number of middlewares.
    pub fn start(total: usize, inputs: JsonValue) -> (r: Self)
        ensures
            r.current() == inputs@,
            r.called() == 0,
            r.hooks() == total,
    {
        BeforeRun { inputs, next: 0, total }
    }

    /// The middleware whose hook is due.
    pub fn pending(&self) -> (r: Option<usize>)
        ensures
            r == (if self.called() < self.hooks() {
                Some(self.called() as usize)
            } else {
                None
            }),
    {
        if self.next < self.total {
            Some(self.next)
        } else {
            None
        }
    }

    /// The inputs for the next hook.
    pub fn inputs(&self) -> (r: &JsonValue)
        ensures
            r@ == self.current(),
    {
        &self.inputs
    }

    /// Take the answer of the hook that was due. A middleware counts as called
    /// also where its hook fails.
    pub fn settle(&mut self, name: &str, answer: Result<Option<JsonValue>, ModuleError>) -> (r: Result<(), ModuleError>)
        requires
            old(self).called() < old(self).hooks(),
        ensures
            final(self).called() == old(self).called() + 1,
            final(self).hooks() == old(self).hooks(),
            match answer {
                Ok(Some(v)) => r is Ok && final(self).current() == v@,
                Ok(None) => r is Ok && final(self).current() == old(self).current(),
                Err(e) => final(self).current() == old(self).current() && (r matches Err(x) && x@ == chain_error(
                    name@,
                    e@,
                    x@.timestamp,
                ) && (clock::is_point(e.timestamp) ==> errors::unwrapped_chain_error(x@) == Some(e@))),
            },
    {
        self.next = self.next + 1;
        match answer {
            Ok(Some(v)) => {
                self.inputs = v;
                Ok(())
            },
            Ok(None) => Ok(()),
            Err(e) => Err(chain_failure(name, &e)),
        }
    }

    /// The positions of the middlewares whose hooks were called.
    pub fn executed(&self) -> (r: Vec<usize>)
        ensures
            r@ == Seq::new(self.called() as nat, |i: int| i as usize),
    {
        let mut out: Vec<usize> = Vec::new();
        let mut i: usize = 0;
        while i < self.next
            invariant
                i <= self.next,
                out@ == Seq::new(i as nat, |j: int| j as usize),
            decreases self.next - i,
        {
            out.push(i);
            i = i + 1;
            assert(out@ =~= Seq::new(i as nat, |j: int| j as usize));
        }
        out
    }

    /// The inputs at the end of the run.
    pub fn finish(self) -> (r: JsonValue)
        ensures
            r@ == self.current(),
    {
        self.inputs
    }
}

fn chain_failure(name: &str, e: &ModuleError) -> (r: ModuleError)
    ensures
        r@ == chain_error(name@, e@, r@.timestamp),
        clock::is_point(e.timestamp) ==> errors::unwrapped_chain_error(r@) == Some(e@),
{
    let mut details = empty_object();
    put(&mut details, "inner_error", e.to_dict());
    let shown = e.to_text();
    let cause = cat4("Middleware '", name, "' before() failed: ", shown.as_str());
    let r = ModuleError::new(ErrorCode::MiddlewareChainError, e.message.as_str()).with_details(details).with_cause(
        cause.as_str(),
    );
    assert(r@.details =~= chain_error(name@, e@, r@.timestamp).details);
    r
}

/// A run of the after hooks, last middleware first. Each hook may replace the
/// output; the first failure ends the run.
#[derive(Debug)]
pub struct AfterRun {
    output: JsonValue,
    left: usize,
}

impl AfterRun {
    /// The current output.
    pub closed spec fn current(self) -> Json {
        self.output@
    }

    /// How many hooks are still due.
    pub closed spec fn due(self) -> int {
        self.left as int
    }

    /// A run over a number of middlewares.
    pub fn start(total: usize, output: JsonValue) -> (r: Self)
        ensures
            r.current() == output@,
            r.due() == total,
    {
        AfterRun { output, left: total }
    }

    /// The middleware whose hook is due.
    pub fn pending(&self) -> (r: Option<usize>)
        ensures
            r == (if self.due() > 0 {
                Some((self.due() - 1) as usize)
            } else {
                None
            }),
    {
        if self.left > 0 {
            Some(self.left - 1)
        } else {
            None
        }
    }

    /// The output for the next hook.
    pub fn output(&self) -> (r: &JsonValue)
        ensures
            r@ == self.current(),
    {
        &self.output
    }

    /// Take the answer of the hook that was due.
    pub fn settle(&mut self, answer: Result<Option<JsonValue>, ModuleError>) -> (r: Result<(), ModuleError>)
        requires
            old(self).due() > 0,
        ensures
            final(self).due() == old(self).due() - 1,
            match answer {
                Ok(Some(v)) => r is Ok && final(self).current() == v@,
                Ok(None) => r is Ok && final(self).current() == old(self).current(),
                Err(e) => final(self).current() == old(self).current() && r == Err::<(), ModuleError>(e),
            },
    {
        self.left = self.left - 1;
        match answer {
            Ok(Some(v)) => {
                self.output = v;
                Ok(())
            },
            Ok(None) => Ok(()),
            Err(e) => Err(e),
        }
    }

    /// The output at the end of the run.
    pub fn finish(self) -> (r: JsonValue)
        ensures
            r@ == self.current(),
    {
        self.output
    }
}

/// A run of the error hooks over the middlewares that were called, last first.
/// The first hook that answers with a value ends the run; a hook that fails is
/// passed over, as is a position beyond the list.
#[derive(Debug)]
pub struct ErrorRun {
    executed: Vec<usize>,
    left: usize,
    total: usize,
}

/// The last of the first `n` positions that lies below `total`.
pub open spec fn last_valid(executed: Seq<usize>, n: int, total: int) -> Option<int>
    decreases n,
{
    if n <= 0 {
        None
    } else if executed[n - 1] < total {
        Some(n - 1)
    } else {
        last_valid(executed, n - 1, total)
    }
}

impl ErrorRun {
    /// The positions of the middlewares that were called.
    pub closed spec fn positions(self) -> Seq<usize> {
        self.executed@
    }

    /// How many positions are still to be looked at.
    pub closed spec fn due(self) -> int {
        self.left as int
    }

    /// How many middlewares there are.
    pub closed spec fn hooks(self) -> int {
        self.total as int
    }

    #[verifier::type_invariant]
    closed spec fn in_bounds(self) -> bool {
        self.left <= self.executed@.len()
    }

    /// A run over the middlewares that were called.
    pub fn start(total: usize, executed: Vec<usize>) -> (r: Self)
        ensures
            r.positions() == executed@,
            r.due() == executed@.len(),
            r.hooks() == total,
    {
        let left: usize = executed.len();
        ErrorRun { executed, left, total }
    }

    /// Move to the next middleware whose hook is due. `None` ends the run.
    pub fn advance(&mut self) -> (r: Option<usize>)
        ensures
            final(self).positions() == old(self).positions(),
            final(self).hooks() == old(self).hooks(),
            match last_valid(old(self).positions(), old(self).due(), old(self).hooks()) {
                Some(i) => r == Some(old(self).positions()[i]) && final(self).due() == i,
                None => r is None && final(self).due() == 0,
            },
    {
        proof {
            use_type_invariant(&*self);
        }
        while self.left > 0
            invariant
                self.positions() == old(self).positions(),
                self.hooks() == old(self).hooks(),
                self.left <= self.executed@.len(),
                last_valid(old(self).positions(), old(self).due(), old(self).hooks()) == last_valid(
                    self.positions(),
                    self.left as int,
                    self.hooks(),
                ),
            decreases self.left,
        {
            let i: usize = self.executed[self.left - 1];
            self.left = self.left - 1;
            if i < self.total {
                return Some(i);
            }
        }
        None
    }

    /// Whether the answer of a hook ends the run, and with which value.
    pub fn settle(answer: Result<Option<OnErrorOutcome>, ModuleError>) -> (r: Option<OnErrorOutcome>)
        ensures
            r == (match answer {
                Ok(Some(v)) => Some(v),
                _ => None,
            }),
    {
        match answer {
            Ok(Some(v)) => Some(v),
            _ => None,
        }
    }
}

/// A new middleware stands behind all that have at least its priority and before
/// all that have less; the others keep their order.
pub proof fn a_middleware_stands_by_its_priority(s: Seq<EntryView>, e: EntryView)
    requires
        by_priority(s),
    ensures
        ({
            let p = insertion_point(s, e.priority);
            &&& 0 <= p <= s.len()
            &&& forall|i: int| 0 <= i < s.len() ==> (i < p <==> (#[trigger] s[i]).priority >= e.priority)
        }),
{
    lemma_insertion_point(s, e.priority);
    let p = insertion_point(s, e.priority);
    assert forall|i: int| 0 <= i < s.len() implies (i < p <==> (#[trigger] s[i]).priority >= e.priority) by {
        if i >= p {
            assert(s[p].priority < e.priority);
            if i > p {
                assert(s[p].priority >= s[i].priority);
            }
        }
    }
}

/// The middleware of a name is the first that has it, and none where none has it.
pub proof fn the_first_of_a_name_is_found(s: Seq<EntryView>, name: Seq<char>)
    ensures
        first_named(s, name) matches Some(i) ==> 0 <= i < s.len() && s[i].name == name && forall|j: int|
            0 <= j < i ==> (#[trigger] s[j]).name != name,
        first_named(s, name) is None ==> forall|j: int| 0 <= j < s.len() ==> (#[trigger] s[j]).name != name,
    decreases s.len(),
{
    if s.len() > 0 {
        let p = s.drop_last();
        the_first_of_a_name_is_found(p, name);
        match first_named(p, name) {
            Some(i) => {
                assert(p[i] == s[i]);
                assert forall|j: int| 0 <= j < i implies (#[trigger] s[j]).name != name by {
                    assert(p[j] == s[j]);
                }
            },
            None => {
                assert forall|j: int| 0 <= j < s.len() - 1 implies (#[trigger] s[j]).name != name by {
                    assert(p[j] == s[j]);
                }
            },
        }
    }
}

/// The error of a chain keeps the message of the middleware that failed, names the
/// middleware, and has its whole error inside.
pub proof fn a_chain_error_keeps_the_cause(name: Seq<char>, e: ErrorView, timestamp: Timestamp)
    requires
        clock::time_of_text(clock::time_text(e.timestamp)) == Some(e.timestamp),
    ensures
        chain_error(name, e, timestamp).code == ErrorCode::MiddlewareChainError,
        chain_error(name, e, timestamp).message == e.message,
        chain_error(name, e, timestamp).cause matches Some(t) && text::has_infix(t, name) && text::has_infix(t, e.message),
        errors::unwrapped_chain_error(chain_error(name, e, timestamp)) == Some(e),
{
    let r = chain_error(name, e, timestamp);
    let t = r.cause->0;
    let tail = "["@ + error_code::code_name(e.code) + "] "@ + e.message;
    text::a_part_stands_between(t, name, "Middleware '"@, "' before() failed: "@ + tail);
    assert(t =~= "Middleware '"@ + name + ("' before() failed: "@ + tail));
    let front = "Middleware '"@ + name + "' before() failed: "@ + ("["@ + error_code::code_name(e.code) + "] "@);
    text::a_part_stands_between(t, e.message, front, Seq::empty());
    assert(t =~= front + e.message + Seq::<char>::empty());
    errors::a_chain_error_unwraps(r, e);
}

/// The error hooks run from the last middleware that was called to the first: the
/// next is the last whose place there is a hook for, and none where there is none.
pub proof fn the_last_called_is_asked_first(executed: Seq<usize>, n: int, total: int)
    requires
        0 <= n <= executed.len(),
    ensures
        last_valid(executed, n, total) matches Some(i) ==> 0 <= i < n && executed[i] < total && forall|j: int|
            i < j < n ==> (#[trigger] executed[j]) >= total,
        last_valid(executed, n, total) is None ==> forall|j: int| 0 <= j < n ==> (#[trigger] executed[j]) >= total,
    decreases n,
{
    if n > 0 && executed[n - 1] >= total {
        the_last_called_is_asked_first(executed, n - 1, total);
    }
}

/// A priority above 1000 is refused with an error that names the middleware and
/// the priority.
pub proof fn a_priority_that_is_too_high_is_named(e: EntryView, timestamp: Timestamp)
    requires
        e.priority >= 0,
    ensures
        ({
            let r = priority_error(e, timestamp);
            &&& r.code == ErrorCode::GeneralInvalidInput
            &&& r.timestamp == timestamp
            &&& text::has_infix(r.message, "'"@ + e.name + "'"@)
            &&& text::has_infix(r.message, " "@ + text::decimal_text(e.priority as nat) + " "@)
        }),
{
    let a = "Middleware '"@;
    let b = "' has priority "@;
    let c = " which exceeds the maximum allowed value of 1000"@;
    let n = text::decimal_text(e.priority as nat);
    let all = a + e.name + b + n + c;
    reveal_strlit("Middleware '");
    reveal_strlit("' has priority ");
    reveal_strlit(" which exceeds the maximum allowed value of 1000");
    reveal_strlit("'");
    reveal_strlit(" ");
    let p = "'"@ + e.name + "'"@;
    text::a_part_stands_between(all, p, a.drop_last(), b.skip(1) + n + c);
    assert(all =~= a.drop_last() + p + (b.skip(1) + n + c));
    let q = " "@ + n + " "@;
    text::a_part_stands_between(all, q, a + e.name + b.drop_last(), c.skip(1));
    assert(all =~= a + e.name + b.drop_last() + q + c.skip(1));
}

} // verus!

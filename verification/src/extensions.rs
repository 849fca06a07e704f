//! Extension points and what is registered at them.
use vstd::prelude::*;
use vstd::string::*;
use crate::clock::Timestamp;
use crate::error_code::ErrorCode;
use crate::errors::{ErrorView, ModuleError};
use crate::middleware::manager::MiddlewareManager;
use crate::text::{cat3, cat5, str_eq};
use crate::errors;
use crate::middleware::manager;

verus! {

/// A point at which extensions can be registered.
#[derive(Debug)]
pub struct ExtensionPoint {
    pub name: String,
    pub description: String,
    /// Whether more than one extension can be registered.
    pub multiple: bool,
}

/// The built-in points.
#[derive(Debug, Clone, Copy, PartialEq, Eq, Structural)]
pub enum Slot {
    Discoverer,
    Middleware,
    Acl,
    SpanExporter,
    ModuleValidator,
    ApprovalHandler,
}

/// An extension: its kind, and the number that stands for the object itself.
#[derive(Debug, Clone, Copy, PartialEq, Eq, Structural)]
pub enum ExtensionKind {
    Discoverer(u64),
    Middleware(u64),
    Acl(u64),
    SpanExporter(u64),
    ModuleValidator(u64),
    ApprovalHandler(u64),
}

/// Identifies one registration.
#[derive(Debug, Clone, Copy, PartialEq, Eq, Structural)]
pub struct ExtensionHandle(pub u64);

/// An extension that is registered.
#[derive(Debug, Clone, Copy, PartialEq, Eq, Structural)]
pub struct Registration {
    pub extension: ExtensionKind,
    pub handle: ExtensionHandle,
}

/// The point that an extension belongs to.
pub open spec fn slot_of(e: ExtensionKind) -> Slot {
    match e {
        ExtensionKind::Discoverer(_) => Slot::Discoverer,
        ExtensionKind::Middleware(_) => Slot::Middleware,
        ExtensionKind::Acl(_) => Slot::Acl,
        ExtensionKind::SpanExporter(_) => Slot::SpanExporter,
        ExtensionKind::ModuleValidator(_) => Slot::ModuleValidator,
        ExtensionKind::ApprovalHandler(_) => Slot::ApprovalHandler,
    }
}

/// The number that stands for the object of an extension.
pub open spec fn object_of(e: ExtensionKind) -> u64 {
    match e {
        ExtensionKind::Discoverer(x) => x,
        ExtensionKind::Middleware(x) => x,
        ExtensionKind::Acl(x) => x,
        ExtensionKind::SpanExporter(x) => x,
        ExtensionKind::ModuleValidator(x) => x,
        ExtensionKind::ApprovalHandler(x) => x,
    }
}

/// The name of a point.
pub open spec fn slot_name(s: Slot) -> Seq<char> {
    match s {
        Slot::Discoverer => "discoverer"@,
        Slot::Middleware => "middleware"@,
        Slot::Acl => "acl"@,
        Slot::SpanExporter => "span_exporter"@,
        Slot::ModuleValidator => "module_validator"@,
        Slot::ApprovalHandler => "approval_handler"@,
    }
}

/// What a point accepts, in words.
pub open spec fn slot_description(s: Slot) -> Seq<char> {
    match s {
        Slot::Discoverer => "Custom module discovery strategy"@,
        Slot::Middleware => "Execution middleware"@,
        Slot::Acl => "Access control provider"@,
        Slot::SpanExporter => "Tracing span exporter"@,
        Slot::ModuleValidator => "Custom module validation"@,
        Slot::ApprovalHandler => "Approval handler for Step 4.5 gate"@,
    }
}

/// The name of the kind of extension that a point accepts.
pub open spec fn slot_variant(s: Slot) -> Seq<char> {
    match s {
        Slot::Discoverer => "Discoverer"@,
        Slot::Middleware => "Middleware"@,
        Slot::Acl => "Acl"@,
        Slot::SpanExporter => "SpanExporter"@,
        Slot::ModuleValidator => "ModuleValidator"@,
        Slot::ApprovalHandler => "ApprovalHandler"@,
    }
}

/// Whether more than one extension can be registered at a point.
pub open spec fn takes_many(s: Slot) -> bool {
    s == Slot::Middleware || s == Slot::SpanExporter
}

/// The point with a name.
pub open spec fn slot_named(name: Seq<char>) -> Option<Slot> {
    if name == "discoverer"@ {
        Some(Slot::Discoverer)
    } else if name == "middleware"@ {
        Some(Slot::Middleware)
    } else if name == "acl"@ {
        Some(Slot::Acl)
    } else if name == "span_exporter"@ {
        Some(Slot::SpanExporter)
    } else if name == "module_validator"@ {
        Some(Slot::ModuleValidator)
    } else if name == "approval_handler"@ {
        Some(Slot::ApprovalHandler)
    } else {
        None
    }
}

/// Every point is found under its name, and no other is.
pub proof fn slot_names_are_distinct(s: Slot, name: Seq<char>)
    ensures
        slot_named(slot_name(s)) == Some(s),
        slot_named(name) == Some(s) <==> name == slot_name(s),
{
    reveal_strlit("discoverer");
    reveal_strlit("middleware");
    reveal_strlit("acl");
    reveal_strlit("span_exporter");
    reveal_strlit("module_validator");
    reveal_strlit("approval_handler");
    let a = slot_name(s);
    assert("middleware"@.len() == 10 && "discoverer"@.len() == 10 && "acl"@.len() == 3 && "span_exporter"@.len() == 13
        && "module_validator"@.len() == 16 && "approval_handler"@.len() == 16);
    assert("middleware"@[0] == 'm' && "discoverer"@[0] == 'd');
    assert("module_validator"@[0] == 'm' && "approval_handler"@[0] == 'a');
}

impl Slot {
    /// The name of the point.
    pub fn name(self) -> (r: &'static str)
        ensures
            r@ == slot_name(self),
    {
        match self {
            Slot::Discoverer => "discoverer",
            Slot::Middleware => "middleware",
            Slot::Acl => "acl",
            Slot::SpanExporter => "span_exporter",
            Slot::ModuleValidator => "module_validator",
            Slot::ApprovalHandler => "approval_handler",
        }
    }

    fn description(self) -> (r: &'static str)
        ensures
            r@ == slot_description(self),
    {
        match self {
            Slot::Discoverer => "Custom module discovery strategy",
            Slot::Middleware => "Execution middleware",
            Slot::Acl => "Access control provider",
            Slot::SpanExporter => "Tracing span exporter",
            Slot::ModuleValidator => "Custom module validation",
            Slot::ApprovalHandler => "Approval handler for Step 4.5 gate",
        }
    }

    fn variant_name(self) -> (r: &'static str)
        ensures
            r@ == slot_variant(self),
    {
        match self {
            Slot::Discoverer => "Discoverer",
            Slot::Middleware => "Middleware",
            Slot::Acl => "Acl",
            Slot::SpanExporter => "SpanExporter",
            Slot::ModuleValidator => "ModuleValidator",
            Slot::ApprovalHandler => "ApprovalHandler",
        }
    }

    /// Whether more than one extension can be registered at the point.
    pub fn multiple(self) -> (r: bool)
        ensures
            r == takes_many(self),
    {
        match self {
            Slot::Middleware => true,
            Slot::SpanExporter => true,
            _ => false,
        }
    }

    /// The point with a name.
    pub fn named(name: &str) -> (r: Option<Slot>)
        ensures
            r == slot_named(name@),
    {
        if str_eq(name, "discoverer") {
            Some(Slot::Discoverer)
        } else if str_eq(name, "middleware") {
            Some(Slot::Middleware)
        } else if str_eq(name, "acl") {
            Some(Slot::Acl)
        } else if str_eq(name, "span_exporter") {
            Some(Slot::SpanExporter)
        } else if str_eq(name, "module_validator") {
            Some(Slot::ModuleValidator)
        } else if str_eq(name, "approval_handler") {
            Some(Slot::ApprovalHandler)
        } else {
            None
        }
    }
}

impl ExtensionKind {
    /// The point that the extension belongs to.
    pub fn slot(self) -> (r: Slot)
        ensures
            r == slot_of(self),
    {
        match self {
            ExtensionKind::Discoverer(_) => Slot::Discoverer,
            ExtensionKind::Middleware(_) => Slot::Middleware,
            ExtensionKind::Acl(_) => Slot::Acl,
            ExtensionKind::SpanExporter(_) => Slot::SpanExporter,
            ExtensionKind::ModuleValidator(_) => Slot::ModuleValidator,
            ExtensionKind::ApprovalHandler(_) => Slot::ApprovalHandler,
        }
    }

    /// The number that stands for the object.
    pub fn object(self) -> (r: u64)
        ensures
            r == object_of(self),
    {
        match self {
            ExtensionKind::Discoverer(x) => x,
            ExtensionKind::Middleware(x) => x,
            ExtensionKind::Acl(x) => x,
            ExtensionKind::SpanExporter(x) => x,
            ExtensionKind::ModuleValidator(x) => x,
            ExtensionKind::ApprovalHandler(x) => x,
        }
    }

    /// The name of the point that the extension belongs to.
    pub fn point_name(self) -> (r: &'static str)
        ensures
            r@ == slot_name(slot_of(self)),
    {
        self.slot().name()
    }
}

/// The registrations at a point, in order.
pub open spec fn at_slot(s: Seq<Registration>, slot: Slot) -> Seq<Registration>
    decreases s.len(),
{
    if s.len() == 0 {
        Seq::empty()
    } else if slot_of(s.last().extension) == slot {
        at_slot(s.drop_last(), slot).push(s.last())
    } else {
        at_slot(s.drop_last(), slot)
    }
}

/// The registrations at the other points, in order.
pub open spec fn off_slot(s: Seq<Registration>, slot: Slot) -> Seq<Registration>
    decreases s.len(),
{
    if s.len() == 0 {
        Seq::empty()
    } else if slot_of(s.last().extension) == slot {
        off_slot(s.drop_last(), slot)
    } else {
        off_slot(s.drop_last(), slot).push(s.last())
    }
}

/// The extensions of registrations.
pub open spec fn extensions_of(s: Seq<Registration>) -> Seq<ExtensionKind> {
    Seq::new(s.len(), |i: int| s[i].extension)
}

/// What is registered after a registration: at a point that takes one
/// extension, the new one replaces the old.
pub open spec fn with_registration(s: Seq<Registration>, r: Registration) -> Seq<Registration> {
    let slot = slot_of(r.extension);
    if takes_many(slot) {
        s.push(r)
    } else {
        off_slot(s, slot).push(r)
    }
}

/// Position of the first registration of an object at a point.
pub open spec fn first_of_object(s: Seq<Registration>, slot: Slot, object: u64) -> Option<int>
    decreases s.len(),
{
    if s.len() == 0 {
        None
    } else {
        match first_of_object(s.drop_last(), slot, object) {
            Some(i) => Some(i),
            None => if slot_of(s.last().extension) == slot && object_of(s.last().extension) == object {
                Some(s.len() - 1)
            } else {
                None
            },
        }
    }
}

/// Position of the registration with a handle.
pub open spec fn with_handle(s: Seq<Registration>, h: ExtensionHandle) -> Option<int>
    decreases s.len(),
{
    if s.len() == 0 {
        None
    } else {
        match with_handle(s.drop_last(), h) {
            Some(i) => Some(i),
            None => if s.last().handle == h {
                Some(s.len() - 1)
            } else {
                None
            },
        }
    }
}

/// Handles grow with the order of registration and lie below a bound.
pub open spec fn handles_grow(s: Seq<Registration>, bound: u64) -> bool {
    &&& forall|i: int| 0 <= i < s.len() ==> (#[trigger] s[i]).handle.0 < bound
    &&& forall|i: int, j: int| 0 <= i < j < s.len() ==> (#[trigger] s[i]).handle.0 < (#[trigger] s[j]).handle.0
}

/// Every point that takes one extension has at most one.
pub open spec fn single_slots_hold_one(s: Seq<Registration>) -> bool {
    forall|slot: Slot| !takes_many(slot) ==> (#[trigger] at_slot(s, slot)).len() <= 1
}

/// The error for a point that does not exist, with the points that do.
pub open spec fn unknown_point(name: Seq<char>, timestamp: Timestamp) -> ErrorView {
    errors::plain_error(
        ErrorCode::GeneralInvalidInput,
        "Unknown extension point: '"@ + name
            + "'. Available: acl, approval_handler, discoverer, middleware, module_validator, span_exporter"@,
        timestamp,
    )
}

/// The error for a point that does not exist.
pub open spec fn unknown_point_briefly(name: Seq<char>, timestamp: Timestamp) -> ErrorView {
    errors::plain_error(ErrorCode::GeneralInvalidInput, "Unknown extension point: '"@ + name + "'"@, timestamp)
}

/// The error for an extension that does not belong to the point.
pub open spec fn wrong_kind(name: Seq<char>, slot: Slot, got: Slot, timestamp: Timestamp) -> ErrorView {
    errors::plain_error(
        ErrorCode::GeneralInvalidInput,
        "Extension for '"@ + name + "' must be an ExtensionKind::"@ + slot_variant(slot) + " variant, got \""@
            + slot_name(got) + "\""@,
        timestamp,
    )
}

fn unknown_point_error(name: &str) -> (r: ModuleError)
    ensures
        r@ == unknown_point(name@, r@.timestamp),
{
    let message = cat3(
        "Unknown extension point: '",
        name,
        "'. Available: acl, approval_handler, discoverer, middleware, module_validator, span_exporter",
    );
    ModuleError::new(ErrorCode::GeneralInvalidInput, message.as_str())
}

fn brief_unknown_point_error(name: &str) -> (r: ModuleError)
    ensures
        r@ == unknown_point_briefly(name@, r@.timestamp),
{
    let message = cat3("Unknown extension point: '", name, "'");
    ModuleError::new(ErrorCode::GeneralInvalidInput, message.as_str())
}

proof fn lemma_at_off(s: Seq<Registration>, slot: Slot, other: Slot)
    ensures
        at_slot(off_slot(s, slot), other) == (if other == slot {
            Seq::empty()
        } else {
            at_slot(s, other)
        }),
        off_slot(s, slot).len() <= s.len(),
    decreases s.len(),
{
    if s.len() > 0 {
        lemma_at_off(s.drop_last(), slot, other);
        if slot_of(s.last().extension) != slot {
            let t = off_slot(s, slot);
            assert(t.drop_last() =~= off_slot(s.drop_last(), slot));
        }
    }
}

proof fn lemma_off_grows(s: Seq<Registration>, slot: Slot, bound: u64)
    requires
        handles_grow(s, bound),
    ensures
        handles_grow(off_slot(s, slot), bound),
        forall|i: int| 0 <= i < off_slot(s, slot).len() ==> s.contains(#[trigger] off_slot(s, slot)[i]),
    decreases s.len(),
{
    if s.len() > 0 {
        let p = s.drop_last();
        assert(handles_grow(p, bound)) by {
            assert forall|i: int| 0 <= i < p.len() implies (#[trigger] p[i]).handle.0 < bound by {
                assert(p[i] == s[i]);
            }
            assert forall|i: int, j: int| 0 <= i < j < p.len() implies (#[trigger] p[i]).handle.0 < (#[trigger] p[j]).handle.0 by {
                assert(p[i] == s[i] && p[j] == s[j]);
            }
        }
        lemma_off_grows(p, slot, bound);
        let q = off_slot(p, slot);
        assert forall|i: int| 0 <= i < q.len() implies s.contains(#[trigger] q[i]) by {
            let k = choose|k: int| 0 <= k < p.len() && p[k] == q[i];
            assert(s[k] == q[i]);
        }
        if slot_of(s.last().extension) != slot {
            let t = off_slot(s, slot);
            assert(t =~= q.push(s.last()));
            assert(s[s.len() - 1] == s.last());
            assert forall|i: int, j: int| 0 <= i < j < t.len() implies (#[trigger] t[i]).handle.0 < (#[trigger] t[j]).handle.0 by {
                assert(t[i] == q[i]);
                if j == q.len() {
                    let k = choose|k: int| 0 <= k < p.len() && p[k] == q[i];
                    assert(s[k] == q[i] && k < s.len() - 1);
                    assert(s[k].handle.0 < s[s.len() - 1].handle.0);
                } else {
                    assert(t[j] == q[j]);
                }
            }
            assert forall|i: int| 0 <= i < t.len() implies s.contains(#[trigger] t[i]) by {
                if i < q.len() {
                    assert(t[i] == q[i]);
                }
            }
            assert forall|i: int| 0 <= i < t.len() implies (#[trigger] t[i]).handle.0 < bound by {
                let k = choose|k: int| 0 <= k < s.len() && s[k] == t[i];
                assert(s[k].handle.0 < bound);
            }
        }
    }
}

proof fn lemma_push_grows(s: Seq<Registration>, r: Registration, bound: u64, next: u64)
    requires
        handles_grow(s, bound),
        r.handle.0 == bound,
        next > bound,
    ensures
        handles_grow(s.push(r), next),
{
    let t = s.push(r);
    assert forall|i: int| 0 <= i < t.len() implies (#[trigger] t[i]).handle.0 < next by {
        if i < s.len() {
            assert(t[i] == s[i]);
        }
    }
    assert forall|i: int, j: int| 0 <= i < j < t.len() implies (#[trigger] t[i]).handle.0 < (#[trigger] t[j]).handle.0 by {
        assert(t[i] == s[i]);
        if j < s.len() {
            assert(t[j] == s[j]);
        }
    }
}

proof fn lemma_at_push(s: Seq<Registration>, r: Registration, slot: Slot)
    ensures
        at_slot(s.push(r), slot) == (if slot_of(r.extension) == slot {
            at_slot(s, slot).push(r)
        } else {
            at_slot(s, slot)
        }),
{
    assert(s.push(r).drop_last() =~= s);
}

/// Taking one registration away leaves the handles in order, and at each point
/// at most what was there.
proof fn lemma_remove(s: Seq<Registration>, i: int, bound: u64)
    requires
        handles_grow(s, bound),
        0 <= i < s.len(),
    ensures
        handles_grow(s.remove(i), bound),
        forall|slot: Slot| (#[trigger] at_slot(s.remove(i), slot)).len() <= at_slot(s, slot).len(),
        forall|slot: Slot| slot != slot_of(s[i].extension) ==> #[trigger] at_slot(s.remove(i), slot) == at_slot(s, slot),
    decreases s.len(),
{
    let t = s.remove(i);
    assert forall|k: int| 0 <= k < t.len() implies #[trigger] t[k] == s[if k < i { k } else { k + 1 }] by {}
    assert forall|a: int, b: int| 0 <= a < b < t.len() implies (#[trigger] t[a]).handle.0 < (#[trigger] t[b]).handle.0 by {
        let x = if a < i { a } else { a + 1 };
        let y = if b < i { b } else { b + 1 };
        assert(s[x].handle.0 < s[y].handle.0);
    }
    assert forall|slot: Slot|
        (#[trigger] at_slot(t, slot)).len() <= at_slot(s, slot).len() && (slot != slot_of(s[i].extension) ==> at_slot(t, slot)
            == at_slot(s, slot)) by {
        lemma_at_remove(s, i, slot);
    }
}

proof fn lemma_at_remove(s: Seq<Registration>, i: int, slot: Slot)
    requires
        0 <= i < s.len(),
    ensures
        at_slot(s.remove(i), slot).len() <= at_slot(s, slot).len(),
        slot_of(s[i].extension) == slot ==> at_slot(s.remove(i), slot).len() == at_slot(s, slot).len() - 1,
        slot_of(s[i].extension) != slot ==> at_slot(s.remove(i), slot) == at_slot(s, slot),
    decreases s.len(),
{
    let t = s.remove(i);
    if i == s.len() - 1 {
        assert(t =~= s.drop_last());
    } else {
        lemma_at_remove(s.drop_last(), i, slot);
        assert(t.drop_last() =~= s.drop_last().remove(i));
        assert(t.last() == s.last());
        assert(s.drop_last()[i] == s[i]);
    }
}

proof fn lemma_first_of_object(s: Seq<Registration>, n: int, slot: Slot, object: u64)
    requires
        0 <= n <= s.len(),
    ensures
        first_of_object(s.subrange(0, n), slot, object) matches Some(i) ==> first_of_object(s, slot, object) == Some(i),
        first_of_object(s, slot, object) matches Some(i) ==> 0 <= i < s.len() && slot_of(s[i].extension) == slot
            && object_of(s[i].extension) == object,
    decreases s.len(),
{
    if s.len() > 0 {
        if n == s.len() {
            assert(s.subrange(0, n) =~= s);
            lemma_first_of_object(s.drop_last(), n - 1, slot, object);
        } else {
            lemma_first_of_object(s.drop_last(), n, slot, object);
            assert(s.drop_last().subrange(0, n) =~= s.subrange(0, n));
        }
        if first_of_object(s.drop_last(), slot, object) is Some {
            let i = first_of_object(s.drop_last(), slot, object)->0;
            assert(s.drop_last()[i] == s[i]);
        }
    } else {
        assert(s.subrange(0, n) =~= s);
    }
}

proof fn lemma_with_handle(s: Seq<Registration>, n: int, h: ExtensionHandle)
    requires
        0 <= n <= s.len(),
    ensures
        with_handle(s.subrange(0, n), h) matches Some(i) ==> with_handle(s, h) == Some(i),
        with_handle(s, h) matches Some(i) ==> 0 <= i < s.len() && s[i].handle == h,
    decreases s.len(),
{
    if s.len() > 0 {
        if n == s.len() {
            assert(s.subrange(0, n) =~= s);
            lemma_with_handle(s.drop_last(), n - 1, h);
        } else {
            lemma_with_handle(s.drop_last(), n, h);
            assert(s.drop_last().subrange(0, n) =~= s.subrange(0, n));
        }
        if with_handle(s.drop_last(), h) is Some {
            let i = with_handle(s.drop_last(), h)->0;
            assert(s.drop_last()[i] == s[i]);
        }
    } else {
        assert(s.subrange(0, n) =~= s);
    }
}

/// How the exporters of spans are wired to the tracing middleware.
#[derive(Debug)]
pub enum ExporterWiring {
    /// There is none.
    Nothing,
    /// The one there is.
    Single(u64),
    /// All of them, behind one that hands each span to every one.
    Composite(Vec<u64>),
}

/// The name under which the tracing middleware stands in a chain.
pub const TRACING_NAME: &'static str = "tracing";

/// What is said where there are exporters and no tracing middleware to take them.
pub const EXPORTER_NOT_APPLIED: &'static str = "span_exporter extensions registered but no TracingMiddleware found in the executor middleware chain; exporter not applied";

/// What is done with the exporters of spans.
#[derive(Clone, Copy, Debug, PartialEq, Eq, Structural)]
pub enum ExporterStep {
    /// There is none, so nothing is done.
    Nothing,
    /// They are set on the middleware at this place of the chain.
    SetOn(usize),
    /// There is no tracing middleware to take them, and a warning says so.
    NotApplied,
}

/// The place in a chain of the middleware that takes the exporters: the first
/// one under the tracing name, given whether that one is the tracing middleware.
pub fn exporter_target(chain: &MiddlewareManager, is_tracing: bool) -> (r: Option<usize>)
    ensures
        match r {
            Some(i) => is_tracing && i < chain.entries().len() && manager::first_named(chain.entries(), TRACING_NAME@)
                == Some(i as int),
            None => !is_tracing || manager::first_named(chain.entries(), TRACING_NAME@) is None,
        },
{
    if is_tracing {
        chain.position(TRACING_NAME)
    } else {
        None
    }
}

/// What is done with exporters, given the middleware that takes them. A
/// middleware is never added for them.
pub fn exporter_step(exporters: &ExporterWiring, target: Option<usize>) -> (r: ExporterStep)
    ensures
        r == (match (exporters, target) {
            (ExporterWiring::Nothing, _) => ExporterStep::Nothing,
            (_, Some(i)) => ExporterStep::SetOn(i),
            (_, None) => ExporterStep::NotApplied,
        }),
{
    match exporters {
        ExporterWiring::Nothing => ExporterStep::Nothing,
        _ => match target {
            Some(i) => ExporterStep::SetOn(i),
            None => ExporterStep::NotApplied,
        },
    }
}

/// What is to be wired where.
#[derive(Debug)]
pub struct Wiring {
    pub discoverer: Option<u64>,
    pub module_validator: Option<u64>,
    pub acl: Option<u64>,
    pub approval_handler: Option<u64>,
    pub middleware: Vec<u64>,
    pub span_exporters: ExporterWiring,
}

/// The objects of registrations.
pub open spec fn objects_of(s: Seq<Registration>) -> Seq<u64> {
    Seq::new(s.len(), |i: int| object_of(s[i].extension))
}

/// The first object of registrations.
pub open spec fn first_object(s: Seq<Registration>) -> Option<u64> {
    if s.len() == 0 {
        None
    } else {
        Some(object_of(s[0].extension))
    }
}

/// Extension points and what is registered at them.
#[derive(Debug)]
pub struct ExtensionManager {
    registrations: Vec<Registration>,
    next_handle: u64,
}

impl Default for ExtensionManager {
    fn default() -> (r: Self)
        ensures
            r.all() == Seq::<Registration>::empty(),
            r.next() == 0,
            r.is_sound(),
    {
        ExtensionManager::new()
    }
}

impl ExtensionManager {
    /// Everything that is registered, in order.
    pub closed spec fn all(self) -> Seq<Registration> {
        self.registrations@
    }

    /// The number of the next handle.
    pub closed spec fn next(self) -> u64 {
        self.next_handle
    }

    #[verifier::type_invariant]
    spec fn well_formed(self) -> bool {
        self.is_sound()
    }

    /// Whether the handles grow along the registrations and stay below the next
    /// one, and a point that takes one extension holds no more.
    pub open spec fn is_sound(self) -> bool {
        handles_grow(self.all(), self.next()) && single_slots_hold_one(self.all())
    }

    /// A manager without registrations.
    pub fn new() -> (r: Self)
        ensures
            r.all() == Seq::<Registration>::empty(),
            r.next() == 0,
            r.is_sound(),
    {
        ExtensionManager { registrations: Vec::new(), next_handle: 0 }
    }

    /// Register an extension at its point. The handle is new.
    pub fn register(&mut self, point_name: &str, extension: ExtensionKind) -> (r: Result<ExtensionHandle, ModuleError>)
        requires
            old(self).next() < u64::MAX,
        ensures
            final(self).is_sound(),
            match slot_named(point_name@) {
                None => {
                    &&& r matches Err(e)
                    &&& e@ == unknown_point(point_name@, e@.timestamp)
                    &&& final(self).all() == old(self).all()
                    &&& final(self).next() == old(self).next()
                },
                Some(slot) => if slot_of(extension) != slot {
                    &&& r matches Err(e)
                    &&& e@ == wrong_kind(point_name@, slot, slot_of(extension), e@.timestamp)
                    &&& final(self).all() == old(self).all()
                    &&& final(self).next() == old(self).next()
                } else {
                    &&& r == Ok::<ExtensionHandle, ModuleError>(ExtensionHandle(old(self).next()))
                    &&& final(self).all() == with_registration(
                        old(self).all(),
                        Registration { extension, handle: ExtensionHandle(old(self).next()) },
                    )
                    &&& final(self).next() == old(self).next() + 1
                    &&& with_handle(old(self).all(), ExtensionHandle(old(self).next())) is None
                },
            },
    {
        proof {
            use_type_invariant(&*self);
        }
        let slot = match Slot::named(point_name) {
            Some(s) => s,
            None => {
                return Err(unknown_point_error(point_name));
            },
        };
        let got = extension.slot();
        if got != slot {
            let head = cat5("Extension for '", point_name, "' must be an ExtensionKind::", slot.variant_name(), " variant, got \"");
            let message = cat3(head.as_str(), got.name(), "\"");
            return Err(ModuleError::new(ErrorCode::GeneralInvalidInput, message.as_str()));
        }
        let handle = ExtensionHandle(self.next_handle);
        let next: u64 = self.next_handle + 1;
        let entry = Registration { extension, handle };
        let ghost s = self.registrations@;
        let mut list: Vec<Registration> = Vec::new();
        if slot.multiple() {
            list = copy_all(&self.registrations);
        } else {
            list = copy_off(&self.registrations, slot);
            proof {
                lemma_off_grows(s, slot, self.next_handle);
            }
        }
        let ghost base = list@;
        list.push(entry);
        proof {
            lemma_with_handle(s, s.len() as int, handle);
            lemma_push_grows(base, entry, self.next_handle, next);
            assert forall|x: Slot| !takes_many(x) implies (#[trigger] at_slot(list@, x)).len() <= 1 by {
                lemma_at_push(base, entry, x);
                lemma_at_off(s, slot, x);
                assert(at_slot(s, x).len() <= 1);
            }
        }
        *self = ExtensionManager { registrations: list, next_handle: next };
        Ok(handle)
    }

    /// The first extension registered at a point.
    pub fn get(&self, point_name: &str) -> (r: Result<Option<ExtensionKind>, ModuleError>)
        ensures
            self.is_sound(),
            match slot_named(point_name@) {
                None => r matches Err(e) && e@ == unknown_point(point_name@, e@.timestamp),
                Some(slot) => r == Ok::<Option<ExtensionKind>, ModuleError>(
                    if at_slot(self.all(), slot).len() == 0 {
                        None
                    } else {
                        Some(at_slot(self.all(), slot)[0].extension)
                    },
                ),
            },
    {
        proof {
            use_type_invariant(self);
        }
        match Slot::named(point_name) {
            Some(slot) => {
                let list = copy_at(&self.registrations, slot);
                if list.len() == 0 {
                    Ok(None)
                } else {
                    Ok(Some(list[0].extension))
                }
            },
            None => Err(unknown_point_error(point_name)),
        }
    }

    /// The extensions registered at a point, in order.
    pub fn get_all(&self, point_name: &str) -> (r: Result<Vec<ExtensionKind>, ModuleError>)
        ensures
            self.is_sound(),
            match slot_named(point_name@) {
                None => r matches Err(e) && e@ == unknown_point(point_name@, e@.timestamp),
                Some(slot) => r matches Ok(v) && v@ == extensions_of(at_slot(self.all(), slot)),
            },
    {
        proof {
            use_type_invariant(self);
        }
        match Slot::named(point_name) {
            Some(slot) => {
                let list = copy_at(&self.registrations, slot);
                let mut out: Vec<ExtensionKind> = Vec::new();
                let mut i: usize = 0;
                while i < list.len()
                    invariant
                        i <= list.len(),
                        out@ == extensions_of(list@).subrange(0, i as int),
                    decreases list.len() - i,
                {
                    out.push(list[i].extension);
                    i = i + 1;
                    assert(out@ =~= extensions_of(list@).subrange(0, i as int));
                }
                assert(out@ =~= extensions_of(list@));
                Ok(out)
            },
            None => Err(unknown_point_error(point_name)),
        }
    }

    /// Remove the first registration of an object at a point; whether there was
    /// one.
    pub fn unregister(&mut self, point_name: &str, extension: &ExtensionKind) -> (r: Result<bool, ModuleError>)
        ensures
            final(self).is_sound(),
            final(self).next() == old(self).next(),
            match slot_named(point_name@) {
                None => {
                    &&& r matches Err(e)
                    &&& e@ == unknown_point(point_name@, e@.timestamp)
                    &&& final(self).all() == old(self).all()
                },
                Some(slot) => match first_of_object(old(self).all(), slot, object_of(*extension)) {
                    Some(i) => r == Ok::<bool, ModuleError>(true) && final(self).all() == old(self).all().remove(i),
                    None => r == Ok::<bool, ModuleError>(false) && final(self).all() == old(self).all(),
                },
            },
    {
        proof {
            use_type_invariant(&*self);
        }
        let slot = match Slot::named(point_name) {
            Some(s) => s,
            None => {
                return Err(unknown_point_error(point_name));
            },
        };
        let target: u64 = extension.object();
        let ghost s = self.registrations@;
        let mut i: usize = 0;
        assert(s.subrange(0, 0) =~= Seq::empty());
        while i < self.registrations.len()
            invariant
                i <= self.registrations.len(),
                s == self.registrations@,
                *self == *old(self),
                target == object_of(*extension),
                slot_named(point_name@) == Some(slot),
                self.is_sound(),
                first_of_object(s.subrange(0, i as int), slot, target) is None,
            decreases self.registrations.len() - i,
        {
            let ghost part = s.subrange(0, i + 1);
            assert(part.drop_last() =~= s.subrange(0, i as int));
            assert(part.last() == s[i as int]);
            let e = self.registrations[i].extension;
            if e.slot() == slot && e.object() == target {
                proof {
                    lemma_first_of_object(s, i + 1, slot, target);
                }
                self.take_out(i);
                return Ok(true);
            }
            i = i + 1;
        }
        assert(s.subrange(0, s.len() as int) =~= s);
        Ok(false)
    }

    fn take_out(&mut self, i: usize)
        requires
            i < old(self).all().len(),
        ensures
            final(self).is_sound(),
            final(self).all() == old(self).all().remove(i as int),
            final(self).next() == old(self).next(),
    {
        proof {
            use_type_invariant(&*self);
            lemma_remove(self.registrations@, i as int, self.next_handle);
        }
        let ghost s = self.registrations@;
        let mut list = copy_all(&self.registrations);
        let _gone = list.remove(i);
        assert forall|slot: Slot| !takes_many(slot) implies (#[trigger] at_slot(list@, slot)).len() <= 1 by {
            assert(at_slot(s, slot).len() <= 1);
        }
        *self = ExtensionManager { registrations: list, next_handle: self.next_handle };
    }

    /// Remove the registration with a handle; whether there was one.
    pub fn unregister_handle(&mut self, handle: ExtensionHandle) -> (r: bool)
        ensures
            old(self).is_sound(),
            final(self).is_sound(),
            final(self).next() == old(self).next(),
            match with_handle(old(self).all(), handle) {
                Some(i) => r && final(self).all() == old(self).all().remove(i),
                None => !r && final(self).all() == old(self).all(),
            },
    {
        proof {
            use_type_invariant(&*self);
        }
        let ghost s = self.registrations@;
        let mut i: usize = 0;
        assert(s.subrange(0, 0) =~= Seq::empty());
        while i < self.registrations.len()
            invariant
                i <= self.registrations.len(),
                s == self.registrations@,
                *self == *old(self),
                self.is_sound(),
                with_handle(s.subrange(0, i as int), handle) is None,
            decreases self.registrations.len() - i,
        {
            let ghost part = s.subrange(0, i + 1);
            assert(part.drop_last() =~= s.subrange(0, i as int));
            assert(part.last() == s[i as int]);
            if self.registrations[i].handle == handle {
                proof {
                    lemma_with_handle(s, i + 1, handle);
                }
                self.take_out(i);
                return true;
            }
            i = i + 1;
        }
        assert(s.subrange(0, s.len() as int) =~= s);
        false
    }

    /// The number of extensions at a point, where the point exists.
    pub fn count(&self, point_name: &str) -> (r: Option<usize>)
        ensures
            self.is_sound(),
            match slot_named(point_name@) {
                None => r is None,
                Some(slot) => r matches Some(n) && n == at_slot(self.all(), slot).len() && (!takes_many(slot) ==> n <= 1),
            },
    {
        proof {
            use_type_invariant(self);
        }
        match Slot::named(point_name) {
            Some(slot) => Some(copy_at(&self.registrations, slot).len()),
            None => None,
        }
    }

    /// Whether a point has an extension.
    pub fn has(&self, point_name: &str) -> (r: Result<bool, ModuleError>)
        ensures
            self.is_sound(),
            match slot_named(point_name@) {
                None => r matches Err(e) && e@ == unknown_point_briefly(point_name@, e@.timestamp),
                Some(slot) => r == Ok::<bool, ModuleError>(at_slot(self.all(), slot).len() > 0),
            },
    {
        proof {
            use_type_invariant(self);
        }
        match Slot::named(point_name) {
            Some(slot) => Ok(copy_at(&self.registrations, slot).len() > 0),
            None => Err(brief_unknown_point_error(point_name)),
        }
    }

    /// The points.
    pub fn list_points(&self) -> (r: Vec<ExtensionPoint>)
        ensures
            r@.len() == 6,
            forall|i: int| 0 <= i < 6 ==> is_point(#[trigger] r@[i], slots()[i]),
    {
        let mut out: Vec<ExtensionPoint> = Vec::new();
        out.push(point(Slot::Discoverer));
        out.push(point(Slot::Middleware));
        out.push(point(Slot::Acl));
        out.push(point(Slot::SpanExporter));
        out.push(point(Slot::ModuleValidator));
        out.push(point(Slot::ApprovalHandler));
        out
    }

    /// Remove every extension at a point.
    pub fn clear(&mut self, point_name: &str) -> (r: Result<(), ModuleError>)
        ensures
            final(self).is_sound(),
            final(self).next() == old(self).next(),
            match slot_named(point_name@) {
                None => {
                    &&& r matches Err(e)
                    &&& e@ == unknown_point_briefly(point_name@, e@.timestamp)
                    &&& final(self).all() == old(self).all()
                },
                Some(slot) => r is Ok && final(self).all() == off_slot(old(self).all(), slot),
            },
    {
        proof {
            use_type_invariant(&*self);
        }
        match Slot::named(point_name) {
            Some(slot) => {
                let ghost s = self.registrations@;
                let list = copy_off(&self.registrations, slot);
                proof {
                    lemma_off_grows(s, slot, self.next_handle);
                    assert forall|x: Slot| !takes_many(x) implies (#[trigger] at_slot(list@, x)).len() <= 1 by {
                        lemma_at_off(s, slot, x);
                        assert(at_slot(s, x).len() <= 1);
                    }
                }
                *self = ExtensionManager { registrations: list, next_handle: self.next_handle };
                Ok(())
            },
            None => Err(brief_unknown_point_error(point_name)),
        }
    }

    /// Remove every extension.
    pub fn clear_all(&mut self)
        ensures
            final(self).is_sound(),
            final(self).all() == Seq::<Registration>::empty(),
            final(self).next() == old(self).next(),
    {
        proof {
            use_type_invariant(&*self);
        }
        *self = ExtensionManager { registrations: Vec::new(), next_handle: self.next_handle };
    }

    fn first_builtin(&self, slot: Slot) -> (r: Option<u64>)
        ensures
            r == first_object(at_slot(self.all(), slot)),
    {
        let list = copy_at(&self.registrations, slot);
        if list.len() == 0 {
            None
        } else {
            Some(list[0].extension.object())
        }
    }

    fn all_builtin(&self, slot: Slot) -> (r: Vec<u64>)
        ensures
            r@ == objects_of(at_slot(self.all(), slot)),
    {
        let list = copy_at(&self.registrations, slot);
        let mut out: Vec<u64> = Vec::new();
        let mut i: usize = 0;
        while i < list.len()
            invariant
                i <= list.len(),
                out@ == objects_of(list@).subrange(0, i as int),
            decreases list.len() - i,
        {
            out.push(list[i].extension.object());
            i = i + 1;
            assert(out@ =~= objects_of(list@).subrange(0, i as int));
        }
        assert(out@ =~= objects_of(list@));
        out
    }

    /// What is to be wired into the registry and the executor. The registrations
    /// stay.
    pub fn apply(&self) -> (r: Wiring)
        ensures
            self.is_sound(),
            r.discoverer == first_object(at_slot(self.all(), Slot::Discoverer)),
            r.module_validator == first_object(at_slot(self.all(), Slot::ModuleValidator)),
            r.acl == first_object(at_slot(self.all(), Slot::Acl)),
            r.approval_handler == first_object(at_slot(self.all(), Slot::ApprovalHandler)),
            r.middleware@ == objects_of(at_slot(self.all(), Slot::Middleware)),
            ({
                let e = objects_of(at_slot(self.all(), Slot::SpanExporter));
                match r.span_exporters {
                    ExporterWiring::Nothing => e.len() == 0,
                    ExporterWiring::Single(x) => e == seq![x],
                    ExporterWiring::Composite(v) => e.len() >= 2 && v@ == e,
                }
            }),
    {
        proof {
            use_type_invariant(self);
        }
        let exporters = self.all_builtin(Slot::SpanExporter);
        let span_exporters = if exporters.len() == 0 {
            ExporterWiring::Nothing
        } else if exporters.len() == 1 {
            let only: u64 = exporters[0];
            assert(exporters@ =~= seq![only]);
            ExporterWiring::Single(only)
        } else {
            ExporterWiring::Composite(exporters)
        };
        Wiring {
            discoverer: self.first_builtin(Slot::Discoverer),
            module_validator: self.first_builtin(Slot::ModuleValidator),
            acl: self.first_builtin(Slot::Acl),
            approval_handler: self.first_builtin(Slot::ApprovalHandler),
            middleware: self.all_builtin(Slot::Middleware),
            span_exporters,
        }
    }
}

/// The built-in points in order.
pub open spec fn slots() -> Seq<Slot> {
    seq![
        Slot::Discoverer,
        Slot::Middleware,
        Slot::Acl,
        Slot::SpanExporter,
        Slot::ModuleValidator,
        Slot::ApprovalHandler,
    ]
}

/// Whether a description is that of a point.
pub open spec fn is_point(p: ExtensionPoint, s: Slot) -> bool {
    p.name@ == slot_name(s) && p.description@ == slot_description(s) && p.multiple == takes_many(s)
}

fn point(s: Slot) -> (r: ExtensionPoint)
    ensures
        is_point(r, s),
{
    ExtensionPoint { name: s.name().to_owned(), description: s.description().to_owned(), multiple: s.multiple() }
}

fn copy_all(v: &Vec<Registration>) -> (r: Vec<Registration>)
    ensures
        r@ == v@,
{
    let mut out: Vec<Registration> = Vec::new();
    let mut i: usize = 0;
    while i < v.len()
        invariant
            i <= v.len(),
            out@ == v@.subrange(0, i as int),
        decreases v.len() - i,
    {
        out.push(v[i]);
        i = i + 1;
        assert(out@ =~= v@.subrange(0, i as int));
    }
    assert(out@ =~= v@);
    out
}

fn copy_at(v: &Vec<Registration>, slot: Slot) -> (r: Vec<Registration>)
    ensures
        r@ == at_slot(v@, slot),
{
    let mut out: Vec<Registration> = Vec::new();
    let mut i: usize = 0;
    assert(v@.subrange(0, 0) =~= Seq::empty());
    while i < v.len()
        invariant
            i <= v.len(),
            out@ == at_slot(v@.subrange(0, i as int), slot),
        decreases v.len() - i,
    {
        let ghost part = v@.subrange(0, i + 1);
        assert(part.drop_last() =~= v@.subrange(0, i as int));
        if v[i].extension.slot() == slot {
            out.push(v[i]);
        }
        i = i + 1;
    }
    assert(v@.subrange(0, v@.len() as int) =~= v@);
    out
}

fn copy_off(v: &Vec<Registration>, slot: Slot) -> (r: Vec<Registration>)
    ensures
        r@ == off_slot(v@, slot),
{
    let mut out: Vec<Registration> = Vec::new();
    let mut i: usize = 0;
    assert(v@.subrange(0, 0) =~= Seq::empty());
    while i < v.len()
        invariant
            i <= v.len(),
            out@ == off_slot(v@.subrange(0, i as int), slot),
        decreases v.len() - i,
    {
        let ghost part = v@.subrange(0, i + 1);
        assert(part.drop_last() =~= v@.subrange(0, i as int));
        if v[i].extension.slot() != slot {
            out.push(v[i]);
        }
        i = i + 1;
    }
    assert(v@.subrange(0, v@.len() as int) =~= v@);
    out
}

/// What a registration changes: at its point the extension comes last, or alone
/// where the point takes one; the other points keep what they had.
pub proof fn a_registration_shows_at_its_point(s: Seq<Registration>, r: Registration, slot: Slot)
    ensures
        at_slot(with_registration(s, r), slot) == (if slot != slot_of(r.extension) {
            at_slot(s, slot)
        } else if takes_many(slot) {
            at_slot(s, slot).push(r)
        } else {
            seq![r]
        }),
{
    let own = slot_of(r.extension);
    lemma_at_push(s, r, slot);
    lemma_at_push(off_slot(s, own), r, slot);
    lemma_at_off(s, own, slot);
    assert(Seq::<Registration>::empty().push(r) =~= seq![r]);
}

/// Clearing a point empties it and leaves the others.
pub proof fn clearing_empties_one_point(s: Seq<Registration>, slot: Slot, other: Slot)
    ensures
        at_slot(off_slot(s, slot), slot) == Seq::<Registration>::empty(),
        other != slot ==> at_slot(off_slot(s, slot), other) == at_slot(s, other),
{
    lemma_at_off(s, slot, slot);
    lemma_at_off(s, slot, other);
}

/// A handle names one registration: once that is removed, nothing has the handle
/// any more, and the registrations at the other points are untouched.
pub proof fn a_handle_removes_exactly_one(s: Seq<Registration>, bound: u64, h: ExtensionHandle)
    requires
        handles_grow(s, bound),
        with_handle(s, h) is Some,
    ensures
        ({
            let i = with_handle(s, h)->0;
            let t = s.remove(i);
            &&& with_handle(t, h) is None
            &&& t.len() == s.len() - 1
            &&& forall|slot: Slot|
                slot != slot_of(s[i].extension) ==> #[trigger] at_slot(t, slot) == at_slot(s, slot)
            &&& at_slot(t, slot_of(s[i].extension)).len() == at_slot(s, slot_of(s[i].extension)).len() - 1
        }),
{
    lemma_with_handle(s, s.len() as int, h);
    let i = with_handle(s, h)->0;
    let t = s.remove(i);
    lemma_remove(s, i, bound);
    lemma_at_remove(s, i, slot_of(s[i].extension));
    lemma_with_handle(t, t.len() as int, h);
    if with_handle(t, h) is Some {
        let j = with_handle(t, h)->0;
        let k = if j < i { j } else { j + 1 };
        assert(t[j] == s[k]);
        if k < i {
            assert(s[k].handle.0 < s[i].handle.0);
        } else {
            assert(s[i].handle.0 < s[k].handle.0);
        }
    }
}

/// Each kind of extension belongs to the point of its name, and carries its object.
pub proof fn extensions_belong_to_their_points(x: u64)
    ensures
        slot_of(ExtensionKind::Discoverer(x)) == Slot::Discoverer && object_of(ExtensionKind::Discoverer(x)) == x,
        slot_of(ExtensionKind::Middleware(x)) == Slot::Middleware && object_of(ExtensionKind::Middleware(x)) == x,
        slot_of(ExtensionKind::Acl(x)) == Slot::Acl && object_of(ExtensionKind::Acl(x)) == x,
        slot_of(ExtensionKind::SpanExporter(x)) == Slot::SpanExporter && object_of(ExtensionKind::SpanExporter(x)) == x,
        slot_of(ExtensionKind::ModuleValidator(x)) == Slot::ModuleValidator && object_of(ExtensionKind::ModuleValidator(x))
            == x,
        slot_of(ExtensionKind::ApprovalHandler(x)) == Slot::ApprovalHandler && object_of(ExtensionKind::ApprovalHandler(x))
            == x,
        slot_named("discoverer"@) == Some(Slot::Discoverer),
        slot_named("middleware"@) == Some(Slot::Middleware),
        slot_named("acl"@) == Some(Slot::Acl),
        slot_named("span_exporter"@) == Some(Slot::SpanExporter),
        slot_named("module_validator"@) == Some(Slot::ModuleValidator),
        slot_named("approval_handler"@) == Some(Slot::ApprovalHandler),
        forall|s: Slot| #[trigger] takes_many(s) <==> s == Slot::Middleware || s == Slot::SpanExporter,
{
    slot_names_are_distinct(Slot::Discoverer, "discoverer"@);
    slot_names_are_distinct(Slot::Middleware, "middleware"@);
    slot_names_are_distinct(Slot::Acl, "acl"@);
    slot_names_are_distinct(Slot::SpanExporter, "span_exporter"@);
    slot_names_are_distinct(Slot::ModuleValidator, "module_validator"@);
    slot_names_are_distinct(Slot::ApprovalHandler, "approval_handler"@);
}

/// At a point stand exactly the registrations of its extensions, in their order.
pub proof fn a_point_shows_its_registrations(s: Seq<Registration>, slot: Slot)
    ensures
        at_slot(s, slot) == s.filter(|r: Registration| slot_of(r.extension) == slot),
        off_slot(s, slot) == s.filter(|r: Registration| slot_of(r.extension) != slot),
    decreases s.len(),
{
    reveal(Seq::filter);
    if s.len() > 0 {
        a_point_shows_its_registrations(s.drop_last(), slot);
    }
}

/// The objects of a point are wired in the order of their registrations, and where
/// one is wanted it is the first.
pub proof fn objects_are_wired_in_order(s: Seq<Registration>)
    ensures
        objects_of(s).len() == s.len(),
        forall|i: int| 0 <= i < s.len() ==> #[trigger] objects_of(s)[i] == object_of(s[i].extension),
        s.len() > 0 ==> first_object(s) == Some(objects_of(s)[0]),
        s.len() == 0 ==> first_object(s) is None,
{
}

/// An object is found where it was registered first at the point.
pub proof fn the_first_of_an_object_is_found(s: Seq<Registration>, slot: Slot, object: u64, i: int)
    requires
        0 <= i < s.len(),
        slot_of(s[i].extension) == slot && object_of(s[i].extension) == object,
        forall|j: int| 0 <= j < i ==> slot_of((#[trigger] s[j]).extension) != slot || object_of(s[j].extension) != object,
    ensures
        first_of_object(s, slot, object) == Some(i),
    decreases s.len(),
{
    let p = s.drop_last();
    if i < p.len() {
        assert(p[i] == s[i]);
        assert forall|j: int| 0 <= j < i implies slot_of((#[trigger] p[j]).extension) != slot || object_of(p[j].extension)
            != object by {
            assert(p[j] == s[j]);
        }
        the_first_of_an_object_is_found(p, slot, object, i);
    } else {
        an_unregistered_object_is_not_found(p, slot, object);
    }
}

/// An object that is not registered at the point is not found.
pub proof fn an_unregistered_object_is_not_found(s: Seq<Registration>, slot: Slot, object: u64)
    requires
        forall|j: int|
            0 <= j < s.len() ==> slot_of((#[trigger] s[j]).extension) != slot || object_of(s[j].extension) != object,
    ensures
        first_of_object(s, slot, object) is None,
    decreases s.len(),
{
    if s.len() > 0 {
        let p = s.drop_last();
        assert forall|j: int| 0 <= j < p.len() implies slot_of((#[trigger] p[j]).extension) != slot || object_of(
            p[j].extension,
        ) != object by {
            assert(p[j] == s[j]);
        }
        assert(s[s.len() - 1] == s.last());
        an_unregistered_object_is_not_found(p, slot, object);
    }
}

/// A registration is found by its handle, where no other has the handle.
pub proof fn a_handle_finds_its_registration(s: Seq<Registration>, i: int)
    requires
        0 <= i < s.len(),
        forall|j: int| 0 <= j < s.len() && j != i ==> (#[trigger] s[j]).handle != s[i].handle,
    ensures
        with_handle(s, s[i].handle) == Some(i),
    decreases s.len(),
{
    let p = s.drop_last();
    if i < p.len() {
        assert forall|j: int| 0 <= j < p.len() && j != i implies (#[trigger] p[j]).handle != p[i].handle by {
            assert(p[j] == s[j]);
        }
        a_handle_finds_its_registration(p, i);
    } else {
        lemma_with_handle(p, p.len() as int, s[i].handle);
        if with_handle(p, s[i].handle) is Some {
            let j = with_handle(p, s[i].handle)->0;
            assert(p[j] == s[j]);
        }
    }
}

} // verus!

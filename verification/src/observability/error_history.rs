//! History of errors: repeated errors count, old errors leave.
use vstd::prelude::*;
use vstd::string::*;
use crate::clock::Timestamp;
use crate::digest::sha256_hex;
use crate::errors::ModuleError;
use crate::regexes::replace_all;
use crate::text::{cat5, clone_opt, str_eq, to_lower, trim};
use crate::clock;
use crate::digest;
use crate::error_code;
use crate::regexes;
use crate::text;

verus! {

/// An error, with how often and when it occurred.
#[derive(Debug)]
pub struct ErrorEntry {
    pub module_id: String,
    pub error_code: String,
    pub message: String,
    pub ai_guidance: Option<String>,
    pub timestamp: Timestamp,
    pub count: u64,
    pub first_occurred: Timestamp,
    pub last_occurred: Timestamp,
    /// By which repetitions of the error are recognised.
    pub fingerprint: String,
}

/// The mathematical contents of an entry.
#[verifier::ext_equal]
pub struct EntryView {
    pub module_id: Seq<char>,
    pub error_code: Seq<char>,
    pub message: Seq<char>,
    pub ai_guidance: Option<Seq<char>>,
    pub timestamp: Timestamp,
    pub count: int,
    pub first_occurred: Timestamp,
    pub last_occurred: Timestamp,
    pub fingerprint: Seq<char>,
}

impl View for ErrorEntry {
    type V = EntryView;

    open spec fn view(&self) -> EntryView {
        EntryView {
            module_id: self.module_id@,
            error_code: self.error_code@,
            message: self.message@,
            ai_guidance: text::opt_text(self.ai_guidance),
            timestamp: self.timestamp,
            count: self.count as int,
            first_occurred: self.first_occurred,
            last_occurred: self.last_occurred,
            fingerprint: self.fingerprint@,
        }
    }
}

impl Clone for ErrorEntry {
    fn clone(&self) -> (r: Self)
        ensures
            r@ == self@,
    {
        ErrorEntry {
            module_id: self.module_id.clone(),
            error_code: self.error_code.clone(),
            message: self.message.clone(),
            ai_guidance: clone_opt(&self.ai_guidance),
            timestamp: self.timestamp,
            count: self.count,
            first_occurred: self.first_occurred,
            last_occurred: self.last_occurred,
            fingerprint: self.fingerprint.clone(),
        }
    }
}

// ---------------------------------------------------------------------------
// Fingerprints
// ---------------------------------------------------------------------------

/// Matches an identifier in the form of a UUID.
pub const UUID_PATTERN: &'static str = "[0-9a-fA-F]{8}-[0-9a-fA-F]{4}-[0-9a-fA-F]{4}-[0-9a-fA-F]{4}-[0-9a-fA-F]{12}";

/// Matches a date or a point in time in the form of ISO 8601.
pub const ISO8601_PATTERN: &'static str = "\\d{4}-\\d{2}-\\d{2}(T\\d{2}:\\d{2}:\\d{2}(\\.\\d+)?(Z|[+-]\\d{2}:\\d{2})?)?";

/// Matches an integer of four digits or more.
pub const INTEGER_PATTERN: &'static str = "\\b\\d{4,}\\b";

/// A text with every match of a pattern replaced.
pub open spec fn swapped(pattern: Seq<char>, text: Seq<char>, replacement: Seq<char>) -> Seq<char> {
    match regexes::regex_replaced(pattern, text, replacement) {
        Some(t) => t,
        None => text,
    }
}

/// A message without what differs from one occurrence to the next: identifiers,
/// then points in time, then long integers give way to placeholders; what is
/// left is trimmed and in lower case.
pub open spec fn normalized(message: Seq<char>) -> Seq<char> {
    let a = swapped(UUID_PATTERN@, message, "<UUID>"@);
    let b = swapped(ISO8601_PATTERN@, a, "<TIMESTAMP>"@);
    let c = swapped(INTEGER_PATTERN@, b, "<ID>"@);
    text::lowercase(text::trimmed(c))
}

/// The fingerprint of an error whose message is normalized.
pub open spec fn fingerprint_of(error_code: Seq<char>, module_id: Seq<char>, message: Seq<char>) -> Seq<char> {
    digest::sha256_text(error_code + ":"@ + module_id + ":"@ + message)
}

fn swap(pattern: &str, text: String, replacement: &str) -> (r: String)
    ensures
        r@ == swapped(pattern@, text@, replacement@),
{
    match replace_all(pattern, text.as_str(), replacement) {
        Some(t) => t,
        None => text,
    }
}

/// A message without what differs from one occurrence to the next.
pub fn normalize_message(msg: &str) -> (r: String)
    ensures
        r@ == normalized(msg@),
{
    let a = swap(UUID_PATTERN, msg.to_owned(), "<UUID>");
    let b = swap(ISO8601_PATTERN, a, "<TIMESTAMP>");
    let c = swap(INTEGER_PATTERN, b, "<ID>");
    to_lower(trim(c.as_str()).as_str())
}

/// The fingerprint of an error whose message is normalized: 64 hexadecimal
/// digits.
pub fn fingerprint_of_normalized(error_code: &str, module_id: &str, normalized_message: &str) -> (r: String)
    ensures
        r@ == fingerprint_of(error_code@, module_id@, normalized_message@),
        r@.len() == 64,
        forall|i: int| 0 <= i < r@.len() ==> digest::is_hex_digit(#[trigger] r@[i]),
{
    sha256_hex(cat5(error_code, ":", module_id, ":", normalized_message).as_str())
}

/// The fingerprint of an error: 64 hexadecimal digits.
pub fn compute_fingerprint(error_code: &str, module_id: &str, message: &str) -> (r: String)
    ensures
        r@ == fingerprint_of(error_code@, module_id@, normalized(message@)),
        r@.len() == 64,
        forall|i: int| 0 <= i < r@.len() ==> digest::is_hex_digit(#[trigger] r@[i]),
{
    fingerprint_of_normalized(error_code, module_id, normalize_message(message).as_str())
}

/// The fingerprint of an error in a module: 64 hexadecimal digits.
pub fn compute_fingerprint_from_error(error: &ModuleError, module_id: &str) -> (r: String)
    ensures
        r@ == fingerprint_of(error_code::wire_name(error.code), module_id@, normalized(error.message@)),
        r@.len() == 64,
        forall|i: int| 0 <= i < r@.len() ==> digest::is_hex_digit(#[trigger] r@[i]),
{
    compute_fingerprint(error.code.wire_str(), module_id, error.message.as_str())
}

/// Errors of one code in one module whose messages are the same once normalized
/// have one fingerprint.
pub proof fn alike_messages_share_a_fingerprint(code: Seq<char>, module_id: Seq<char>, a: Seq<char>, b: Seq<char>)
    requires
        normalized(a) == normalized(b),
    ensures
        fingerprint_of(code, module_id, normalized(a)) == fingerprint_of(code, module_id, normalized(b)),
{
}

// ---------------------------------------------------------------------------
// The history as a value
// ---------------------------------------------------------------------------

/// The mathematical contents of a history: the entries in the order of their
/// first occurrence, the notes of occurrences in their order, and the number of
/// occurrences.
#[verifier::ext_equal]
pub struct HistoryView {
    pub entries: Seq<EntryView>,
    pub marks: Seq<(Timestamp, Seq<char>)>,
    pub seq: int,
}

/// The contents of entries.
pub open spec fn entries_of(s: Seq<ErrorEntry>) -> Seq<EntryView> {
    Seq::new(s.len(), |i: int| s[i]@)
}

/// The contents of notes.
pub open spec fn marks_of(s: Seq<(Timestamp, String)>) -> Seq<(Timestamp, Seq<char>)> {
    Seq::new(s.len(), |i: int| (s[i].0, s[i].1@))
}

/// Position of the entry with a fingerprint.
pub open spec fn find_entry(s: Seq<EntryView>, fingerprint: Seq<char>) -> Option<int>
    decreases s.len(),
{
    if s.len() == 0 {
        None
    } else {
        match find_entry(s.drop_last(), fingerprint) {
            Some(i) => Some(i),
            None => if s.last().fingerprint == fingerprint {
                Some(s.len() - 1)
            } else {
                None
            },
        }
    }
}

/// Position of the first entry of a module.
pub open spec fn first_of_module(s: Seq<EntryView>, module_id: Seq<char>) -> Option<int>
    decreases s.len(),
{
    if s.len() == 0 {
        None
    } else {
        match first_of_module(s.drop_last(), module_id) {
            Some(i) => Some(i),
            None => if s.last().module_id == module_id {
                Some(s.len() - 1)
            } else {
                None
            },
        }
    }
}

/// The entries of a module, in order.
pub open spec fn of_module(s: Seq<EntryView>, module_id: Seq<char>) -> Seq<EntryView>
    decreases s.len(),
{
    if s.len() == 0 {
        Seq::empty()
    } else if s.last().module_id == module_id {
        of_module(s.drop_last(), module_id).push(s.last())
    } else {
        of_module(s.drop_last(), module_id)
    }
}

/// The entries of the other modules, in order.
pub open spec fn off_module(s: Seq<EntryView>, module_id: Seq<char>) -> Seq<EntryView>
    decreases s.len(),
{
    if s.len() == 0 {
        Seq::empty()
    } else if s.last().module_id == module_id {
        off_module(s.drop_last(), module_id)
    } else {
        off_module(s.drop_last(), module_id).push(s.last())
    }
}

/// Position of the note of the earliest time, the first of them where several
/// have it.
pub open spec fn earliest(m: Seq<(Timestamp, Seq<char>)>) -> int
    decreases m.len(),
{
    if m.len() <= 1 {
        0
    } else {
        let k = earliest(m.drop_last());
        if clock::before(m.last().0, m[k].0) {
            m.len() - 1
        } else {
            k
        }
    }
}

/// Whether a note tells of the last occurrence of an entry.
pub open spec fn is_live(s: Seq<EntryView>, mark: (Timestamp, Seq<char>)) -> bool {
    find_entry(s, mark.1) matches Some(i) && s[i].last_occurred == mark.0
}

/// The history without the entry whose last occurrence is the earliest; notes
/// that the search meets are used up.
pub open spec fn without_oldest(h: HistoryView) -> HistoryView
    decreases h.marks.len(),
{
    if h.marks.len() == 0 {
        h
    } else {
        let i = earliest(h.marks);
        let rest = if 0 <= i < h.marks.len() {
            h.marks.remove(i)
        } else {
            h.marks.drop_last()
        };
        if is_live(h.entries, h.marks[i]) {
            HistoryView { entries: h.entries.remove(find_entry(h.entries, h.marks[i].1)->0), marks: rest, ..h }
        } else {
            without_oldest(HistoryView { marks: rest, ..h })
        }
    }
}

/// The history after a limit on the entries of a module: the module's oldest
/// entry leaves.
pub open spec fn module_trimmed(h: HistoryView, module_id: Seq<char>, max: int) -> HistoryView {
    if of_module(h.entries, module_id).len() > max {
        HistoryView { entries: h.entries.remove(first_of_module(h.entries, module_id)->0), ..h }
    } else {
        h
    }
}

/// The history after a limit on all entries.
pub open spec fn total_trimmed(h: HistoryView, max: int) -> HistoryView {
    if h.entries.len() > max {
        without_oldest(h)
    } else {
        h
    }
}

/// An entry after another occurrence.
pub open spec fn repeated(e: EntryView, when: Timestamp) -> EntryView {
    EntryView { count: e.count + 1, last_occurred: when, timestamp: when, ..e }
}

/// The history after an occurrence, for which this would be the entry if it is
/// the first of its kind: a repetition counts on the entry that is there, and
/// else the new entry is kept within the limits.
pub open spec fn recorded(h: HistoryView, fresh: EntryView, max_module: int, max_total: int) -> HistoryView {
    let marks = h.marks.push((fresh.timestamp, fresh.fingerprint));
    match find_entry(h.entries, fresh.fingerprint) {
        Some(i) => HistoryView {
            entries: h.entries.update(i, repeated(h.entries[i], fresh.timestamp)),
            marks,
            seq: h.seq + 1,
        },
        None => total_trimmed(
            module_trimmed(
                HistoryView { entries: h.entries.push(fresh), marks, seq: h.seq + 1 },
                fresh.module_id,
                max_module,
            ),
            max_total,
        ),
    }
}

/// No fingerprint occurs twice.
pub open spec fn distinct_fingerprints(s: Seq<EntryView>) -> bool {
    forall|i: int, j: int|
        0 <= i < s.len() && 0 <= j < s.len() && (#[trigger] s[i]).fingerprint == (#[trigger] s[j]).fingerprint ==> i == j
}

/// Every entry has a note of its last occurrence.
pub open spec fn marks_cover(h: HistoryView) -> bool {
    forall|i: int|
        0 <= i < h.entries.len() ==> h.marks.contains(((#[trigger] h.entries[i]).last_occurred, h.entries[i].fingerprint))
}

/// Every entry counts no more occurrences than there were.
pub open spec fn counts_fit(h: HistoryView) -> bool {
    forall|i: int| 0 <= i < h.entries.len() ==> 1 <= (#[trigger] h.entries[i]).count <= h.seq
}

/// The limits are kept.
pub open spec fn within_limits(h: HistoryView, max_module: int, max_total: int) -> bool {
    h.entries.len() <= max_total && forall|m: Seq<char>| (#[trigger] of_module(h.entries, m)).len() <= max_module
}

/// Whether a history is sound.
pub open spec fn is_sound(h: HistoryView, max_module: int, max_total: int) -> bool {
    distinct_fingerprints(h.entries) && marks_cover(h) && counts_fit(h) && within_limits(h, max_module, max_total)
}

proof fn lemma_find_entry(s: Seq<EntryView>, n: int, fp: Seq<char>)
    requires
        0 <= n <= s.len(),
    ensures
        find_entry(s.subrange(0, n), fp) matches Some(i) ==> find_entry(s, fp) == Some(i),
        find_entry(s, fp) matches Some(i) ==> 0 <= i < s.len() && s[i].fingerprint == fp,
        find_entry(s, fp) is None ==> forall|j: int| 0 <= j < s.len() ==> (#[trigger] s[j]).fingerprint != fp,
    decreases s.len(),
{
    if s.len() > 0 {
        if n == s.len() {
            assert(s.subrange(0, n) =~= s);
            lemma_find_entry(s.drop_last(), n - 1, fp);
        } else {
            lemma_find_entry(s.drop_last(), n, fp);
            assert(s.drop_last().subrange(0, n) =~= s.subrange(0, n));
        }
        if find_entry(s.drop_last(), fp) is Some {
            let i = find_entry(s.drop_last(), fp)->0;
            assert(s.drop_last()[i] == s[i]);
        } else {
            assert forall|j: int| 0 <= j < s.len() && find_entry(s, fp) is None implies (#[trigger] s[j]).fingerprint != fp by {
                if j < s.len() - 1 {
                    assert(s.drop_last()[j] == s[j]);
                }
            }
        }
    } else {
        assert(s.subrange(0, n) =~= s);
    }
}

proof fn lemma_first_of_module(s: Seq<EntryView>, n: int, m: Seq<char>)
    requires
        0 <= n <= s.len(),
    ensures
        first_of_module(s.subrange(0, n), m) matches Some(i) ==> first_of_module(s, m) == Some(i),
        first_of_module(s, m) matches Some(i) ==> 0 <= i < s.len() && s[i].module_id == m,
        first_of_module(s, m) is None ==> of_module(s, m).len() == 0,
    decreases s.len(),
{
    if s.len() > 0 {
        if n == s.len() {
            assert(s.subrange(0, n) =~= s);
            lemma_first_of_module(s.drop_last(), n - 1, m);
        } else {
            lemma_first_of_module(s.drop_last(), n, m);
            assert(s.drop_last().subrange(0, n) =~= s.subrange(0, n));
        }
        if first_of_module(s.drop_last(), m) is Some {
            let i = first_of_module(s.drop_last(), m)->0;
            assert(s.drop_last()[i] == s[i]);
        }
    } else {
        assert(s.subrange(0, n) =~= s);
    }
}

/// The note found is of the earliest time, and the first of that time.
proof fn lemma_earliest(m: Seq<(Timestamp, Seq<char>)>)
    requires
        m.len() > 0,
    ensures
        0 <= earliest(m) < m.len(),
        forall|j: int| 0 <= j < m.len() ==> !clock::before((#[trigger] m[j]).0, m[earliest(m)].0),
        forall|j: int| 0 <= j < earliest(m) ==> clock::before(m[earliest(m)].0, (#[trigger] m[j]).0),
    decreases m.len(),
{
    if m.len() > 1 {
        let p = m.drop_last();
        lemma_earliest(p);
        let k = earliest(p);
        assert(p[k] == m[k]);
        assert forall|j: int| 0 <= j < m.len() implies !clock::before((#[trigger] m[j]).0, m[earliest(m)].0) by {
            if j < p.len() {
                assert(p[j] == m[j]);
            }
        }
        assert forall|j: int| 0 <= j < earliest(m) implies clock::before(m[earliest(m)].0, (#[trigger] m[j]).0) by {
            assert(p[j] == m[j]);
        }
    }
}

proof fn lemma_of_module_remove(s: Seq<EntryView>, i: int, m: Seq<char>)
    requires
        0 <= i < s.len(),
    ensures
        of_module(s.remove(i), m).len() == of_module(s, m).len() - (if s[i].module_id == m { 1int } else { 0int }),
    decreases s.len(),
{
    let t = s.remove(i);
    if i == s.len() - 1 {
        assert(t =~= s.drop_last());
    } else {
        lemma_of_module_remove(s.drop_last(), i, m);
        assert(t.drop_last() =~= s.drop_last().remove(i));
        assert(t.last() == s.last());
        assert(s.drop_last()[i] == s[i]);
    }
}

proof fn lemma_of_module_update(s: Seq<EntryView>, i: int, e: EntryView, m: Seq<char>)
    requires
        0 <= i < s.len(),
        e.module_id == s[i].module_id,
    ensures
        of_module(s.update(i, e), m).len() == of_module(s, m).len(),
    decreases s.len(),
{
    let t = s.update(i, e);
    if i == s.len() - 1 {
        assert(t.drop_last() =~= s.drop_last());
    } else {
        lemma_of_module_update(s.drop_last(), i, e, m);
        assert(t.drop_last() =~= s.drop_last().update(i, e));
        assert(s.drop_last()[i] == s[i]);
    }
}

proof fn lemma_of_module_off(s: Seq<EntryView>, m: Seq<char>, x: Seq<char>)
    ensures
        of_module(off_module(s, m), x) == (if x == m {
            Seq::empty()
        } else {
            of_module(s, x)
        }),
        off_module(s, m).len() <= s.len(),
        forall|k: int| 0 <= k < off_module(s, m).len() ==> s.contains(#[trigger] off_module(s, m)[k]),
    decreases s.len(),
{
    if s.len() > 0 {
        let p = s.drop_last();
        lemma_of_module_off(p, m, x);
        let q = off_module(p, m);
        assert forall|k: int| 0 <= k < q.len() implies s.contains(#[trigger] q[k]) by {
            let j = choose|j: int| 0 <= j < p.len() && p[j] == q[k];
            assert(s[j] == q[k]);
        }
        if s.last().module_id != m {
            let t = off_module(s, m);
            assert(t.drop_last() =~= q);
            assert forall|k: int| 0 <= k < t.len() implies s.contains(#[trigger] t[k]) by {
                if k < q.len() {
                    assert(t[k] == q[k]);
                } else {
                    assert(s[s.len() - 1] == t[k]);
                }
            }
        }
    }
}

proof fn lemma_off_module_distinct(s: Seq<EntryView>, m: Seq<char>)
    requires
        distinct_fingerprints(s),
    ensures
        distinct_fingerprints(off_module(s, m)),
    decreases s.len(),
{
    if s.len() > 0 {
        let p = s.drop_last();
        assert(distinct_fingerprints(p)) by {
            assert forall|i: int, j: int|
                0 <= i < p.len() && 0 <= j < p.len() && (#[trigger] p[i]).fingerprint == (#[trigger] p[j]).fingerprint implies i == j by {
                assert(p[i] == s[i] && p[j] == s[j]);
            }
        }
        lemma_off_module_distinct(p, m);
        let q = off_module(p, m);
        let t = off_module(s, m);
        if s.last().module_id != m {
            assert(t =~= q.push(s.last()));
            lemma_of_module_off(p, m, m);
            assert forall|i: int, j: int|
                0 <= i < t.len() && 0 <= j < t.len() && (#[trigger] t[i]).fingerprint == (#[trigger] t[j]).fingerprint implies i == j by {
                let n = q.len() as int;
                if i < n && j < n {
                    assert(t[i] == q[i] && t[j] == q[j]);
                } else if i < n {
                    let k = choose|k: int| 0 <= k < p.len() && p[k] == q[i];
                    assert(s[k] == q[i]);
                    assert(s[s.len() - 1] == t[j]);
                } else if j < n {
                    let k = choose|k: int| 0 <= k < p.len() && p[k] == q[j];
                    assert(s[k] == q[j]);
                    assert(s[s.len() - 1] == t[i]);
                }
            }
        }
    }
}

proof fn lemma_remove_entry(h: HistoryView, v: int)
    requires
        distinct_fingerprints(h.entries),
        marks_cover(h),
        counts_fit(h),
        0 <= v < h.entries.len(),
    ensures
        ({
            let t = HistoryView { entries: h.entries.remove(v), ..h };
            distinct_fingerprints(t.entries) && marks_cover(t) && counts_fit(t)
        }),
{
    let s = h.entries;
    let t = s.remove(v);
    assert forall|k: int| 0 <= k < t.len() implies #[trigger] t[k] == s[if k < v { k } else { k + 1 }] by {}
    assert forall|i: int, j: int|
        0 <= i < t.len() && 0 <= j < t.len() && (#[trigger] t[i]).fingerprint == (#[trigger] t[j]).fingerprint implies i == j by {
        let x = if i < v { i } else { i + 1 };
        let y = if j < v { j } else { j + 1 };
        assert(s[x].fingerprint == s[y].fingerprint);
    }
}

/// The entry that leaves is one whose last occurrence is the earliest; nothing
/// else changes.
pub proof fn the_oldest_entry_leaves(h: HistoryView)
    requires
        distinct_fingerprints(h.entries),
        marks_cover(h),
        counts_fit(h),
        h.entries.len() > 0,
    ensures
        ({
            let t = without_oldest(h);
            &&& distinct_fingerprints(t.entries)
            &&& marks_cover(t)
            &&& counts_fit(t)
            &&& t.seq == h.seq
            &&& exists|v: int| #[trigger] leaves(h.entries, v) && t.entries == h.entries.remove(v)
        }),
    decreases h.marks.len(),
{
    assert(h.marks.contains((h.entries[0].last_occurred, h.entries[0].fingerprint)));
    lemma_earliest(h.marks);
    let i = earliest(h.marks);
    let mark = h.marks[i];
    let rest = h.marks.remove(i);
    let s = h.entries;
    lemma_find_entry(s, s.len() as int, mark.1);
    assert forall|j: int| 0 <= j < rest.len() implies #[trigger] rest[j] == h.marks[if j < i { j } else { j + 1 }] by {}
    assert forall|k: int|
        0 <= k < s.len() && !((#[trigger] s[k]).fingerprint == mark.1 && s[k].last_occurred == mark.0) implies rest.contains(
        (s[k].last_occurred, s[k].fingerprint),
    ) by {
        let want = (s[k].last_occurred, s[k].fingerprint);
        let x = choose|x: int| 0 <= x < h.marks.len() && h.marks[x] == want;
        assert(rest[if x < i { x } else { x - 1 }] == want);
    }
    if is_live(s, mark) {
        let v = find_entry(s, mark.1)->0;
        lemma_remove_entry(h, v);
        let t = s.remove(v);
        assert forall|k: int| 0 <= k < t.len() implies rest.contains(((#[trigger] t[k]).last_occurred, t[k].fingerprint)) by {
            let x = if k < v { k } else { k + 1 };
            assert(t[k] == s[x]);
            assert(s[x].fingerprint != s[v].fingerprint);
        }
        assert forall|j: int| 0 <= j < s.len() implies !clock::before((#[trigger] s[j]).last_occurred, s[v].last_occurred) by {
            let want = (s[j].last_occurred, s[j].fingerprint);
            let x = choose|x: int| 0 <= x < h.marks.len() && h.marks[x] == want;
            assert(!clock::before(h.marks[x].0, mark.0));
        }
        assert(leaves(s, v));
    } else {
        let g = HistoryView { marks: rest, ..h };
        assert forall|k: int| 0 <= k < s.len() implies rest.contains(((#[trigger] s[k]).last_occurred, s[k].fingerprint)) by {
            if s[k].fingerprint == mark.1 && s[k].last_occurred == mark.0 {
                let f = find_entry(s, mark.1)->0;
                assert(s[f].fingerprint == s[k].fingerprint);
            }
        }
        assert(marks_cover(g));
        the_oldest_entry_leaves(g);
    }
}

/// Whether the entry at a position is one that occurred last before, or as long
/// ago as, every other.
pub open spec fn leaves(s: Seq<EntryView>, v: int) -> bool {
    0 <= v < s.len() && forall|j: int| 0 <= j < s.len() ==> !clock::before((#[trigger] s[j]).last_occurred, s[v].last_occurred)
}

/// An occurrence keeps a history sound: one entry for each kind of error, and no
/// more than the limits allow.
pub proof fn recording_keeps_the_history_sound(h: HistoryView, fresh: EntryView, max_module: int, max_total: int)
    requires
        is_sound(h, max_module, max_total),
        max_module >= 0,
        max_total >= 0,
        h.seq >= 0,
        fresh.count == 1,
        fresh.last_occurred == fresh.timestamp,
    ensures
        is_sound(recorded(h, fresh, max_module, max_total), max_module, max_total),
        recorded(h, fresh, max_module, max_total).seq == h.seq + 1,
{
    let fp = fresh.fingerprint;
    let s = h.entries;
    let marks = h.marks.push((fresh.timestamp, fp));
    lemma_find_entry(s, s.len() as int, fp);
    assert forall|k: int| 0 <= k < s.len() implies marks.contains(((#[trigger] s[k]).last_occurred, s[k].fingerprint)) by {
        let want = (s[k].last_occurred, s[k].fingerprint);
        let x = choose|x: int| 0 <= x < h.marks.len() && h.marks[x] == want;
        assert(marks[x] == want);
    }
    assert(marks[marks.len() - 1] == (fresh.timestamp, fp));
    match find_entry(s, fp) {
        Some(i) => {
            let e = repeated(s[i], fresh.timestamp);
            let t = s.update(i, e);
            assert forall|m: Seq<char>| (#[trigger] of_module(t, m)).len() <= max_module by {
                lemma_of_module_update(s, i, e, m);
                assert(of_module(s, m).len() <= max_module);
            }
            assert forall|a: int, b: int|
                0 <= a < t.len() && 0 <= b < t.len() && (#[trigger] t[a]).fingerprint == (#[trigger] t[b]).fingerprint implies a == b by {
                assert(t[a].fingerprint == s[a].fingerprint && t[b].fingerprint == s[b].fingerprint);
            }
            assert forall|k: int| 0 <= k < t.len() implies marks.contains(((#[trigger] t[k]).last_occurred, t[k].fingerprint)) by {
                if k != i {
                    assert(t[k] == s[k]);
                }
            }
            assert forall|k: int| 0 <= k < t.len() implies 1 <= (#[trigger] t[k]).count <= h.seq + 1 by {
                assert(1 <= s[k].count <= h.seq);
            }
        },
        None => {
            let t = s.push(fresh);
            let h1 = HistoryView { entries: t, marks, seq: h.seq + 1 };
            assert forall|a: int, b: int|
                0 <= a < t.len() && 0 <= b < t.len() && (#[trigger] t[a]).fingerprint == (#[trigger] t[b]).fingerprint implies a == b by {
                if a < s.len() {
                    assert(t[a] == s[a]);
                }
                if b < s.len() {
                    assert(t[b] == s[b]);
                }
            }
            assert forall|k: int| 0 <= k < t.len() implies marks.contains(((#[trigger] t[k]).last_occurred, t[k].fingerprint)) by {
                if k < s.len() {
                    assert(t[k] == s[k]);
                }
            }
            assert forall|k: int| 0 <= k < t.len() implies 1 <= (#[trigger] t[k]).count <= h.seq + 1 by {
                if k < s.len() {
                    assert(t[k] == s[k]);
                }
            }
            assert(t.drop_last() =~= s);
            let m0 = fresh.module_id;
            let h2 = module_trimmed(h1, m0, max_module);
            if of_module(t, m0).len() > max_module {
                lemma_first_of_module(t, t.len() as int, m0);
                let f = first_of_module(t, m0)->0;
                lemma_remove_entry(h1, f);
                assert forall|m: Seq<char>| (#[trigger] of_module(h2.entries, m)).len() <= max_module by {
                    lemma_of_module_remove(t, f, m);
                    assert(of_module(s, m).len() <= max_module);
                }
            } else {
                assert forall|m: Seq<char>| (#[trigger] of_module(h2.entries, m)).len() <= max_module by {
                    assert(of_module(s, m).len() <= max_module);
                }
            }
            if h2.entries.len() > max_total {
                the_oldest_entry_leaves(h2);
                let h3 = without_oldest(h2);
                let v = choose|v: int| #[trigger] leaves(h2.entries, v) && h3.entries == h2.entries.remove(v);
                assert forall|m: Seq<char>| (#[trigger] of_module(h3.entries, m)).len() <= max_module by {
                    lemma_of_module_remove(h2.entries, v, m);
                    assert(of_module(h2.entries, m).len() <= max_module);
                }
            }
        },
    }
}

/// A repeated error adds no entry: it counts on the one that is there.
pub proof fn repetitions_count(h: HistoryView, fresh: EntryView, max_module: int, max_total: int)
    requires
        find_entry(h.entries, fresh.fingerprint) is Some,
    ensures
        ({
            let i = find_entry(h.entries, fresh.fingerprint)->0;
            let t = recorded(h, fresh, max_module, max_total).entries;
            &&& t.len() == h.entries.len()
            &&& t[i].count == h.entries[i].count + 1
            &&& t[i].first_occurred == h.entries[i].first_occurred
            &&& t[i].last_occurred == fresh.timestamp
            &&& forall|j: int| 0 <= j < t.len() && j != i ==> #[trigger] t[j] == h.entries[j]
        }),
{
    lemma_find_entry(h.entries, h.entries.len() as int, fresh.fingerprint);
}

// ---------------------------------------------------------------------------
// Newest first
// ---------------------------------------------------------------------------

/// A list with an entry added after the last one that is not older.
pub open spec fn inserted(s: Seq<EntryView>, e: EntryView) -> Seq<EntryView>
    decreases s.len(),
{
    if s.len() == 0 || !clock::before(s.last().last_occurred, e.last_occurred) {
        s.push(e)
    } else {
        inserted(s.drop_last(), e).push(s.last())
    }
}

/// Entries ordered from the newest to the oldest; those of one time keep their
/// order.
pub open spec fn newest_first(s: Seq<EntryView>) -> Seq<EntryView>
    decreases s.len(),
{
    if s.len() == 0 {
        Seq::empty()
    } else {
        inserted(newest_first(s.drop_last()), s.last())
    }
}

/// At most so many entries, if there is a limit.
pub open spec fn limited(s: Seq<EntryView>, limit: Option<usize>) -> Seq<EntryView> {
    match limit {
        Some(n) => if n < s.len() {
            s.subrange(0, n as int)
        } else {
            s
        },
        None => s,
    }
}

/// Whether no entry is older than one after it.
pub open spec fn is_newest_first(s: Seq<EntryView>) -> bool {
    forall|i: int, j: int| 0 <= i < j < s.len() ==> !clock::before((#[trigger] s[i]).last_occurred, (#[trigger] s[j]).last_occurred)
}

proof fn lemma_inserted(s: Seq<EntryView>, e: EntryView)
    requires
        is_newest_first(s),
    ensures
        is_newest_first(inserted(s, e)),
        inserted(s, e).len() == s.len() + 1,
        inserted(s, e).to_multiset() == s.to_multiset().insert(e),
        forall|k: int| 0 <= k < inserted(s, e).len() ==> (#[trigger] inserted(s, e)[k]) == e || s.contains(inserted(s, e)[k]),
    decreases s.len(),
{
    broadcast use vstd::seq_lib::group_to_multiset_ensures;
    let t = inserted(s, e);
    if s.len() == 0 || !clock::before(s.last().last_occurred, e.last_occurred) {
        assert forall|i: int, j: int| 0 <= i < j < t.len() implies !clock::before(
            (#[trigger] t[i]).last_occurred,
            (#[trigger] t[j]).last_occurred,
        ) by {
            assert(t[i] == s[i]);
            if j == s.len() {
                let k = s.len() - 1;
                if i < k {
                    assert(!clock::before(s[i].last_occurred, s[k].last_occurred));
                }
            }
        }
        assert forall|k: int| 0 <= k < t.len() implies (#[trigger] t[k]) == e || s.contains(t[k]) by {
            if k < s.len() {
                assert(s[k] == t[k]);
            }
        }
    } else {
        let p = s.drop_last();
        assert(is_newest_first(p)) by {
            assert forall|i: int, j: int| 0 <= i < j < p.len() implies !clock::before(
                (#[trigger] p[i]).last_occurred,
                (#[trigger] p[j]).last_occurred,
            ) by {
                assert(p[i] == s[i] && p[j] == s[j]);
            }
        }
        lemma_inserted(p, e);
        let q = inserted(p, e);
        assert(s =~= p.push(s.last()));
        assert(t =~= q.push(s.last()));
        assert(t.to_multiset() =~= s.to_multiset().insert(e));
        assert forall|i: int, j: int| 0 <= i < j < t.len() implies !clock::before(
            (#[trigger] t[i]).last_occurred,
            (#[trigger] t[j]).last_occurred,
        ) by {
            assert(t[i] == q[i]);
            if j == q.len() {
                if q[i] != e {
                    let k = choose|k: int| 0 <= k < p.len() && p[k] == q[i];
                    assert(s[k] == q[i]);
                    assert(!clock::before(s[k].last_occurred, s[s.len() - 1].last_occurred));
                }
            } else {
                assert(t[j] == q[j]);
            }
        }
        assert forall|k: int| 0 <= k < t.len() implies (#[trigger] t[k]) == e || s.contains(t[k]) by {
            if k < q.len() {
                assert(t[k] == q[k]);
                if q[k] != e {
                    let x = choose|x: int| 0 <= x < p.len() && p[x] == q[k];
                    assert(s[x] == q[k]);
                }
            } else {
                assert(s[s.len() - 1] == t[k]);
            }
        }
    }
}

/// The order is from the newest to the oldest, and every entry is in it as often
/// as before.
pub proof fn newest_first_orders_everything(s: Seq<EntryView>)
    ensures
        is_newest_first(newest_first(s)),
        newest_first(s).to_multiset() == s.to_multiset(),
        newest_first(s).len() == s.len(),
    decreases s.len(),
{
    broadcast use vstd::seq_lib::group_to_multiset_ensures;
    if s.len() > 0 {
        newest_first_orders_everything(s.drop_last());
        lemma_inserted(newest_first(s.drop_last()), s.last());
        assert(s =~= s.drop_last().push(s.last()));
    } else {
        assert(newest_first(s) =~= s);
    }
}

/// Where an entry goes in a list.
proof fn lemma_inserted_at(s: Seq<EntryView>, e: EntryView, n: int)
    requires
        0 <= n <= s.len(),
        n == 0 || !clock::before(s[n - 1].last_occurred, e.last_occurred),
        forall|j: int| n <= j < s.len() ==> clock::before((#[trigger] s[j]).last_occurred, e.last_occurred),
    ensures
        inserted(s, e) == s.insert(n, e),
    decreases s.len(),
{
    if s.len() == n {
        assert(s.insert(n, e) =~= s.push(e));
        if n > 0 {
            assert(s.last() == s[n - 1]);
        }
    } else {
        assert(clock::before(s[s.len() - 1].last_occurred, e.last_occurred));
        let p = s.drop_last();
        assert forall|j: int| n <= j < p.len() implies clock::before((#[trigger] p[j]).last_occurred, e.last_occurred) by {
            assert(p[j] == s[j]);
        }
        if n > 0 {
            assert(p[n - 1] == s[n - 1]);
        }
        lemma_inserted_at(p, e, n);
        assert(p.insert(n, e).push(s.last()) =~= s.insert(n, e));
    }
}

fn insert_by_age(v: &mut Vec<ErrorEntry>, e: ErrorEntry)
    ensures
        entries_of(final(v)@) == inserted(entries_of(old(v)@), e@),
{
    let ghost s = entries_of(v@);
    let mut n: usize = v.len();
    while n > 0 && v[n - 1].last_occurred.is_before(&e.last_occurred)
        invariant
            n <= v.len(),
            s == entries_of(v@),
            forall|j: int| n <= j < s.len() ==> clock::before((#[trigger] s[j]).last_occurred, e@.last_occurred),
        decreases n,
    {
        n = n - 1;
        assert(s[n as int] == v@[n as int]@);
    }
    proof {
        if n > 0 {
            assert(s[n - 1] == v@[n - 1]@);
        }
        lemma_inserted_at(s, e@, n as int);
    }
    v.insert(n, e);
    assert(entries_of(v@) =~= s.insert(n as int, e@));
}

fn cut(v: &mut Vec<ErrorEntry>, limit: Option<usize>)
    ensures
        entries_of(final(v)@) == limited(entries_of(old(v)@), limit),
{
    let ghost s = entries_of(v@);
    match limit {
        Some(n) => {
            v.truncate(n);
            assert(entries_of(v@) =~= limited(s, limit));
        },
        None => {},
    }
}

// ---------------------------------------------------------------------------
// The history
// ---------------------------------------------------------------------------

/// A history of errors.
#[derive(Debug)]
pub struct ErrorHistory {
    entries: Vec<ErrorEntry>,
    marks: Vec<(Timestamp, String)>,
    seq: u64,
    max_entries_per_module: usize,
    max_total_entries: usize,
}

impl View for ErrorHistory {
    type V = HistoryView;

    closed spec fn view(&self) -> HistoryView {
        HistoryView { entries: entries_of(self.entries@), marks: marks_of(self.marks@), seq: self.seq as int }
    }
}

/// Position of the earliest note.
fn find_earliest(m: &Vec<(Timestamp, String)>) -> (r: usize)
    requires
        m@.len() > 0,
    ensures
        r == earliest(marks_of(m@)),
        r < m@.len(),
{
    let ghost s = marks_of(m@);
    let mut k: usize = 0;
    let mut i: usize = 1;
    assert(s.subrange(0, 1).len() == 1);
    while i < m.len()
        invariant
            1 <= i <= m.len(),
            s == marks_of(m@),
            k < i,
            k == earliest(s.subrange(0, i as int)),
        decreases m.len() - i,
    {
        let ghost part = s.subrange(0, i + 1);
        assert(part.drop_last() =~= s.subrange(0, i as int));
        assert(part.last() == s[i as int]);
        assert(part[k as int] == s[k as int]);
        if m[i].0.is_before(&m[k].0) {
            k = i;
        }
        i = i + 1;
    }
    assert(s.subrange(0, s.len() as int) =~= s);
    k
}

/// Position of the entry with a fingerprint.
fn find_fingerprint(v: &Vec<ErrorEntry>, fp: &str) -> (r: Option<usize>)
    ensures
        match r {
            Some(i) => find_entry(entries_of(v@), fp@) == Some(i as int) && i < v@.len(),
            None => find_entry(entries_of(v@), fp@) is None,
        },
{
    let ghost s = entries_of(v@);
    let mut i: usize = 0;
    assert(s.subrange(0, 0) =~= Seq::empty());
    while i < v.len()
        invariant
            i <= v.len(),
            s == entries_of(v@),
            find_entry(s.subrange(0, i as int), fp@) is None,
        decreases v.len() - i,
    {
        let ghost part = s.subrange(0, i + 1);
        assert(part.drop_last() =~= s.subrange(0, i as int));
        assert(part.last() == v@[i as int]@);
        if str_eq(v[i].fingerprint.as_str(), fp) {
            proof {
                lemma_find_entry(s, i + 1, fp@);
            }
            return Some(i);
        }
        i = i + 1;
    }
    assert(s.subrange(0, s.len() as int) =~= s);
    None
}

/// Remove the entry whose last occurrence is the earliest.
fn pop_oldest(v: &mut Vec<ErrorEntry>, m: &mut Vec<(Timestamp, String)>, seq: Ghost<int>)
    ensures
        (HistoryView { entries: entries_of(final(v)@), marks: marks_of(final(m)@), seq: seq@ }) == without_oldest(
            HistoryView { entries: entries_of(old(v)@), marks: marks_of(old(m)@), seq: seq@ },
        ),
{
    let ghost start = HistoryView { entries: entries_of(v@), marks: marks_of(m@), seq: seq@ };
    while m.len() > 0
        invariant
            *v == *old(v),
            start == (HistoryView { entries: entries_of(old(v)@), marks: marks_of(old(m)@), seq: seq@ }),
            without_oldest(start) == without_oldest(
                HistoryView { entries: entries_of(v@), marks: marks_of(m@), seq: seq@ },
            ),
        decreases m.len(),
    {
        let ghost h = HistoryView { entries: entries_of(v@), marks: marks_of(m@), seq: seq@ };
        let i: usize = find_earliest(m);
        let (ts, fp) = m.remove(i);
        assert(marks_of(m@) =~= h.marks.remove(i as int));
        assert(h.marks[i as int] == (ts, fp@));
        match find_fingerprint(v, fp.as_str()) {
            Some(k) => {
                assert(h.entries[k as int] == v@[k as int]@);
                if v[k].last_occurred == ts {
                    let _gone = v.remove(k);
                    assert(entries_of(v@) =~= h.entries.remove(k as int));
                    return;
                }
            },
            None => {},
        }
    }
}

/// The number of entries of a module.
fn count_module(v: &Vec<ErrorEntry>, module_id: &str) -> (r: usize)
    ensures
        r == of_module(entries_of(v@), module_id@).len(),
{
    let ghost s = entries_of(v@);
    let mut n: usize = 0;
    let mut i: usize = 0;
    assert(s.subrange(0, 0) =~= Seq::empty());
    while i < v.len()
        invariant
            i <= v.len(),
            n <= i,
            s == entries_of(v@),
            n == of_module(s.subrange(0, i as int), module_id@).len(),
        decreases v.len() - i,
    {
        let ghost part = s.subrange(0, i + 1);
        assert(part.drop_last() =~= s.subrange(0, i as int));
        assert(part.last() == v@[i as int]@);
        if str_eq(v[i].module_id.as_str(), module_id) {
            n = n + 1;
        }
        i = i + 1;
    }
    assert(s.subrange(0, s.len() as int) =~= s);
    n
}

/// Remove the first entry of a module where it has too many.
fn evict_per_module(v: &mut Vec<ErrorEntry>, module_id: &str, max: usize)
    ensures
        entries_of(final(v)@) == (if of_module(entries_of(old(v)@), module_id@).len() > max {
            entries_of(old(v)@).remove(first_of_module(entries_of(old(v)@), module_id@)->0)
        } else {
            entries_of(old(v)@)
        }),
{
    if count_module(v, module_id) <= max {
        return;
    }
    let ghost s = entries_of(v@);
    let mut i: usize = 0;
    assert(s.subrange(0, 0) =~= Seq::empty());
    while i < v.len()
        invariant
            i <= v.len(),
            s == entries_of(v@),
            *v == *old(v),
            of_module(s, module_id@).len() > max,
            first_of_module(s.subrange(0, i as int), module_id@) is None,
        decreases v.len() - i,
    {
        let ghost part = s.subrange(0, i + 1);
        assert(part.drop_last() =~= s.subrange(0, i as int));
        assert(part.last() == v@[i as int]@);
        if str_eq(v[i].module_id.as_str(), module_id) {
            proof {
                lemma_first_of_module(s, i + 1, module_id@);
            }
            let _gone = v.remove(i);
            assert(entries_of(v@) =~= s.remove(i as int));
            return;
        }
        i = i + 1;
    }
    proof {
        assert(s.subrange(0, s.len() as int) =~= s);
        lemma_first_of_module(s, s.len() as int, module_id@);
    }
}

/// The entry of a first occurrence.
pub open spec fn first_entry(
    module_id: Seq<char>,
    error_code: Seq<char>,
    message: Seq<char>,
    ai_guidance: Option<Seq<char>>,
    fingerprint: Seq<char>,
    when: Timestamp,
) -> EntryView {
    EntryView {
        module_id,
        error_code,
        message,
        ai_guidance,
        timestamp: when,
        count: 1,
        first_occurred: when,
        last_occurred: when,
        fingerprint,
    }
}

impl ErrorHistory {
    /// The most entries of a module.
    pub closed spec fn module_limit(self) -> int {
        self.max_entries_per_module as int
    }

    /// The most entries.
    pub closed spec fn total_limit(self) -> int {
        self.max_total_entries as int
    }

    #[verifier::type_invariant]
    spec fn well_formed(self) -> bool {
        is_sound(self@, self.max_entries_per_module as int, self.max_total_entries as int)
    }

    /// An empty history with a limit for each module and a hundred times that for
    /// all.
    pub fn new(max_entries_per_module: usize) -> (r: Self)
        requires
            max_entries_per_module * 100 <= usize::MAX,
        ensures
            r@ == (HistoryView { entries: Seq::empty(), marks: Seq::empty(), seq: 0 }),
            r.module_limit() == max_entries_per_module,
            r.total_limit() == max_entries_per_module * 100,
            is_sound(r@, r.module_limit(), r.total_limit()),
    {
        ErrorHistory::with_limits(max_entries_per_module, max_entries_per_module * 100)
    }

    /// An empty history with these limits.
    pub fn with_limits(max_entries_per_module: usize, max_total_entries: usize) -> (r: Self)
        ensures
            r@ == (HistoryView { entries: Seq::empty(), marks: Seq::empty(), seq: 0 }),
            r.module_limit() == max_entries_per_module,
            r.total_limit() == max_total_entries,
            is_sound(r@, r.module_limit(), r.total_limit()),
    {
        let entries: Vec<ErrorEntry> = Vec::new();
        let marks: Vec<(Timestamp, String)> = Vec::new();
        assert(entries_of(entries@) =~= Seq::empty());
        assert(marks_of(marks@) =~= Seq::empty());
        ErrorHistory { entries, marks, seq: 0, max_entries_per_module, max_total_entries }
    }

    /// Record that an error occurs now; the entry as it is after this.
    pub fn record(&mut self, module_id: &str, error: &ModuleError) -> (r: ErrorEntry)
        requires
            old(self)@.seq < u64::MAX,
        ensures
            final(self).module_limit() == old(self).module_limit(),
            final(self).total_limit() == old(self).total_limit(),
            is_sound(final(self)@, final(self).module_limit(), final(self).total_limit()),
            final(self)@ == recorded(
                old(self)@,
                first_entry(
                    module_id@,
                    error_code::wire_name(error.code),
                    error.message@,
                    text::opt_text(error.ai_guidance),
                    fingerprint_of(error_code::wire_name(error.code), module_id@, normalized(error.message@)),
                    r@.timestamp,
                ),
                old(self).module_limit(),
                old(self).total_limit(),
            ),
            r@ == entry_after(
                old(self)@,
                first_entry(
                    module_id@,
                    error_code::wire_name(error.code),
                    error.message@,
                    text::opt_text(error.ai_guidance),
                    fingerprint_of(error_code::wire_name(error.code), module_id@, normalized(error.message@)),
                    r@.timestamp,
                ),
            ),
    {
        let now = Timestamp::now();
        self.record_at(module_id, error, now)
    }

    /// Record that an error occurred at some time; the entry as it is after this.
    pub fn record_at(&mut self, module_id: &str, error: &ModuleError, when: Timestamp) -> (r: ErrorEntry)
        requires
            old(self)@.seq < u64::MAX,
        ensures
            final(self).module_limit() == old(self).module_limit(),
            final(self).total_limit() == old(self).total_limit(),
            is_sound(final(self)@, final(self).module_limit(), final(self).total_limit()),
            r@.timestamp == when,
            ({
                let fresh = first_entry(
                    module_id@,
                    error_code::wire_name(error.code),
                    error.message@,
                    text::opt_text(error.ai_guidance),
                    fingerprint_of(error_code::wire_name(error.code), module_id@, normalized(error.message@)),
                    when,
                );
                &&& r@ == entry_after(old(self)@, fresh)
                &&& final(self)@ == recorded(old(self)@, fresh, old(self).module_limit(), old(self).total_limit())
            }),
    {
        let fp = compute_fingerprint_from_error(error, module_id);
        self.record_fingerprint(module_id, error, fp, when)
    }

    /// Record that an error with a fingerprint occurred at some time; the entry as
    /// it is after this, even where the limits let it go at once.
    pub fn record_fingerprint(&mut self, module_id: &str, error: &ModuleError, fingerprint: String, when: Timestamp) -> (r: ErrorEntry)
        requires
            old(self)@.seq < u64::MAX,
        ensures
            final(self).module_limit() == old(self).module_limit(),
            final(self).total_limit() == old(self).total_limit(),
            is_sound(final(self)@, final(self).module_limit(), final(self).total_limit()),
            r@.timestamp == when,
            ({
                let fresh = first_entry(
                    module_id@,
                    error_code::wire_name(error.code),
                    error.message@,
                    text::opt_text(error.ai_guidance),
                    fingerprint@,
                    when,
                );
                &&& r@ == entry_after(old(self)@, fresh)
                &&& final(self)@ == recorded(old(self)@, fresh, old(self).module_limit(), old(self).total_limit())
            }),
    {
        let ghost h = self@;
        let ghost fresh = first_entry(
            module_id@,
            error_code::wire_name(error.code),
            error.message@,
            text::opt_text(error.ai_guidance),
            fingerprint@,
            when,
        );
        proof {
            use_type_invariant(&*self);
            recording_keeps_the_history_sound(h, fresh, self.max_entries_per_module as int, self.max_total_entries as int);
            lemma_find_entry(h.entries, h.entries.len() as int, fingerprint@);
        }
        let seq: u64 = self.seq + 1;
        let max_module: usize = self.max_entries_per_module;
        let max_total: usize = self.max_total_entries;
        let mut other = ErrorHistory::with_limits(max_module, max_total);
        std::mem::swap(&mut other, self);
        let (mut entries, mut marks) = other.into_parts();
        marks.push((when, fingerprint.clone()));
        assert(marks_of(marks@) =~= h.marks.push((when, fingerprint@)));
        match find_fingerprint(&entries, fingerprint.as_str()) {
            Some(i) => {
                assert(h.entries[i as int] == entries@[i as int]@);
                assert(h.entries[i as int].count <= h.seq);
                let updated = ErrorEntry {
                    module_id: entries[i].module_id.clone(),
                    error_code: entries[i].error_code.clone(),
                    message: entries[i].message.clone(),
                    ai_guidance: clone_opt(&entries[i].ai_guidance),
                    timestamp: when,
                    count: entries[i].count + 1,
                    first_occurred: entries[i].first_occurred,
                    last_occurred: when,
                    fingerprint: entries[i].fingerprint.clone(),
                };
                let answer = updated.clone();
                entries.set(i, updated);
                assert(entries_of(entries@) =~= h.entries.update(i as int, repeated(h.entries[i as int], when)));
                *self = ErrorHistory {
                    entries,
                    marks,
                    seq,
                    max_entries_per_module: max_module,
                    max_total_entries: max_total,
                };
                answer
            },
            None => {
                let entry = ErrorEntry {
                    module_id: module_id.to_owned(),
                    error_code: error.code.wire_str().to_owned(),
                    message: error.message.clone(),
                    ai_guidance: clone_opt(&error.ai_guidance),
                    timestamp: when,
                    count: 1,
                    first_occurred: when,
                    last_occurred: when,
                    fingerprint,
                };
                let answer = entry.clone();
                entries.push(entry);
                assert(entries_of(entries@) =~= h.entries.push(fresh));
                evict_per_module(&mut entries, module_id, max_module);
                if entries.len() > max_total {
                    pop_oldest(&mut entries, &mut marks, Ghost(seq as int));
                }
                *self = ErrorHistory {
                    entries,
                    marks,
                    seq,
                    max_entries_per_module: max_module,
                    max_total_entries: max_total,
                };
                answer
            },
        }
    }

    fn into_parts(self) -> (r: (Vec<ErrorEntry>, Vec<(Timestamp, String)>))
        ensures
            entries_of(r.0@) == self@.entries,
            marks_of(r.1@) == self@.marks,
    {
        (self.entries, self.marks)
    }

    /// The entries of a module, newest first.
    pub fn get(&self, module_id: &str, limit: Option<usize>) -> (r: Vec<ErrorEntry>)
        ensures
            entries_of(r@) == limited(newest_first(of_module(self@.entries, module_id@)), limit),
            r@.len() <= self.module_limit(),
            is_sound(self@, self.module_limit(), self.total_limit()),
    {
        let ghost s = self@.entries;
        let mut out: Vec<ErrorEntry> = Vec::new();
        let mut i: usize = 0;
        assert(s.subrange(0, 0) =~= Seq::empty());
        assert(entries_of(out@) =~= Seq::empty());
        while i < self.entries.len()
            invariant
                i <= self.entries.len(),
                s == entries_of(self.entries@),
                entries_of(out@) == newest_first(of_module(s.subrange(0, i as int), module_id@)),
            decreases self.entries.len() - i,
        {
            let ghost part = s.subrange(0, i + 1);
            assert(part.drop_last() =~= s.subrange(0, i as int));
            assert(part.last() == self.entries@[i as int]@);
            if str_eq(self.entries[i].module_id.as_str(), module_id) {
                let ghost f = of_module(s.subrange(0, i as int), module_id@);
                insert_by_age(&mut out, self.entries[i].clone());
                assert(f.push(part.last()).drop_last() =~= f);
            }
            i = i + 1;
        }
        assert(s.subrange(0, s.len() as int) =~= s);
        cut(&mut out, limit);
        proof {
            use_type_invariant(self);
            newest_first_orders_everything(of_module(s, module_id@));
            assert(of_module(self@.entries, module_id@).len() <= self.module_limit());
            assert(out@.len() == entries_of(out@).len());
        }
        out
    }

    /// All entries, newest first.
    pub fn get_all(&self, limit: Option<usize>) -> (r: Vec<ErrorEntry>)
        ensures
            entries_of(r@) == limited(newest_first(self@.entries), limit),
            r@.len() <= self.total_limit(),
            is_sound(self@, self.module_limit(), self.total_limit()),
    {
        let ghost s = self@.entries;
        let mut out: Vec<ErrorEntry> = Vec::new();
        let mut i: usize = 0;
        assert(s.subrange(0, 0) =~= Seq::empty());
        assert(entries_of(out@) =~= Seq::empty());
        while i < self.entries.len()
            invariant
                i <= self.entries.len(),
                s == entries_of(self.entries@),
                entries_of(out@) == newest_first(s.subrange(0, i as int)),
            decreases self.entries.len() - i,
        {
            let ghost part = s.subrange(0, i + 1);
            assert(part.drop_last() =~= s.subrange(0, i as int));
            assert(part.last() == self.entries@[i as int]@);
            insert_by_age(&mut out, self.entries[i].clone());
            i = i + 1;
        }
        assert(s.subrange(0, s.len() as int) =~= s);
        cut(&mut out, limit);
        proof {
            use_type_invariant(self);
            newest_first_orders_everything(s);
            assert(out@.len() == entries_of(out@).len());
        }
        out
    }

    /// The number of entries.
    pub fn count(&self) -> (r: usize)
        ensures
            r == self@.entries.len(),
            r <= self.total_limit(),
            is_sound(self@, self.module_limit(), self.total_limit()),
    {
        proof {
            use_type_invariant(self);
        }
        self.entries.len()
    }

    /// Forget the entries of a module, or everything.
    pub fn clear(&mut self, module_id: Option<&str>)
        ensures
            final(self).module_limit() == old(self).module_limit(),
            final(self).total_limit() == old(self).total_limit(),
            is_sound(final(self)@, final(self).module_limit(), final(self).total_limit()),
            final(self)@ == (match module_id {
                Some(m) => HistoryView { entries: off_module(old(self)@.entries, m@), ..old(self)@ },
                None => HistoryView { entries: Seq::empty(), marks: Seq::empty(), seq: 0 },
            }),
    {
        let ghost h = self@;
        proof {
            use_type_invariant(&*self);
        }
        let max_module: usize = self.max_entries_per_module;
        let max_total: usize = self.max_total_entries;
        let seq: u64 = self.seq;
        let mut other = ErrorHistory::with_limits(max_module, max_total);
        std::mem::swap(&mut other, self);
        match module_id {
            Some(m) => {
                let (entries, marks) = other.into_parts();
                let kept = drop_module(entries, m);
                proof {
                    let t = HistoryView { entries: off_module(h.entries, m@), ..h };
                    lemma_off_module_distinct(h.entries, m@);
                    lemma_of_module_off(h.entries, m@, m@);
                    assert forall|k: int| 0 <= k < t.entries.len() implies h.marks.contains(
                        ((#[trigger] t.entries[k]).last_occurred, t.entries[k].fingerprint),
                    ) && 1 <= t.entries[k].count <= h.seq by {
                        let x = choose|x: int| 0 <= x < h.entries.len() && h.entries[x] == t.entries[k];
                        assert(h.marks.contains((h.entries[x].last_occurred, h.entries[x].fingerprint)));
                    }
                    assert forall|x: Seq<char>| (#[trigger] of_module(t.entries, x)).len() <= max_module by {
                        lemma_of_module_off(h.entries, m@, x);
                        assert(of_module(h.entries, x).len() <= max_module);
                    }
                }
                *self = ErrorHistory {
                    entries: kept,
                    marks,
                    seq,
                    max_entries_per_module: max_module,
                    max_total_entries: max_total,
                };
            },
            None => {},
        }
    }
}

fn drop_module(entries: Vec<ErrorEntry>, module_id: &str) -> (r: Vec<ErrorEntry>)
    ensures
        entries_of(r@) == off_module(entries_of(entries@), module_id@),
{
    let ghost s = entries_of(entries@);
    let mut out: Vec<ErrorEntry> = Vec::new();
    let mut i: usize = 0;
    assert(s.subrange(0, 0) =~= Seq::empty());
    assert(entries_of(out@) =~= Seq::empty());
    while i < entries.len()
        invariant
            i <= entries.len(),
            s == entries_of(entries@),
            entries_of(out@) == off_module(s.subrange(0, i as int), module_id@),
        decreases entries.len() - i,
    {
        let ghost part = s.subrange(0, i + 1);
        assert(part.drop_last() =~= s.subrange(0, i as int));
        assert(part.last() == entries@[i as int]@);
        if !str_eq(entries[i].module_id.as_str(), module_id) {
            let ghost before_push = entries_of(out@);
            let copy = entries[i].clone();
            out.push(copy);
            assert(entries_of(out@) =~= before_push.push(part.last()));
        }
        i = i + 1;
    }
    assert(s.subrange(0, s.len() as int) =~= s);
    out
}

/// The entry of an occurrence as it is after it.
pub open spec fn entry_after(h: HistoryView, fresh: EntryView) -> EntryView {
    match find_entry(h.entries, fresh.fingerprint) {
        Some(i) => repeated(h.entries[i], fresh.timestamp),
        None => fresh,
    }
}

/// Records the errors of failed calls.
#[derive(Debug)]
pub struct ErrorHistoryMiddleware {
    pub history: ErrorHistory,
}

impl ErrorHistoryMiddleware {
    /// A middleware that records into a history.
    pub fn new(history: ErrorHistory) -> (r: Self)
        ensures
            r.history == history,
    {
        ErrorHistoryMiddleware { history }
    }

    /// The history.
    pub fn history(&self) -> (r: &ErrorHistory)
        ensures
            *r == self.history,
    {
        &self.history
    }

    /// The name of the middleware.
    pub fn name(&self) -> (r: &'static str)
        ensures
            r@ == "error_history"@,
    {
        "error_history"
    }
}

/// Clearing a module removes its entries and no others.
pub proof fn clearing_removes_one_module(s: Seq<EntryView>, module_id: Seq<char>, other: Seq<char>)
    ensures
        of_module(off_module(s, module_id), module_id) == Seq::<EntryView>::empty(),
        other != module_id ==> of_module(off_module(s, module_id), other) == of_module(s, other),
{
    lemma_of_module_off(s, module_id, module_id);
    lemma_of_module_off(s, module_id, other);
}

/// Messages that are the same once their identifiers, times and numbers are left
/// out, but for white space at their ends and the case of letters, are alike.
pub proof fn messages_are_alike_but_for_what_varies(a: Seq<char>, b: Seq<char>)
    requires
        ({
            let x = swapped(INTEGER_PATTERN@, swapped(ISO8601_PATTERN@, swapped(UUID_PATTERN@, a, "<UUID>"@), "<TIMESTAMP>"@), "<ID>"@);
            let y = swapped(INTEGER_PATTERN@, swapped(ISO8601_PATTERN@, swapped(UUID_PATTERN@, b, "<UUID>"@), "<TIMESTAMP>"@), "<ID>"@);
            text::lowercase(text::trimmed(x)) == text::lowercase(text::trimmed(y))
        }),
    ensures
        normalized(a) == normalized(b),
{
}

/// What a pattern does not replace, for want of a pattern that compiles, stays.
pub proof fn a_swap_replaces_or_keeps(pattern: Seq<char>, message: Seq<char>, replacement: Seq<char>)
    ensures
        regexes::regex_replaced(pattern, message, replacement) matches Some(t) ==> swapped(pattern, message, replacement) == t,
        regexes::regex_replaced(pattern, message, replacement) is None ==> swapped(pattern, message, replacement) == message,
{
}

/// The fingerprint of an error is the digest of its code, its module and its
/// message, with colons between them.
pub proof fn a_fingerprint_covers_code_module_and_message(code: Seq<char>, module_id: Seq<char>, message: Seq<char>, whole: Seq<char>)
    requires
        whole == code + seq![':'] + module_id + seq![':'] + message,
    ensures
        fingerprint_of(code, module_id, message) == digest::sha256_text(whole),
{
    reveal_strlit(":");
    assert(":"@ =~= seq![':']);
}

/// The entries of a module are those with its name, in their order; to leave them
/// out keeps all others.
pub proof fn a_module_has_its_entries(s: Seq<EntryView>, module_id: Seq<char>)
    ensures
        of_module(s, module_id) == s.filter(|e: EntryView| e.module_id == module_id),
        off_module(s, module_id) == s.filter(|e: EntryView| e.module_id != module_id),
    decreases s.len(),
{
    reveal(Seq::filter);
    if s.len() > 0 {
        a_module_has_its_entries(s.drop_last(), module_id);
    }
}

/// An error that is new becomes an entry with a count of one, behind the others,
/// which stay as long as there is room for one more.
pub proof fn a_new_error_becomes_an_entry(h: HistoryView, fresh: EntryView, max_module: int, max_total: int)
    requires
        forall|i: int| 0 <= i < h.entries.len() ==> (#[trigger] h.entries[i]).fingerprint != fresh.fingerprint,
        h.entries.len() < max_total,
        of_module(h.entries, fresh.module_id).len() < max_module,
    ensures
        recorded(h, fresh, max_module, max_total).entries == h.entries.push(fresh),
        entry_after(h, fresh) == fresh,
{
    lemma_find_entry(h.entries, h.entries.len() as int, fresh.fingerprint);
    let t = h.entries.push(fresh);
    assert(t.drop_last() =~= h.entries);
    assert(of_module(t, fresh.module_id) == of_module(h.entries, fresh.module_id).push(fresh));
}

/// Where a module is full, the first of its entries makes room for the new one;
/// the entries of other modules stay.
pub proof fn a_full_module_loses_its_first(h: HistoryView, fresh: EntryView, max_module: int, max_total: int, i: int)
    requires
        forall|j: int| 0 <= j < h.entries.len() ==> (#[trigger] h.entries[j]).fingerprint != fresh.fingerprint,
        h.entries.len() <= max_total,
        of_module(h.entries, fresh.module_id).len() >= max_module,
        0 <= i < h.entries.len(),
        h.entries[i].module_id == fresh.module_id,
        forall|j: int| 0 <= j < i ==> (#[trigger] h.entries[j]).module_id != fresh.module_id,
    ensures
        recorded(h, fresh, max_module, max_total).entries == h.entries.push(fresh).remove(i),
{
    lemma_find_entry(h.entries, h.entries.len() as int, fresh.fingerprint);
    let t = h.entries.push(fresh);
    assert(t.drop_last() =~= h.entries);
    assert(of_module(t, fresh.module_id) == of_module(h.entries, fresh.module_id).push(fresh));
    assert(t[i].module_id == fresh.module_id);
    assert forall|j: int| 0 <= j < i implies (#[trigger] t[j]).module_id != fresh.module_id by {
        assert(t[j] == h.entries[j]);
    }
    lemma_first_is_first(t, fresh.module_id, i);
    assert(t.remove(i).len() == h.entries.len());
}

proof fn lemma_first_is_first(s: Seq<EntryView>, m: Seq<char>, i: int)
    requires
        0 <= i < s.len(),
        s[i].module_id == m,
        forall|j: int| 0 <= j < i ==> (#[trigger] s[j]).module_id != m,
    ensures
        first_of_module(s, m) == Some(i),
    decreases s.len(),
{
    let p = s.drop_last();
    if i < p.len() {
        assert(p[i] == s[i]);
        assert forall|j: int| 0 <= j < i implies (#[trigger] p[j]).module_id != m by {
            assert(p[j] == s[j]);
        }
        lemma_first_is_first(p, m, i);
    } else {
        lemma_no_first(p, m);
    }
}

proof fn lemma_no_first(s: Seq<EntryView>, m: Seq<char>)
    requires
        forall|j: int| 0 <= j < s.len() ==> (#[trigger] s[j]).module_id != m,
    ensures
        first_of_module(s, m) is None,
    decreases s.len(),
{
    if s.len() > 0 {
        let p = s.drop_last();
        assert forall|j: int| 0 <= j < p.len() implies (#[trigger] p[j]).module_id != m by {
            assert(p[j] == s[j]);
        }
        assert(s[s.len() - 1] == s.last());
        lemma_no_first(p, m);
    }
}

/// An error that occurs again is counted in its entry: one more, now the last time
/// it occurred; what the entry says of the error and of its first time stays.
pub proof fn an_error_again_is_counted_in_its_entry(h: HistoryView, fresh: EntryView, max_module: int, max_total: int, i: int)
    requires
        distinct_fingerprints(h.entries),
        0 <= i < h.entries.len(),
        h.entries[i].fingerprint == fresh.fingerprint,
    ensures
        ({
            let t = recorded(h, fresh, max_module, max_total).entries;
            let e = h.entries[i];
            &&& t.len() == h.entries.len()
            &&& t[i].count == e.count + 1
            &&& t[i].last_occurred == fresh.timestamp && t[i].timestamp == fresh.timestamp
            &&& t[i].first_occurred == e.first_occurred
            &&& t[i].module_id == e.module_id && t[i].error_code == e.error_code && t[i].message == e.message
                && t[i].ai_guidance == e.ai_guidance && t[i].fingerprint == e.fingerprint
            &&& forall|j: int| 0 <= j < t.len() && j != i ==> #[trigger] t[j] == h.entries[j]
            &&& entry_after(h, fresh) == t[i]
        }),
{
    lemma_find_entry(h.entries, h.entries.len() as int, fresh.fingerprint);
    let k = find_entry(h.entries, fresh.fingerprint)->0;
    assert(h.entries[k].fingerprint == h.entries[i].fingerprint);
}

/// The first time that an error occurs it has a count of one, and its first and its
/// last time are that time.
pub proof fn an_error_starts_with_one(
    module_id: Seq<char>,
    error_code: Seq<char>,
    message: Seq<char>,
    ai_guidance: Option<Seq<char>>,
    fingerprint: Seq<char>,
    when: Timestamp,
)
    ensures
        ({
            let e = first_entry(module_id, error_code, message, ai_guidance, fingerprint, when);
            &&& e.count == 1
            &&& e.first_occurred == when && e.last_occurred == when && e.timestamp == when
            &&& e.module_id == module_id && e.error_code == error_code && e.message == message && e.ai_guidance
                == ai_guidance && e.fingerprint == fingerprint
        }),
{
}

/// A limit gives the start of a list, as long as there is so much.
pub proof fn a_limit_gives_the_start(s: Seq<EntryView>, n: usize)
    ensures
        limited(s, None) == s,
        n >= s.len() ==> limited(s, Some(n)) == s,
        n < s.len() ==> limited(s, Some(n)).len() == n && forall|i: int| 0 <= i < n ==> #[trigger] limited(s, Some(n))[i]
            == s[i],
{
}

/// Where the history is full, the entry that was not seen for longest leaves when a
/// new error comes.
pub proof fn the_entry_longest_unseen_leaves(h: HistoryView, fresh: EntryView, max_module: int, max_total: int)
    requires
        is_sound(h, max_module, max_total),
        forall|i: int| 0 <= i < h.entries.len() ==> (#[trigger] h.entries[i]).fingerprint != fresh.fingerprint,
        of_module(h.entries, fresh.module_id).len() < max_module,
        h.entries.len() == max_total,
        h.seq >= 0,
        fresh.count == 1,
        fresh.last_occurred == fresh.timestamp,
    ensures
        ({
            let all = h.entries.push(fresh);
            exists|v: int|
                0 <= v < all.len() && recorded(h, fresh, max_module, max_total).entries == #[trigger] all.remove(v)
                    && forall|j: int|
                    0 <= j < all.len() ==> !clock::before((#[trigger] all[j]).last_occurred, all[v].last_occurred)
        }),
{
    let all = h.entries.push(fresh);
    let marks = h.marks.push((fresh.timestamp, fresh.fingerprint));
    let h2 = HistoryView { entries: all, marks, seq: h.seq + 1 };
    a_module_has_its_entries(h.entries, fresh.module_id);
    assert(find_entry(h.entries, fresh.fingerprint) is None) by {
        lemma_absent(h.entries, fresh.fingerprint);
    }
    assert(all.drop_last() =~= h.entries);
    assert(of_module(all, fresh.module_id) == of_module(h.entries, fresh.module_id).push(fresh));
    assert(distinct_fingerprints(all)) by {
        assert forall|i: int, j: int|
            0 <= i < all.len() && 0 <= j < all.len() && (#[trigger] all[i]).fingerprint == (
            #[trigger] all[j]).fingerprint implies i == j by {
            if i < h.entries.len() && j < h.entries.len() {
                assert(h.entries[i].fingerprint == h.entries[j].fingerprint);
            } else if i < h.entries.len() {
                assert(h.entries[i].fingerprint != fresh.fingerprint);
            } else if j < h.entries.len() {
                assert(h.entries[j].fingerprint != fresh.fingerprint);
            }
        }
    }
    assert(marks_cover(h2)) by {
        assert forall|i: int| 0 <= i < all.len() implies marks.contains(
            ((#[trigger] all[i]).last_occurred, all[i].fingerprint),
        ) by {
            if i < h.entries.len() {
                let m = (h.entries[i].last_occurred, h.entries[i].fingerprint);
                assert(h.marks.contains(m));
                let k = choose|k: int| 0 <= k < h.marks.len() && h.marks[k] == m;
                assert(marks[k] == m);
            } else {
                assert(marks[h.marks.len() as int] == (fresh.timestamp, fresh.fingerprint));
            }
        }
    }
    assert(counts_fit(h2)) by {
        assert forall|i: int| 0 <= i < all.len() implies 1 <= (#[trigger] all[i]).count <= h2.seq by {
            if i < h.entries.len() {
                assert(1 <= h.entries[i].count <= h.seq);
            }
        }
    }
    the_oldest_entry_leaves(h2);
    let v = choose|v: int| #[trigger] leaves(all, v) && without_oldest(h2).entries == all.remove(v);
    assert(recorded(h, fresh, max_module, max_total).entries == all.remove(v));
}

proof fn lemma_absent(s: Seq<EntryView>, fingerprint: Seq<char>)
    requires
        forall|i: int| 0 <= i < s.len() ==> (#[trigger] s[i]).fingerprint != fingerprint,
    ensures
        find_entry(s, fingerprint) is None,
    decreases s.len(),
{
    if s.len() > 0 {
        let d = s.drop_last();
        assert forall|i: int| 0 <= i < d.len() implies (#[trigger] d[i]).fingerprint != fingerprint by {
            assert(d[i] == s[i]);
        }
        lemma_absent(d, fingerprint);
        assert(s[s.len() - 1].fingerprint != fingerprint);
    }
}

/// Of two listed entries the first was seen last, or both at the same time.
pub proof fn the_last_seen_is_listed_first(s: Seq<EntryView>, i: int, j: int)
    requires
        0 <= i < j < s.len(),
    ensures
        newest_first(s).len() == s.len(),
        !clock::before(newest_first(s)[i].last_occurred, newest_first(s)[j].last_occurred),
        newest_first(s).to_multiset() == s.to_multiset(),
{
    newest_first_orders_everything(s);
}

} // verus!

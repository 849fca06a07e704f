//! Metrics and health over HTTP.
use vstd::prelude::*;
use vstd::string::*;
use crate::observability::metrics::{METRIC_CALLS_TOTAL, METRIC_DURATION_SECONDS, METRIC_ERRORS_TOTAL, MetricsCollector};
use crate::observability::usage::{USAGE_HEADER, UsageCollector};
use crate::strmap::StrMap;
use crate::text::{cat2, cat3, cat5, contains, decimal, is_white_space, str_eq, to_chars};
use crate::events::subscribers;
use crate::observability::metrics;
use crate::observability::usage;
use crate::text;

verus! {

/// How long a request may take to arrive, in seconds.
pub const REQUEST_READ_TIMEOUT_SECS: u64 = 10;

/// How many connections are served at the same time.
pub const MAX_CONCURRENT_CONNECTIONS: usize = 64;

/// After how many bytes no more of a request is read.
pub const MAX_REQUEST_BYTES: usize = 8192;

/// Whether a text tells of a metric.
pub open spec fn tells_of_metric(body: Seq<char>, name: Seq<char>) -> bool {
    text::has_infix(body, "# TYPE "@ + name + " "@) || text::has_infix(body, name + " "@) || text::has_infix(body, name + "{"@) || text::has_infix(
        body,
        name + "_bucket"@,
    )
}

/// What introduces a metric that a text does not tell of.
pub open spec fn introduction(body: Seq<char>, name: Seq<char>, kind: Seq<char>) -> Seq<char> {
    if tells_of_metric(body, name) {
        Seq::empty()
    } else {
        "# HELP "@ + name + " apcore standard metric\n"@ + "# TYPE "@ + name + " "@ + kind + "\n"@
    }
}

fn ensure_metric_present(out: &mut String, body: &str, name: &str, kind: &str)
    ensures
        final(out)@ == old(out)@ + introduction(body@, name@, kind@),
{
    let ghost start = out@;
    if contains(body, cat3("# TYPE ", name, " ").as_str()) || contains(body, cat2(name, " ").as_str()) || contains(
        body,
        cat2(name, "{").as_str(),
    ) || contains(body, cat2(name, "_bucket").as_str()) {
        assert(out@ =~= start + Seq::empty());
        return;
    }
    out.append("# HELP ");
    out.append(name);
    out.append(" apcore standard metric\n");
    out.append("# TYPE ");
    out.append(name);
    out.append(" ");
    out.append(kind);
    out.append("\n");
    assert(out@ =~= start + introduction(body@, name@, kind@));
}

/// The metrics of a collector, with an introduction of each of the standard
/// metrics that has not been observed.
pub open spec fn metrics_body(body: Seq<char>) -> Seq<char> {
    introduction(body, METRIC_CALLS_TOTAL@, "counter"@) + introduction(body, METRIC_ERRORS_TOTAL@, "counter"@)
        + introduction(body, METRIC_DURATION_SECONDS@, "histogram"@) + body
}

/// What is answered to a request.
#[derive(Debug)]
pub struct HttpResponse {
    pub status: &'static str,
    pub content_type: &'static str,
    pub body: String,
}

impl HttpResponse {
    /// The answer as it is sent.
    pub fn to_text(&self) -> (r: String)
        ensures
            r@ == response_text(self.status@, self.content_type@, self.body@),
    {
        let n: usize = self.body.as_str().len();
        let mut out = cat5("HTTP/1.1 ", self.status, "\r\nContent-Type: ", self.content_type, "\r\nContent-Length: ");
        out.append(decimal(n as u64).as_str());
        out.append("\r\nConnection: close\r\n\r\n");
        out.append(self.body.as_str());
        out
    }
}

/// An answer as it is sent. Its length is that of the body in UTF-8.
pub open spec fn response_text(status: Seq<char>, content_type: Seq<char>, body: Seq<char>) -> Seq<char> {
    "HTTP/1.1 "@ + status + "\r\nContent-Type: "@ + content_type + "\r\nContent-Length: "@ + text::decimal_text(
        (vstd::utf8::encode_utf8(body).len() as usize) as nat,
    ) + "\r\nConnection: close\r\n\r\n"@ + body
}

/// Serves the metrics of a collector, and whether the application is alive and
/// ready.
#[derive(Debug)]
pub struct PrometheusExporter {
    pub collector: MetricsCollector,
    pub usage_collector: Option<UsageCollector>,
    pub ready: bool,
}

/// The text of the metrics.
pub open spec fn exported(e: PrometheusExporter, rates: Map<Seq<char>, Seq<char>>) -> Seq<char> {
    let body = metrics_body(metrics::counter_lines(e.collector@.counters) + metrics::histogram_lines(e.collector@.histograms));
    match e.usage_collector {
        Some(u) => body + (USAGE_HEADER@ + usage::modules_lines(metrics::sorted_list(usage::module_names(u@)), u@, rates)),
        None => body,
    }
}

impl PrometheusExporter {
    /// An exporter of a collector. The application is not ready yet.
    pub fn new(collector: MetricsCollector) -> (r: Self)
        ensures
            r == (PrometheusExporter { collector, usage_collector: None, ready: false }),
    {
        PrometheusExporter { collector, usage_collector: None, ready: false }
    }

    /// The exporter with a collector of uses.
    pub fn with_usage_collector(self, usage: UsageCollector) -> (r: Self)
        ensures
            r == (PrometheusExporter { usage_collector: Some(usage), ..self }),
    {
        PrometheusExporter { collector: self.collector, usage_collector: Some(usage), ready: self.ready }
    }

    /// The metrics in the Prometheus text format. The standard metrics are
    /// introduced even before anything was observed.
    pub fn export(&self, rates: &StrMap<String>) -> (r: String)
        ensures
            r@ == exported(*self, subscribers::text_map(rates@)),
    {
        let body = self.collector.export_prometheus();
        let mut out = String::new();
        ensure_metric_present(&mut out, body.as_str(), METRIC_CALLS_TOTAL, "counter");
        ensure_metric_present(&mut out, body.as_str(), METRIC_ERRORS_TOTAL, "counter");
        ensure_metric_present(&mut out, body.as_str(), METRIC_DURATION_SECONDS, "histogram");
        out.append(body.as_str());
        assert(out@ =~= metrics_body(body@));
        match &self.usage_collector {
            Some(usage) => {
                out.append(usage.export_prometheus(rates).as_str());
            },
            None => {},
        }
        out
    }

    /// The application is ready.
    pub fn mark_ready(&mut self)
        ensures
            *final(self) == (PrometheusExporter { ready: true, ..*old(self) }),
    {
        self.ready = true;
    }

    /// The application is not ready.
    pub fn mark_not_ready(&mut self)
        ensures
            *final(self) == (PrometheusExporter { ready: false, ..*old(self) }),
    {
        self.ready = false;
    }

    /// The answer to a request for a target: the metrics under their path,
    /// whether the application is alive under `/healthz`, whether it is ready
    /// under `/readyz`, and nothing elsewhere.
    pub fn respond(&self, target: &str, metrics_path: &str, rates: &StrMap<String>) -> (r: HttpResponse)
        ensures
            if target@ == metrics_path@ {
                r.status@ == "200 OK"@ && r.content_type@ == "text/plain; version=0.0.4; charset=utf-8"@ && r.body@
                    == exported(*self, subscribers::text_map(rates@))
            } else {
                r.content_type@ == "text/plain; charset=utf-8"@ && if target@ == "/healthz"@ || (target@ == "/readyz"@
                    && self.ready) {
                    r.status@ == "200 OK"@ && r.body@ == "OK\n"@
                } else if target@ == "/readyz"@ {
                    r.status@ == "503 Service Unavailable"@ && r.body@ == "Not ready\n"@
                } else {
                    r.status@ == "404 Not Found"@ && r.body@ == "Not Found\n"@
                }
            },
    {
        if str_eq(target, metrics_path) {
            return HttpResponse {
                status: "200 OK",
                content_type: "text/plain; version=0.0.4; charset=utf-8",
                body: self.export(rates),
            };
        }
        let content_type = "text/plain; charset=utf-8";
        if str_eq(target, "/healthz") || (str_eq(target, "/readyz") && self.ready) {
            HttpResponse { status: "200 OK", content_type, body: "OK\n".to_owned() }
        } else if str_eq(target, "/readyz") {
            HttpResponse { status: "503 Service Unavailable", content_type, body: "Not ready\n".to_owned() }
        } else {
            HttpResponse { status: "404 Not Found", content_type, body: "Not Found\n".to_owned() }
        }
    }
}

// ---------------------------------------------------------------------------
// Requests
// ---------------------------------------------------------------------------

/// Whether an empty line starts at this position.
pub open spec fn blank_line_at(buf: Seq<u8>, i: int) -> bool {
    0 <= i && i + 4 <= buf.len() && buf[i] == 13 && buf[i + 1] == 10 && buf[i + 2] == 13 && buf[i + 3] == 10
}

/// Whether the head of a request is complete: it holds an empty line.
pub open spec fn head_is_complete(buf: Seq<u8>) -> bool {
    exists|i: int| #[trigger] blank_line_at(buf, i)
}

/// Whether more of a request is to be read: its head is not complete, and it is
/// not too long yet.
pub fn reads_on(buf: &Vec<u8>) -> (r: bool)
    ensures
        r == (!head_is_complete(buf@) && buf@.len() <= MAX_REQUEST_BYTES),
{
    if buf.len() > MAX_REQUEST_BYTES {
        return false;
    }
    let mut i: usize = 0;
    while i + 4 <= buf.len()
        invariant
            buf@.len() <= MAX_REQUEST_BYTES,
            i <= buf@.len(),
            forall|j: int| 0 <= j < i ==> !blank_line_at(buf@, j),
        decreases buf.len() - i,
    {
        if buf[i] == 13 && buf[i + 1] == 10 && buf[i + 2] == 13 && buf[i + 3] == 10 {
            assert(blank_line_at(buf@, i as int));
            return false;
        }
        i = i + 1;
    }
    true
}

/// A text up to the first of a character.
pub open spec fn until_char(s: Seq<char>, c: char) -> Seq<char>
    decreases s.len(),
{
    if s.len() == 0 || s[0] == c {
        Seq::empty()
    } else {
        seq![s[0]] + until_char(s.skip(1), c)
    }
}

/// The first line of a text, without what ends it.
pub open spec fn first_line_of(s: Seq<char>) -> Seq<char> {
    let line = until_char(s, '\n');
    if line.len() < s.len() && line.len() > 0 && line.last() == '\r' {
        line.drop_last()
    } else {
        line
    }
}

fn text_of(chars: &Vec<char>, from: usize, to: usize) -> (r: String)
    requires
        from <= to <= chars.len(),
    ensures
        r@ == chars@.subrange(from as int, to as int),
{
    let mut out = String::new();
    let mut i: usize = from;
    assert(out@ =~= chars@.subrange(from as int, from as int));
    while i < to
        invariant
            from <= i <= to,
            to <= chars.len(),
            out@ == chars@.subrange(from as int, i as int),
        decreases to - i,
    {
        out.push(chars[i]);
        i = i + 1;
        assert(out@ =~= chars@.subrange(from as int, i as int));
    }
    out
}

proof fn lemma_until_char(s: Seq<char>, c: char, n: int)
    requires
        0 <= n <= s.len(),
        forall|j: int| 0 <= j < n ==> s[j] != c,
        n == s.len() || s[n] == c,
    ensures
        until_char(s, c) == s.subrange(0, n),
    decreases s.len(),
{
    if n == 0 {
        assert(s.subrange(0, 0) =~= Seq::empty());
    } else {
        let t = s.skip(1);
        assert forall|j: int| 0 <= j < n - 1 implies t[j] != c by {
            assert(t[j] == s[j + 1]);
        }
        lemma_until_char(t, c, n - 1);
        assert(seq![s[0]] + t.subrange(0, n - 1) =~= s.subrange(0, n));
    }
}

/// The first line of a request.
pub fn request_line(text: &str) -> (r: String)
    ensures
        r@ == first_line_of(text@),
{
    let chars = to_chars(text);
    let mut n: usize = 0;
    while n < chars.len() && chars[n] != '\n'
        invariant
            n <= chars.len(),
            forall|j: int| 0 <= j < n ==> chars@[j] != '\n',
        decreases chars.len() - n,
    {
        n = n + 1;
    }
    proof {
        lemma_until_char(chars@, '\n', n as int);
    }
    if n < chars.len() && n > 0 && chars[n - 1] == '\r' {
        assert(chars@.subrange(0, n as int).drop_last() =~= chars@.subrange(0, n - 1));
        text_of(&chars, 0, n - 1)
    } else {
        text_of(&chars, 0, n)
    }
}

/// The first word of a text that does not start with white space.
pub open spec fn word_of(s: Seq<char>) -> Seq<char>
    decreases s.len(),
{
    if s.len() == 0 || text::white_space(s[0]) {
        Seq::empty()
    } else {
        seq![s[0]] + word_of(s.skip(1))
    }
}

/// The second word of a text.
pub open spec fn second_word(s: Seq<char>) -> Option<Seq<char>> {
    let a = text::without_leading_space(s);
    let b = text::without_leading_space(a.skip(word_of(a).len() as int));
    if b.len() == 0 {
        None
    } else {
        Some(word_of(b))
    }
}

fn skip_space(chars: &Vec<char>, from: usize) -> (r: usize)
    requires
        from <= chars.len(),
    ensures
        from <= r <= chars.len(),
        text::without_leading_space(chars@.skip(from as int)) == chars@.skip(r as int),
        r < chars.len() ==> !text::white_space(chars@[r as int]),
{
    let mut i: usize = from;
    while i < chars.len() && is_white_space(chars[i])
        invariant
            from <= i <= chars.len(),
            text::without_leading_space(chars@.skip(from as int)) == text::without_leading_space(chars@.skip(i as int)),
        decreases chars.len() - i,
    {
        assert(chars@.skip(i as int).skip(1) =~= chars@.skip(i + 1));
        i = i + 1;
    }
    i
}

fn skip_word(chars: &Vec<char>, from: usize) -> (r: usize)
    requires
        from <= chars.len(),
    ensures
        from <= r <= chars.len(),
        word_of(chars@.skip(from as int)) == chars@.subrange(from as int, r as int),
{
    let mut i: usize = from;
    assert(chars@.subrange(from as int, from as int) + word_of(chars@.skip(from as int)) =~= word_of(
        chars@.skip(from as int),
    ));
    while i < chars.len() && !is_white_space(chars[i])
        invariant
            from <= i <= chars.len(),
            word_of(chars@.skip(from as int)) == chars@.subrange(from as int, i as int) + word_of(chars@.skip(i as int)),
        decreases chars.len() - i,
    {
        assert(chars@.skip(i as int).skip(1) =~= chars@.skip(i + 1));
        assert(chars@.subrange(from as int, i as int) + (seq![chars@[i as int]] + word_of(chars@.skip(i + 1)))
            =~= chars@.subrange(from as int, i + 1) + word_of(chars@.skip(i + 1)));
        i = i + 1;
    }
    assert(chars@.subrange(from as int, i as int) + Seq::<char>::empty() =~= chars@.subrange(from as int, i as int));
    i
}

/// What a request asks for: the second word of its first line.
pub fn parse_target(request_line: &str) -> (r: Option<String>)
    ensures
        text::opt_text(r) == second_word(request_line@),
{
    let chars = to_chars(request_line);
    assert(chars@.skip(0) =~= chars@);
    let a: usize = skip_space(&chars, 0);
    let b: usize = skip_word(&chars, a);
    assert(chars@.skip(a as int).skip(b - a) =~= chars@.skip(b as int));
    let c: usize = skip_space(&chars, b);
    if c == chars.len() {
        return None;
    }
    let d: usize = skip_word(&chars, c);
    Some(text_of(&chars, c, d))
}

/// Whatever was observed, the metrics tell of each standard metric.
pub proof fn standard_metrics_are_always_told(body: Seq<char>)
    ensures
        text::has_infix(metrics_body(body), METRIC_CALLS_TOTAL@),
        text::has_infix(metrics_body(body), METRIC_ERRORS_TOTAL@),
        text::has_infix(metrics_body(body), METRIC_DURATION_SECONDS@),
{
    let calls = introduction(body, METRIC_CALLS_TOTAL@, "counter"@);
    let errors = introduction(body, METRIC_ERRORS_TOTAL@, "counter"@);
    let durations = introduction(body, METRIC_DURATION_SECONDS@, "histogram"@);
    lemma_told(body, METRIC_CALLS_TOTAL@, "counter"@);
    lemma_told(body, METRIC_ERRORS_TOTAL@, "counter"@);
    lemma_told(body, METRIC_DURATION_SECONDS@, "histogram"@);
    let all = metrics_body(body);
    let e = Seq::<char>::empty();
    assert(all =~= e + calls + (errors + durations + body));
    assert(all =~= (calls + errors + durations) + body + e);
    assert(all =~= calls + errors + (durations + body));
    assert(all =~= (calls + errors) + durations + body);
    if text::has_infix(calls, METRIC_CALLS_TOTAL@) {
        lemma_infix_within(e, calls, errors + durations + body, METRIC_CALLS_TOTAL@);
    } else {
        lemma_infix_within(calls + errors + durations, body, e, METRIC_CALLS_TOTAL@);
    }
    if text::has_infix(errors, METRIC_ERRORS_TOTAL@) {
        lemma_infix_within(calls, errors, durations + body, METRIC_ERRORS_TOTAL@);
    } else {
        lemma_infix_within(calls + errors + durations, body, e, METRIC_ERRORS_TOTAL@);
    }
    if text::has_infix(durations, METRIC_DURATION_SECONDS@) {
        lemma_infix_within(calls + errors, durations, body, METRIC_DURATION_SECONDS@);
    } else {
        lemma_infix_within(calls + errors + durations, body, e, METRIC_DURATION_SECONDS@);
    }
}

proof fn lemma_told(body: Seq<char>, name: Seq<char>, kind: Seq<char>)
    ensures
        text::has_infix(introduction(body, name, kind), name) || text::has_infix(body, name),
{
    let e = Seq::<char>::empty();
    if tells_of_metric(body, name) {
        if text::has_infix(body, "# TYPE "@ + name + " "@) {
            lemma_infix_of_infix(body, "# TYPE "@, name, " "@);
        } else if text::has_infix(body, name + " "@) {
            assert(e + name + " "@ =~= name + " "@);
            lemma_infix_of_infix(body, e, name, " "@);
        } else if text::has_infix(body, name + "{"@) {
            assert(e + name + "{"@ =~= name + "{"@);
            lemma_infix_of_infix(body, e, name, "{"@);
        } else {
            assert(e + name + "_bucket"@ =~= name + "_bucket"@);
            lemma_infix_of_infix(body, e, name, "_bucket"@);
        }
    } else {
        let text = introduction(body, name, kind);
        let rest = " apcore standard metric\n"@ + "# TYPE "@ + name + " "@ + kind + "\n"@;
        assert(text =~= "# HELP "@ + name + rest);
        assert(name.subrange(0, name.len() as int) =~= name);
        assert(text::occurs_at(name, name, 0));
        lemma_infix_within("# HELP "@, name, rest, name);
    }
}

proof fn lemma_infix_within(a: Seq<char>, b: Seq<char>, c: Seq<char>, p: Seq<char>)
    requires
        text::has_infix(b, p),
    ensures
        text::has_infix(a + b + c, p),
{
    let i = choose|i: int| text::occurs_at(b, p, i);
    let s = a + b + c;
    assert(s.subrange(a.len() + i, a.len() + i + p.len()) =~= b.subrange(i, i + p.len()));
    assert(text::occurs_at(s, p, a.len() + i));
}

proof fn lemma_infix_of_infix(s: Seq<char>, a: Seq<char>, b: Seq<char>, c: Seq<char>)
    requires
        text::has_infix(s, a + b + c),
    ensures
        text::has_infix(s, b),
{
    let p = a + b + c;
    let i = choose|i: int| text::occurs_at(s, p, i);
    let found = s.subrange(i, i + p.len());
    assert(found == p);
    assert(s.subrange(i + a.len(), i + a.len() + b.len()) =~= b) by {
        assert forall|j: int| 0 <= j < b.len() implies s[i + a.len() + j] == b[j] by {
            assert(found[a.len() + j] == p[a.len() + j]);
        }
    }
    assert(text::occurs_at(s, b, i + a.len()));
}

/// The head of a request is complete exactly where two line ends in a row stand
/// in it.
pub proof fn an_empty_line_completes_the_head(before: Seq<u8>, after: Seq<u8>, end: Seq<u8>, buf: Seq<u8>)
    requires
        end == seq![13u8, 10u8, 13u8, 10u8],
    ensures
        head_is_complete(before + end + after),
        head_is_complete(buf) ==> exists|a: Seq<u8>, b: Seq<u8>| buf == #[trigger] (a + end + b),
{
    let all = before + end + after;
    let n = before.len() as int;
    assert(all[n] == 13 && all[n + 1] == 10 && all[n + 2] == 13 && all[n + 3] == 10);
    assert(blank_line_at(all, n));
    if head_is_complete(buf) {
        let i = choose|i: int| #[trigger] blank_line_at(buf, i);
        let a = buf.subrange(0, i);
        let b = buf.skip(i + 4);
        assert(buf =~= a + end + b);
    }
}

/// What stands before a character holds it nowhere and is followed by it, or is
/// all there is.
pub proof fn a_text_ends_before_the_character(s: Seq<char>, c: char, rest: Seq<char>)
    requires
        !s.contains(c),
    ensures
        until_char(s, c) == s,
        until_char(s + seq![c] + rest, c) == s,
    decreases s.len(),
{
    let all = s + seq![c] + rest;
    if s.len() == 0 {
        assert(all[0] == c);
        assert(until_char(all, c) =~= s);
        assert(until_char(s, c) =~= s);
    } else {
        assert(s.contains(s[0]));
        assert(all[0] == s[0]);
        let d = s.skip(1);
        assert(!d.contains(c)) by {
            if d.contains(c) {
                let i = choose|i: int| 0 <= i < d.len() && d[i] == c;
                assert(s[i + 1] == c);
            }
        }
        a_text_ends_before_the_character(d, c, rest);
        assert(all.skip(1) =~= d + seq![c] + rest);
        assert(seq![s[0]] + d =~= s);
    }
}

/// The first line ends before the first line end, which is a line feed, with or
/// without a carriage return before it.
pub proof fn a_line_ends_before_its_line_end(line: Seq<char>, rest: Seq<char>)
    requires
        !line.contains('\n'),
        line.len() > 0 ==> line.last() != '\r',
    ensures
        first_line_of(line + seq!['\n'] + rest) == line,
        first_line_of(line + seq!['\r', '\n'] + rest) == line,
        first_line_of(line) == line,
{
    a_text_ends_before_the_character(line, '\n', rest);
    let with_return = line.push('\r');
    assert(!with_return.contains('\n')) by {
        if with_return.contains('\n') {
            let i = choose|i: int| 0 <= i < with_return.len() && with_return[i] == '\n';
            if i < line.len() {
                assert(line[i] == '\n');
            }
        }
    }
    a_text_ends_before_the_character(with_return, '\n', rest);
    assert(line + seq!['\r', '\n'] + rest =~= with_return + seq!['\n'] + rest);
    assert(with_return.drop_last() =~= line);
}

/// Whether a text has no white space in it.
pub open spec fn is_solid(s: Seq<char>) -> bool {
    forall|i: int| 0 <= i < s.len() ==> !text::white_space(#[trigger] s[i])
}

proof fn lemma_word_ends(w: Seq<char>, rest: Seq<char>)
    requires
        is_solid(w),
        rest.len() == 0 || text::white_space(rest[0]),
    ensures
        word_of(w + rest) == w,
    decreases w.len(),
{
    let all = w + rest;
    if w.len() == 0 {
        assert(all =~= rest);
        assert(word_of(all) =~= w);
    } else {
        assert(all[0] == w[0]);
        let d = w.skip(1);
        assert forall|i: int| 0 <= i < d.len() implies !text::white_space(#[trigger] d[i]) by {
            assert(d[i] == w[i + 1]);
        }
        lemma_word_ends(d, rest);
        assert(all.skip(1) =~= d + rest);
        assert(seq![w[0]] + d =~= w);
    }
}

proof fn lemma_blank_skipped(gap: Seq<char>, rest: Seq<char>)
    requires
        text::is_blank(gap),
        rest.len() == 0 || !text::white_space(rest[0]),
    ensures
        text::without_leading_space(gap + rest) == rest,
    decreases gap.len(),
{
    let all = gap + rest;
    if gap.len() == 0 {
        assert(all =~= rest);
    } else {
        assert(all[0] == gap[0]);
        let d = gap.skip(1);
        assert forall|i: int| 0 <= i < d.len() implies text::white_space(#[trigger] d[i]) by {
            assert(d[i] == gap[i + 1]);
        }
        lemma_blank_skipped(d, rest);
        assert(all.skip(1) =~= d + rest);
    }
}

/// The second word of a line stands after the first word and the white space that
/// follows it, up to the next white space; a line of one word has none.
pub proof fn the_second_word_is_found(
    lead: Seq<char>,
    first: Seq<char>,
    gap: Seq<char>,
    second: Seq<char>,
    rest: Seq<char>,
)
    requires
        text::is_blank(lead),
        is_solid(first),
        first.len() > 0,
        text::is_blank(gap),
        gap.len() > 0,
        is_solid(second),
        second.len() > 0,
        rest.len() == 0 || text::white_space(rest[0]),
    ensures
        second_word(lead + first + gap + second + rest) == Some(second),
        second_word(lead + first + gap) is None,
        second_word(lead + first) is None,
{
    let end = second + rest;
    assert(end[0] == second[0]);
    let tail = gap + end;
    let body = first + tail;
    assert(body[0] == first[0]);
    assert(tail[0] == gap[0]);
    assert(lead + first + gap + second + rest =~= lead + body);
    lemma_blank_skipped(lead, body);
    lemma_word_ends(first, tail);
    assert(body.skip(first.len() as int) =~= tail);
    lemma_blank_skipped(gap, end);
    lemma_word_ends(second, rest);
    let none = Seq::<char>::empty();
    assert((first + gap)[0] == first[0]);
    assert(lead + first + gap =~= lead + (first + gap));
    lemma_blank_skipped(lead, first + gap);
    lemma_word_ends(first, gap);
    assert((first + gap).skip(first.len() as int) =~= gap);
    lemma_blank_skipped(gap, none);
    assert(gap + none =~= gap);
    lemma_blank_skipped(lead, first);
    lemma_word_ends(first, none);
    assert(first + none =~= first);
    assert(first.skip(first.len() as int) =~= none);
}

/// A response starts with its status, tells the type and the length of its body,
/// and ends with the body.
pub proof fn a_response_tells_of_its_body(status: Seq<char>, content_type: Seq<char>, body: Seq<char>)
    ensures
        ({
            let r = response_text(status, content_type, body);
            let length = text::decimal_text((vstd::utf8::encode_utf8(body).len() as usize) as nat);
            &&& text::has_prefix(r, "HTTP/1.1 "@ + status)
            &&& text::has_infix(r, "\r\nContent-Type: "@ + content_type)
            &&& text::has_infix(r, "\r\nContent-Length: "@ + length)
            &&& text::has_infix(r, "\r\nConnection: close\r\n\r\n"@ + body)
            &&& r.skip(r.len() - body.len()) == body
        }),
{
    let r = response_text(status, content_type, body);
    let length = text::decimal_text((vstd::utf8::encode_utf8(body).len() as usize) as nat);
    let a = "HTTP/1.1 "@ + status;
    let b = "\r\nContent-Type: "@ + content_type;
    let c = "\r\nContent-Length: "@ + length;
    let d = "\r\nConnection: close\r\n\r\n"@ + body;
    let none = Seq::<char>::empty();
    assert(r =~= a + b + c + d);
    text::a_prefix_is_followed(r, a, b + c + d);
    assert(r =~= a + (b + c + d));
    text::a_part_stands_between(r, b, a, c + d);
    assert(r =~= a + b + (c + d));
    text::a_part_stands_between(r, c, a + b, d);
    text::a_part_stands_between(r, d, a + b + c, none);
    assert(r =~= a + b + c + d + none);
    assert(r.skip(r.len() - body.len()) =~= body);
}

/// A standard metric that a body does not tell of is introduced before it, and one
/// that it tells of is not introduced again.
pub proof fn missing_metrics_are_introduced(body: Seq<char>)
    ensures
        ({
            let all = metrics_body(body);
            &&& all.skip(all.len() - body.len()) == body
            &&& !tells_of_metric(body, "apcore_module_calls_total"@) ==> text::has_infix(
                all,
                "# TYPE "@ + "apcore_module_calls_total"@ + " "@ + "counter"@ + "\n"@,
            )
            &&& !tells_of_metric(body, "apcore_module_errors_total"@) ==> text::has_infix(
                all,
                "# TYPE "@ + "apcore_module_errors_total"@ + " "@ + "counter"@ + "\n"@,
            )
            &&& !tells_of_metric(body, "apcore_module_duration_seconds"@) ==> text::has_infix(
                all,
                "# TYPE "@ + "apcore_module_duration_seconds"@ + " "@ + "histogram"@ + "\n"@,
            )
            &&& tells_of_metric(body, "apcore_module_calls_total"@) && tells_of_metric(
                body,
                "apcore_module_errors_total"@,
            ) && tells_of_metric(body, "apcore_module_duration_seconds"@) ==> all == body
        }),
{
    let calls = "apcore_module_calls_total"@;
    let errors = "apcore_module_errors_total"@;
    let durations = "apcore_module_duration_seconds"@;
    let a = introduction(body, calls, "counter"@);
    let b = introduction(body, errors, "counter"@);
    let c = introduction(body, durations, "histogram"@);
    let all = metrics_body(body);
    assert(all =~= a + b + c + body);
    assert(all.skip(all.len() - body.len()) =~= body);
    lemma_introduced(body, calls, "counter"@);
    lemma_introduced(body, errors, "counter"@);
    lemma_introduced(body, durations, "histogram"@);
    let none = Seq::<char>::empty();
    if !tells_of_metric(body, calls) {
        text::a_part_is_kept(a, "# TYPE "@ + calls + " "@ + "counter"@ + "\n"@, none, b + c + body);
        assert(all =~= a + (b + c + body));
    }
    if !tells_of_metric(body, errors) {
        text::a_part_is_kept(b, "# TYPE "@ + errors + " "@ + "counter"@ + "\n"@, a, c + body);
        assert(all =~= a + b + (c + body));
    }
    if !tells_of_metric(body, durations) {
        text::a_part_is_kept(c, "# TYPE "@ + durations + " "@ + "histogram"@ + "\n"@, a + b, body);
    }
    if tells_of_metric(body, calls) && tells_of_metric(body, errors) && tells_of_metric(body, durations) {
        assert(all =~= body);
    }
}

proof fn lemma_introduced(body: Seq<char>, name: Seq<char>, kind: Seq<char>)
    ensures
        !tells_of_metric(body, name) ==> text::has_infix(
            introduction(body, name, kind),
            "# TYPE "@ + name + " "@ + kind + "\n"@,
        ),
{
    let head = "# HELP "@ + name + " apcore standard metric\n"@;
    let end = "# TYPE "@ + name + " "@ + kind + "\n"@;
    lemma_regrouped("# HELP "@, name, " apcore standard metric\n"@, "# TYPE "@, name, " "@, kind, "\n"@);
    text::a_part_stands_between(end, end, head, Seq::empty());
    assert(head + end + Seq::<char>::empty() =~= head + end);
}

proof fn lemma_regrouped(
    a: Seq<char>,
    b: Seq<char>,
    c: Seq<char>,
    d: Seq<char>,
    e: Seq<char>,
    f: Seq<char>,
    g: Seq<char>,
    h: Seq<char>,
)
    ensures
        a + b + c + d + e + f + g + h == (a + b + c) + (d + e + f + g + h),
{
    let head = a + b + c;
    assert(head + d + e + f + g + h =~= head + (d + e + f + g + h));
}

/// A body tells of a metric that it introduces, or that it has a value of.
pub proof fn what_tells_of_a_metric(name: Seq<char>, before: Seq<char>, after: Seq<char>)
    ensures
        tells_of_metric(before + ("# TYPE "@ + name + " "@) + after, name),
        tells_of_metric(before + (name + " "@) + after, name),
        tells_of_metric(before + (name + "{"@) + after, name),
        tells_of_metric(before + (name + "_bucket"@) + after, name),
        !tells_of_metric(Seq::empty(), name),
{
    text::a_part_stands_between(before, "# TYPE "@ + name + " "@, before, after);
    text::a_part_stands_between(before, name + " "@, before, after);
    text::a_part_stands_between(before, name + "{"@, before, after);
    text::a_part_stands_between(before, name + "_bucket"@, before, after);
    reveal_strlit("# TYPE ");
    reveal_strlit(" ");
    reveal_strlit("{");
    reveal_strlit("_bucket");
}

/// What is exported holds the lines of every counter and of every histogram, and
/// those of the uses where uses are counted.
pub proof fn everything_is_exported(e: PrometheusExporter, rates: Map<Seq<char>, Seq<char>>)
    ensures
        ({
            let all = exported(e, rates);
            &&& text::has_infix(all, metrics::counter_lines(e.collector@.counters))
            &&& text::has_infix(all, metrics::histogram_lines(e.collector@.histograms))
            &&& e.usage_collector matches Some(u) ==> text::has_infix(
                all,
                usage::modules_lines(metrics::sorted_list(usage::module_names(u@)), u@, rates),
            )
        }),
{
    let all = exported(e, rates);
    let a = metrics::counter_lines(e.collector@.counters);
    let b = metrics::histogram_lines(e.collector@.histograms);
    let body = metrics_body(a + b);
    let none = Seq::<char>::empty();
    missing_metrics_are_introduced(a + b);
    let head = body.subrange(0, body.len() - (a + b).len());
    assert(body =~= head + (a + b));
    let more = match e.usage_collector {
        Some(u) => USAGE_HEADER@ + usage::modules_lines(metrics::sorted_list(usage::module_names(u@)), u@, rates),
        None => none,
    };
    assert(all =~= body + more);
    lemma_two_parts(head, a, b, more);
    if e.usage_collector is Some {
        let u = e.usage_collector->0;
        let lines = usage::modules_lines(metrics::sorted_list(usage::module_names(u@)), u@, rates);
        lemma_last_part(body, USAGE_HEADER@, lines);
    }
}

proof fn lemma_two_parts(head: Seq<char>, a: Seq<char>, b: Seq<char>, more: Seq<char>)
    ensures
        text::has_infix(head + (a + b) + more, a),
        text::has_infix(head + (a + b) + more, b),
{
    let all = head + (a + b) + more;
    text::a_part_stands_between(all, a, head, b + more);
    assert(all =~= head + a + (b + more));
    text::a_part_stands_between(all, b, head + a, more);
    assert(all =~= (head + a) + b + more);
}

proof fn lemma_last_part(body: Seq<char>, header: Seq<char>, lines: Seq<char>)
    ensures
        text::has_infix(body + (header + lines), lines),
{
    let all = body + (header + lines);
    let none = Seq::<char>::empty();
    text::a_part_stands_between(all, lines, body + header, none);
    assert(all =~= (body + header) + lines + none);
}

} // verus!

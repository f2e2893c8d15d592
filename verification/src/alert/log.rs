//! The alert log: where alerts are written, one JSON record per line. Opening,
//! writing and reading the file, and encoding the records, are the caller's work.
use vstd::prelude::*;
use crate::alert::types::AlertConfig;
use crate::network::firewall::rules::opt_view;
use crate::scan::{lines, scan_lines, strip_cr, text_lines};
use crate::text::{string_from_chars, strings_view};

verus! {

/// The settings of the alert log: the file it writes to, if any, and whether it is
/// enabled.
pub struct AlertLogger {
    log_path: Option<String>,
    enabled: bool,
}

impl AlertLogger {
    /// The file the log writes to.
    pub closed spec fn path_view(&self) -> Option<Seq<char>> {
        opt_view(self.log_path)
    }

    /// Whether the log is enabled.
    pub closed spec fn enabled_view(&self) -> bool {
        self.enabled
    }

    /// The log described by `config`: its file is the configured one, or else
    /// `default_path` (the per-user data directory's "app-security/alerts.json", where
    /// there is one); it is enabled when the configuration logs to file.
    pub fn from_config(config: &AlertConfig, default_path: Option<String>) -> (l: Self)
        ensures
            l.path_view() == (match config.log_file_path {
                Some(p) => Some(p@),
                None => opt_view(default_path),
            }),
            l.enabled_view() == config.log_to_file,
    {
        let log_path = match &config.log_file_path {
            Some(p) => Some(p.clone()),
            None => default_path,
        };
        AlertLogger { log_path, enabled: config.log_to_file }
    }

    /// An enabled log writing to `log_path`.
    pub fn new(log_path: String) -> (l: Self)
        ensures
            l.path_view() == Some(log_path@),
            l.enabled_view(),
    {
        AlertLogger { log_path: Some(log_path), enabled: true }
    }

    /// The file the log writes to, if any.
    pub fn log_path(&self) -> (r: Option<&str>)
        ensures
            (match r {
                Some(p) => self.path_view() == Some(p@),
                None => self.path_view() is None,
            }),
    {
        match &self.log_path {
            Some(p) => Some(p.as_str()),
            None => None,
        }
    }

    /// Whether the log is enabled.
    pub fn is_enabled(&self) -> (r: bool)
        ensures
            r == self.enabled_view(),
    {
        self.enabled
    }
}

impl Default for AlertLogger {
    /// A disabled log with no file.
    fn default() -> (l: Self)
        ensures
            l.path_view() is None,
            !l.enabled_view(),
    {
        AlertLogger { log_path: None, enabled: false }
    }
}

/// The non-empty lines of `s`, in order.
pub open spec fn nonempty_lines(s: Seq<char>) -> Seq<Seq<char>> {
    text_lines(s).filter(|l: Seq<char>| l.len() > 0)
}

/// The records of a log file's content: its non-empty lines, in order (each holds one
/// alert encoded as JSON).
pub fn log_records(content: &str) -> (r: Vec<String>)
    ensures
        strings_view(r@) == nonempty_lines(content@),
{
    let cs = crate::text::chars_of(content);
    let ls = lines(cs.as_slice());
    let ghost all = ls@.map_values(|l: Vec<char>| l@);
    let mut out: Vec<String> = Vec::new();
    let n = ls.len();
    for i in 0..n
        invariant
            n == ls@.len(),
            all == ls@.map_values(|l: Vec<char>| l@),
            strings_view(out@) == all.take(i as int).filter(|l: Seq<char>| l.len() > 0),
    {
        proof {
            reveal(Seq::filter);
            assert(all.take(i + 1).drop_last() == all.take(i as int));
        }
        if ls[i].len() > 0 {
            let ghost before = strings_view(out@);
            out.push(string_from_chars(ls[i].as_slice()));
            assert(strings_view(out@) =~= before.push(all[i as int]));
        }
        assert(strings_view(out@) =~= all.take(i + 1).filter(|l: Seq<char>| l.len() > 0));
    }
    assert(all.take(n as int) =~= all);
    out
}

/// The content of a log holding `records`: each record followed by a line feed, in order.
pub open spec fn log_content(records: Seq<Seq<char>>) -> Seq<char>
    decreases records.len(),
{
    if records.len() == 0 {
        Seq::empty()
    } else {
        log_content(records.drop_last()) + records.last() + seq!['\n']
    }
}

/// A record that reads back as itself: not empty, with no line feed, not ending in a
/// carriage return (a JSON encoding has all three properties).
pub open spec fn plain_record(r: Seq<char>) -> bool {
    &&& r.len() > 0
    &&& forall|k: int| 0 <= k < r.len() ==> r[k] != '\n'
    &&& r.last() != '\r'
}

/// Scanning `x + y` from inside `x`, where `x` ends with a line feed, gives the lines of
/// `x` from there and then those of `y`.
proof fn lemma_scan_prefix(x: Seq<char>, y: Seq<char>, start: int, i: int)
    requires
        x.len() > 0,
        x.last() == '\n',
        0 <= start <= i <= x.len(),
        i < x.len() || start == i,
    ensures
        scan_lines(x + y, start, i) == scan_lines(x, start, i) + scan_lines(x + y, x.len() as int, x.len() as int),
    decreases x.len() - i,
{
    let s = x + y;
    if i == x.len() {
        assert(scan_lines(x, start, i) == Seq::<Seq<char>>::empty());
        assert(scan_lines(x, start, i) + scan_lines(s, i, i) =~= scan_lines(s, i, i));
    } else {
        assert(s[i] == x[i]);
        if x[i] == '\n' {
            lemma_scan_prefix(x, y, i + 1, i + 1);
            assert(s.subrange(start, i) =~= x.subrange(start, i));
            assert(scan_lines(s, start, i) =~= scan_lines(x, start, i) + scan_lines(s, x.len() as int, x.len() as int));
        } else {
            assert(i + 1 < x.len());
            lemma_scan_prefix(x, y, start, i + 1);
        }
    }
}

/// Scanning `x + y` past `x` is scanning `y`.
proof fn lemma_scan_shift(x: Seq<char>, y: Seq<char>, a: int, b: int)
    requires
        0 <= a <= b <= y.len(),
    ensures
        scan_lines(x + y, x.len() + a, x.len() + b) == scan_lines(y, a, b),
    decreases y.len() - b,
{
    let s = x + y;
    let n = x.len() as int;
    if b >= y.len() {
        if a < y.len() {
            assert(s.subrange(n + a, s.len() as int) =~= y.subrange(a, y.len() as int));
        }
    } else {
        assert(s[n + b] == y[b]);
        if y[b] == '\n' {
            lemma_scan_shift(x, y, b + 1, b + 1);
            assert(s.subrange(n + a, n + b) =~= y.subrange(a, b));
        } else {
            lemma_scan_shift(x, y, a, b + 1);
        }
    }
}

/// The lines of `x + y`, where `x` is empty or ends with a line feed, are those of `x`
/// followed by those of `y`.
proof fn lemma_lines_append(x: Seq<char>, y: Seq<char>)
    requires
        x.len() == 0 || x.last() == '\n',
    ensures
        text_lines(x + y) == text_lines(x) + text_lines(y),
{
    if x.len() == 0 {
        assert(x + y =~= y);
        assert(text_lines(x) == Seq::<Seq<char>>::empty());
        assert(text_lines(x) + text_lines(y) =~= text_lines(y));
    } else {
        lemma_scan_prefix(x, y, 0, 0);
        lemma_scan_shift(x, y, 0, 0);
        assert(x.len() + 0 == x.len());
    }
}

/// Scanning a plain record followed by a line feed yields the record alone.
proof fn lemma_record_line(r: Seq<char>, i: int)
    requires
        plain_record(r),
        0 <= i <= r.len(),
    ensures
        scan_lines(r + seq!['\n'], 0, i) == seq![r],
    decreases r.len() - i,
{
    let s = r + seq!['\n'];
    if i == r.len() {
        assert(s[i] == '\n');
        assert(s.subrange(0, i) =~= r);
        assert(scan_lines(s, i + 1, i + 1) == Seq::<Seq<char>>::empty());
        assert(strip_cr(r) == r);
        assert(seq![strip_cr(s.subrange(0, i))] + scan_lines(s, i + 1, i + 1) =~= seq![r]);
    } else {
        assert(s[i] == r[i]);
        lemma_record_line(r, i + 1);
    }
}

/// What the log writes is what it reads back: the records of a log made of plain
/// records, each on its own line, are exactly those records, in order.
pub proof fn lemma_records_read_back(records: Seq<Seq<char>>)
    requires
        forall|j: int| 0 <= j < records.len() ==> plain_record(#[trigger] records[j]),
    ensures
        nonempty_lines(log_content(records)) == records,
    decreases records.len(),
{
    if records.len() > 0 {
        let init = records.drop_last();
        let last = records.last();
        assert forall|j: int| 0 <= j < init.len() implies plain_record(#[trigger] init[j]) by {
            assert(init[j] == records[j]);
        }
        lemma_records_read_back(init);
        let x = log_content(init);
        let y = last + seq!['\n'];
        assert(log_content(records) =~= x + y);
        assert(x.len() == 0 || x.last() == '\n') by {
            if init.len() > 0 {
                assert(x == log_content(init.drop_last()) + init.last() + seq!['\n']);
            }
        }
        lemma_lines_append(x, y);
        assert(plain_record(records[records.len() - 1]));
        lemma_record_line(last, 0);
        let p = |l: Seq<char>| l.len() > 0;
        Seq::filter_distributes_over_add(text_lines(x), text_lines(y), p);
        reveal(Seq::filter);
        assert(seq![last].filter(p) =~= seq![last]) by {
            assert(seq![last].drop_last() =~= Seq::<Seq<char>>::empty());
        }
        assert(init.push(last) =~= records);
    }
}

} // verus!

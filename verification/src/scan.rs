//! Splitting and matching text, stated over `Seq<char>`: lines, whitespace-separated
//! words, trimming, prefixes, substrings and decimal port numbers.
use vstd::prelude::*;

verus! {

/// Unicode `White_Space` (what `char::is_whitespace` tests).
pub open spec fn is_ws(c: char) -> bool {
    let u = c as u32;
    (9 <= u <= 13) || u == 32 || u == 0x85 || u == 0xA0 || u == 0x1680 || (0x2000 <= u <= 0x200A)
        || u == 0x2028 || u == 0x2029 || u == 0x202F || u == 0x205F || u == 0x3000
}

/// Whether `c` is whitespace.
pub fn is_whitespace(c: char) -> (r: bool)
    ensures
        r == is_ws(c),
{
    let u = c as u32;
    (9 <= u && u <= 13) || u == 32 || u == 0x85 || u == 0xA0 || u == 0x1680 || (0x2000 <= u && u <= 0x200A)
        || u == 0x2028 || u == 0x2029 || u == 0x202F || u == 0x205F || u == 0x3000
}

/// A line without its line terminator: a final '\r' is dropped.
pub open spec fn strip_cr(l: Seq<char>) -> Seq<char> {
    if l.len() > 0 && l.last() == '\r' {
        l.drop_last()
    } else {
        l
    }
}

/// The lines of `s[start..]`, knowing that `s[start..i]` holds no '\n'.
pub open spec fn scan_lines(s: Seq<char>, start: int, i: int) -> Seq<Seq<char>>
    decreases s.len() - i,
{
    if i >= s.len() {
        if start < s.len() {
            seq![s.subrange(start, s.len() as int)]
        } else {
            Seq::empty()
        }
    } else if s[i] == '\n' {
        seq![strip_cr(s.subrange(start, i))] + scan_lines(s, i + 1, i + 1)
    } else {
        scan_lines(s, start, i + 1)
    }
}

/// The lines of `s` as `str::lines` yields them: split after each '\n', a line ended
/// by "\n" or "\r\n" loses that ending, and a final empty line is not produced.
pub open spec fn text_lines(s: Seq<char>) -> Seq<Seq<char>> {
    scan_lines(s, 0, 0)
}

/// Whether `s[a..b]` is a line's stretch of `s`: it holds no '\n', begins at the start
/// of `s` or after a '\n', and ends at a '\n' or at the end of `s`.
pub open spec fn is_line_span(s: Seq<char>, a: int, b: int) -> bool {
    &&& 0 <= a <= b <= s.len()
    &&& forall|j: int| a <= j < b ==> #[trigger] s[j] != '\n'
    &&& (a == 0 || s[a - 1] == '\n')
    &&& (b == s.len() || s[b] == '\n')
}

/// The number of '\n' characters of `s` from position `i` on.
pub open spec fn newlines_from(s: Seq<char>, i: int) -> nat
    decreases s.len() - i,
{
    if i < 0 || i >= s.len() {
        0
    } else {
        (if s[i] == '\n' { 1nat } else { 0nat }) + newlines_from(s, i + 1)
    }
}

proof fn lemma_scan_lines_spans(s: Seq<char>, start: int, i: int) -> (pos: Seq<(int, int)>)
    requires
        0 <= start <= i <= s.len(),
        forall|j: int| start <= j < i ==> #[trigger] s[j] != '\n',
        start == 0 || s[start - 1] == '\n',
    ensures
        pos.len() == scan_lines(s, start, i).len(),
        scan_lines(s, start, i).len()
            == newlines_from(s, i) + (if start < s.len() && s.last() != '\n' { 1nat } else { 0nat }),
        pos.len() > 0 ==> pos[0].0 == start,
        forall|k: int| 0 <= k < pos.len() ==> {
            &&& is_line_span(s, (#[trigger] pos[k]).0, pos[k].1)
            &&& scan_lines(s, start, i)[k] == if pos[k].1 < s.len() {
                strip_cr(s.subrange(pos[k].0, pos[k].1))
            } else {
                s.subrange(pos[k].0, pos[k].1)
            }
        },
        forall|k: int| 0 <= k < pos.len() - 1 ==> (#[trigger] pos[k + 1]).0 == pos[k].1 + 1,
    decreases s.len() - i,
{
    if i >= s.len() {
        if start < s.len() {
            assert(s.last() == s[s.len() - 1]);
            seq![(start, s.len() as int)]
        } else {
            Seq::empty()
        }
    } else if s[i] == '\n' {
        let rest = lemma_scan_lines_spans(s, i + 1, i + 1);
        let pos = seq![(start, i)] + rest;
        let w = scan_lines(s, start, i);
        assert(w == seq![strip_cr(s.subrange(start, i))] + scan_lines(s, i + 1, i + 1));
        if i + 1 == s.len() {
            assert(s.last() == '\n');
        } else {
            assert(s.last() == s[s.len() - 1]);
        }
        assert forall|k: int| 0 <= k < pos.len() implies {
            &&& is_line_span(s, (#[trigger] pos[k]).0, pos[k].1)
            &&& w[k] == if pos[k].1 < s.len() {
                strip_cr(s.subrange(pos[k].0, pos[k].1))
            } else {
                s.subrange(pos[k].0, pos[k].1)
            }
        } by {
            if k > 0 {
                assert(pos[k] == rest[k - 1]);
            }
        }
        assert forall|k: int| 0 <= k < pos.len() - 1 implies (#[trigger] pos[k + 1]).0 == pos[k].1 + 1 by {
            assert(pos[k + 1] == rest[k]);
            if k > 0 {
                assert(pos[k] == rest[k - 1]);
                assert(rest[(k - 1) + 1].0 == rest[k - 1].1 + 1);
            } else {
                assert(rest[0].0 == i + 1);
            }
        }
        pos
    } else {
        lemma_scan_lines_spans(s, start, i + 1)
    }
}

/// The lines of `s` are its stretches between '\n' characters, all of them, in order:
/// the first begins at the start of `s` and each next one just after the '\n' that ends
/// the one before; a line ended by '\n' loses a '\r' just before it, and the last line
/// is kept only when `s` does not end with '\n'. So there are as many lines as '\n'
/// characters, plus one when `s` is not empty and does not end with '\n'.
pub proof fn lemma_text_lines_spans(s: Seq<char>)
    ensures
        text_lines(s).len() == newlines_from(s, 0) + (if 0 < s.len() && s.last() != '\n' { 1nat } else { 0nat }),
        exists|pos: Seq<(int, int)>| #![trigger pos.len()]
            pos.len() == text_lines(s).len()
            && (pos.len() > 0 ==> pos[0].0 == 0)
            && (forall|k: int| 0 <= k < pos.len() ==> {
                &&& is_line_span(s, (#[trigger] pos[k]).0, pos[k].1)
                &&& text_lines(s)[k] == if pos[k].1 < s.len() && pos[k].0 < pos[k].1 && s[pos[k].1 - 1] == '\r' {
                    s.subrange(pos[k].0, pos[k].1 - 1)
                } else {
                    s.subrange(pos[k].0, pos[k].1)
                }
            })
            && (forall|k: int| 0 <= k < pos.len() - 1 ==> (#[trigger] pos[k + 1]).0 == pos[k].1 + 1),
{
    let pos = lemma_scan_lines_spans(s, 0, 0);
    assert(pos.len() == text_lines(s).len());
    assert forall|k: int| 0 <= k < pos.len() implies {
        &&& is_line_span(s, (#[trigger] pos[k]).0, pos[k].1)
        &&& text_lines(s)[k] == if pos[k].1 < s.len() && pos[k].0 < pos[k].1 && s[pos[k].1 - 1] == '\r' {
            s.subrange(pos[k].0, pos[k].1 - 1)
        } else {
            s.subrange(pos[k].0, pos[k].1)
        }
    } by {
        let piece = s.subrange(pos[k].0, pos[k].1);
        if piece.len() > 0 {
            assert(piece.last() == s[pos[k].1 - 1]);
            assert(piece.drop_last() =~= s.subrange(pos[k].0, pos[k].1 - 1));
        }
    }
}

/// The characters `s[a..b]`.
pub fn slice_to_vec(s: &[char], a: usize, b: usize) -> (r: Vec<char>)
    requires
        a <= b <= s@.len(),
    ensures
        r@ == s@.subrange(a as int, b as int),
{
    let mut r: Vec<char> = Vec::new();
    for i in a..b
        invariant
            b <= s@.len(),
            r@ == s@.subrange(a as int, i as int),
    {
        r.push(s[i]);
        assert(r@ =~= s@.subrange(a as int, i + 1));
    }
    r
}

/// The lines of `s` (see [`text_lines`]).
pub fn lines(s: &[char]) -> (r: Vec<Vec<char>>)
    ensures
        r@.map_values(|l: Vec<char>| l@) == text_lines(s@),
{
    let n = s.len();
    let mut out: Vec<Vec<char>> = Vec::new();
    let mut start: usize = 0;
    let mut i: usize = 0;
    while i < n
        invariant
            n == s@.len(),
            start <= i <= n,
            out@.map_values(|l: Vec<char>| l@) + scan_lines(s@, start as int, i as int) == text_lines(s@),
        decreases n - i,
    {
        let ghost before = out@.map_values(|l: Vec<char>| l@);
        if s[i] == '\n' {
            let mut piece = slice_to_vec(s, start, i);
            let plen = piece.len();
            if plen > 0 && piece[plen - 1] == '\r' {
                piece.pop();
            }
            assert(piece@ == strip_cr(s@.subrange(start as int, i as int)));
            out.push(piece);
            assert(out@.map_values(|l: Vec<char>| l@) =~= before + seq![strip_cr(s@.subrange(start as int, i as int))]);
            i = i + 1;
            start = i;
        } else {
            i = i + 1;
        }
    }
    if start < n {
        let ghost before = out@.map_values(|l: Vec<char>| l@);
        out.push(slice_to_vec(s, start, n));
        assert(out@.map_values(|l: Vec<char>| l@) =~= before + seq![s@.subrange(start as int, n as int)]);
    } else {
        assert(out@.map_values(|l: Vec<char>| l@) =~= out@.map_values(|l: Vec<char>| l@) + Seq::<Seq<char>>::empty());
    }
    out
}

/// The whitespace-separated words of `s[i..]`, where `cur` is the word in progress.
pub open spec fn scan_words(s: Seq<char>, i: int, cur: Seq<char>) -> Seq<Seq<char>>
    decreases s.len() - i,
{
    if i >= s.len() {
        if cur.len() > 0 {
            seq![cur]
        } else {
            Seq::empty()
        }
    } else if is_ws(s[i]) {
        (if cur.len() > 0 {
            seq![cur]
        } else {
            Seq::empty()
        }) + scan_words(s, i + 1, Seq::empty())
    } else {
        scan_words(s, i + 1, cur.push(s[i]))
    }
}

/// The maximal runs of non-whitespace characters of `s`, in order (`str::split_whitespace`).
pub open spec fn words(s: Seq<char>) -> Seq<Seq<char>> {
    scan_words(s, 0, Seq::empty())
}

/// Whether `s[a..b]` is a maximal run of non-whitespace characters of `s`: not empty,
/// free of whitespace, and bounded by whitespace or the ends of `s`.
pub open spec fn is_word_run(s: Seq<char>, a: int, b: int) -> bool {
    &&& 0 <= a < b <= s.len()
    &&& forall|j: int| a <= j < b ==> !is_ws(#[trigger] s[j])
    &&& (a == 0 || is_ws(s[a - 1]))
    &&& (b == s.len() || is_ws(s[b]))
}

/// The number of positions from `i` on where a run of non-whitespace characters of `s`
/// begins.
pub open spec fn word_starts_from(s: Seq<char>, i: int) -> nat
    decreases s.len() - i,
{
    if i < 0 || i >= s.len() {
        0
    } else {
        (if !is_ws(s[i]) && (i == 0 || is_ws(s[i - 1])) { 1nat } else { 0nat }) + word_starts_from(s, i + 1)
    }
}

proof fn lemma_scan_words_runs(s: Seq<char>, i: int, cur: Seq<char>) -> (pos: Seq<(int, int)>)
    requires
        0 <= i <= s.len(),
        cur.len() <= i,
        cur == s.subrange(i - cur.len(), i),
        forall|j: int| i - cur.len() <= j < i ==> !is_ws(#[trigger] s[j]),
        cur.len() > 0 ==> (i - cur.len() == 0 || is_ws(s[i - cur.len() - 1])),
        cur.len() == 0 ==> (i == 0 || is_ws(s[i - 1])),
    ensures
        pos.len() == scan_words(s, i, cur).len(),
        scan_words(s, i, cur).len() == word_starts_from(s, i) + (if cur.len() > 0 { 1nat } else { 0nat }),
        forall|k: int| 0 <= k < pos.len() ==> {
            &&& is_word_run(s, (#[trigger] pos[k]).0, pos[k].1)
            &&& scan_words(s, i, cur)[k] == s.subrange(pos[k].0, pos[k].1)
            &&& pos[k].0 >= i - cur.len()
        },
        forall|k: int, l: int| 0 <= k < l < pos.len() ==> (#[trigger] pos[k]).1 < (#[trigger] pos[l]).0,
    decreases s.len() - i,
{
    if i >= s.len() {
        if cur.len() > 0 {
            seq![(i - cur.len(), i)]
        } else {
            Seq::empty()
        }
    } else if is_ws(s[i]) {
        assert(Seq::<char>::empty() =~= s.subrange(i + 1, i + 1));
        let rest = lemma_scan_words_runs(s, i + 1, Seq::empty());
        if cur.len() > 0 {
            let pos = seq![(i - cur.len(), i)] + rest;
            let w = scan_words(s, i, cur);
            assert(w == seq![cur] + scan_words(s, i + 1, Seq::empty()));
            assert forall|k: int| 0 <= k < pos.len() implies {
                &&& is_word_run(s, (#[trigger] pos[k]).0, pos[k].1)
                &&& w[k] == s.subrange(pos[k].0, pos[k].1)
                &&& pos[k].0 >= i - cur.len()
            } by {
                if k > 0 {
                    assert(pos[k] == rest[k - 1]);
                }
            }
            assert forall|k: int, l: int| 0 <= k < l < pos.len() implies (#[trigger] pos[k]).1 < (#[trigger] pos[l]).0 by {
                assert(pos[l] == rest[l - 1]);
                if k > 0 {
                    assert(pos[k] == rest[k - 1]);
                }
            }
            pos
        } else {
            assert(scan_words(s, i, cur) =~= scan_words(s, i + 1, Seq::empty()));
            rest
        }
    } else {
        assert(cur.push(s[i]) =~= s.subrange(i - cur.len(), i + 1));
        lemma_scan_words_runs(s, i + 1, cur.push(s[i]))
    }
}

/// The words of `s` are its maximal runs of non-whitespace characters, all of them, in
/// order: there are as many words as positions where such a run begins, and the words
/// are the text of runs of `s` that follow one another.
pub proof fn lemma_words_are_runs(s: Seq<char>)
    ensures
        words(s).len() == word_starts_from(s, 0),
        exists|pos: Seq<(int, int)>| #![trigger pos.len()]
            pos.len() == words(s).len()
            && (forall|k: int| 0 <= k < pos.len() ==>
                is_word_run(s, (#[trigger] pos[k]).0, pos[k].1) && words(s)[k] == s.subrange(pos[k].0, pos[k].1))
            && (forall|k: int, l: int| 0 <= k < l < pos.len() ==> (#[trigger] pos[k]).1 < (#[trigger] pos[l]).0),
{
    assert(Seq::<char>::empty() =~= s.subrange(0, 0));
    let pos = lemma_scan_words_runs(s, 0, Seq::empty());
    assert(pos.len() == words(s).len());
}

/// The words of `s` (see [`words`]).
pub fn split_whitespace(s: &[char]) -> (r: Vec<Vec<char>>)
    ensures
        r@.map_values(|w: Vec<char>| w@) == words(s@),
{
    let n = s.len();
    let mut out: Vec<Vec<char>> = Vec::new();
    let mut cur: Vec<char> = Vec::new();
    for i in 0..n
        invariant
            n == s@.len(),
            out@.map_values(|w: Vec<char>| w@) + scan_words(s@, i as int, cur@) == words(s@),
    {
        let ghost before = out@.map_values(|w: Vec<char>| w@);
        if is_whitespace(s[i]) {
            if cur.len() > 0 {
                let ghost c = cur@;
                out.push(cur);
                cur = Vec::new();
                assert(out@.map_values(|w: Vec<char>| w@) =~= before + seq![c]);
            } else {
                assert(before + Seq::<Seq<char>>::empty() == before);
            }
            assert(cur@ =~= Seq::<char>::empty());
        } else {
            cur.push(s[i]);
        }
    }
    let ghost before = out@.map_values(|w: Vec<char>| w@);
    if cur.len() > 0 {
        out.push(cur);
        assert(out@.map_values(|w: Vec<char>| w@) =~= before + seq![cur@]);
    } else {
        assert(before + Seq::<Seq<char>>::empty() == before);
    }
    out
}

/// `s` without its leading whitespace.
pub open spec fn trim_start(s: Seq<char>) -> Seq<char>
    decreases s.len(),
{
    if s.len() > 0 && is_ws(s[0]) {
        trim_start(s.drop_first())
    } else {
        s
    }
}

/// `s` without its trailing whitespace.
pub open spec fn trim_end(s: Seq<char>) -> Seq<char>
    decreases s.len(),
{
    if s.len() > 0 && is_ws(s.last()) {
        trim_end(s.drop_last())
    } else {
        s
    }
}

/// `s` without leading and trailing whitespace (`str::trim`).
pub open spec fn trim(s: Seq<char>) -> Seq<char> {
    trim_end(trim_start(s))
}

proof fn lemma_trim_start_span(s: Seq<char>) -> (a: int)
    ensures
        0 <= a <= s.len(),
        trim_start(s) == s.subrange(a, s.len() as int),
        forall|j: int| 0 <= j < a ==> is_ws(#[trigger] s[j]),
        a < s.len() ==> !is_ws(s[a]),
    decreases s.len(),
{
    if s.len() > 0 && is_ws(s[0]) {
        let a1 = lemma_trim_start_span(s.drop_first());
        assert(s.drop_first().subrange(a1, s.drop_first().len() as int) =~= s.subrange(a1 + 1, s.len() as int));
        assert forall|j: int| 0 <= j < a1 + 1 implies is_ws(#[trigger] s[j]) by {
            if j > 0 {
                assert(s[j] == s.drop_first()[j - 1]);
            }
        }
        if a1 + 1 < s.len() {
            assert(s[a1 + 1] == s.drop_first()[a1]);
        }
        a1 + 1
    } else {
        assert(s.subrange(0, s.len() as int) =~= s);
        0
    }
}

proof fn lemma_trim_end_span(s: Seq<char>) -> (b: int)
    ensures
        0 <= b <= s.len(),
        trim_end(s) == s.subrange(0, b),
        forall|j: int| b <= j < s.len() ==> is_ws(#[trigger] s[j]),
        b > 0 ==> !is_ws(s[b - 1]),
    decreases s.len(),
{
    if s.len() > 0 && is_ws(s.last()) {
        let b1 = lemma_trim_end_span(s.drop_last());
        assert(s.drop_last().subrange(0, b1) =~= s.subrange(0, b1));
        assert forall|j: int| b1 <= j < s.len() implies is_ws(#[trigger] s[j]) by {
            if j < s.len() - 1 {
                assert(s[j] == s.drop_last()[j]);
            }
        }
        if b1 > 0 {
            assert(s[b1 - 1] == s.drop_last()[b1 - 1]);
        }
        b1
    } else {
        assert(s.subrange(0, s.len() as int) =~= s);
        s.len() as int
    }
}

/// Trimming keeps the stretch of `s` between its leading and its trailing whitespace:
/// everything cut off is whitespace, and what is kept, when not empty, begins and ends
/// with a character that is not.
pub proof fn lemma_trim_span(s: Seq<char>)
    ensures
        exists|a: int, b: int| #![trigger s.subrange(a, b)]
            0 <= a <= b <= s.len()
            && trim(s) == s.subrange(a, b)
            && (forall|j: int| 0 <= j < a ==> is_ws(#[trigger] s[j]))
            && (forall|j: int| b <= j < s.len() ==> is_ws(#[trigger] s[j]))
            && (a < b ==> !is_ws(s[a]) && !is_ws(s[b - 1])),
{
    let a = lemma_trim_start_span(s);
    let t = trim_start(s);
    let b0 = lemma_trim_end_span(t);
    let b = a + b0;
    assert(t.subrange(0, b0) =~= s.subrange(a, b));
    assert forall|j: int| b <= j < s.len() implies is_ws(#[trigger] s[j]) by {
        assert(s[j] == t[j - a]);
    }
    if a < b {
        assert(s[a] == t[0]);
        assert(s[b - 1] == t[b0 - 1]);
    }
    assert(trim(s) == s.subrange(a, b));
}

/// `s` begins with `p` exactly when `p` is no longer than `s` and each character of `p`
/// is the character of `s` at the same position.
pub proof fn lemma_starts_with_chars(s: Seq<char>, p: Seq<char>)
    ensures
        starts_with(s, p) <==> (p.len() <= s.len() && forall|j: int| 0 <= j < p.len() ==> s[j] == p[j]),
{
    if p.len() <= s.len() && forall|j: int| 0 <= j < p.len() ==> s[j] == p[j] {
        assert(s.subrange(0, p.len() as int) =~= p);
    }
}

/// Whether the characters of `hay` from position `i` on are those of `needle`, one by one.
pub open spec fn matches_at(hay: Seq<char>, needle: Seq<char>, i: int) -> bool {
    &&& 0 <= i
    &&& i + needle.len() <= hay.len()
    &&& forall|j: int| 0 <= j < needle.len() ==> hay[i + j] == needle[j]
}

/// `needle` occurs in `hay` exactly when, at some position, the characters of `hay` from
/// there on are those of `needle`, one by one.
pub proof fn lemma_contains_text_chars(hay: Seq<char>, needle: Seq<char>)
    ensures
        contains_text(hay, needle) <==> exists|i: int| #[trigger] matches_at(hay, needle, i),
{
    if contains_text(hay, needle) {
        let i = choose|i: int| #[trigger] occurs_at(hay, needle, i);
        assert(hay.subrange(i, i + needle.len()) == needle);
        assert forall|j: int| 0 <= j < needle.len() implies hay[i + j] == needle[j] by {
            assert(hay.subrange(i, i + needle.len())[j] == hay[i + j]);
        }
        assert(matches_at(hay, needle, i));
    }
    if exists|i: int| #[trigger] matches_at(hay, needle, i) {
        let i = choose|i: int| #[trigger] matches_at(hay, needle, i);
        assert forall|k: int| 0 <= k < needle.len() implies hay.subrange(i, i + needle.len())[k] == needle[k] by {
            assert(hay[i + k] == needle[k]);
        }
        assert(hay.subrange(i, i + needle.len()) =~= needle);
        assert(occurs_at(hay, needle, i));
    }
}

/// `s` without leading and trailing whitespace (see [`trim`]).
pub fn trim_chars(s: &[char]) -> (r: Vec<char>)
    ensures
        r@ == trim(s@),
{
    let n = s.len();
    let mut a: usize = 0;
    assert(s@.subrange(0, n as int) =~= s@);
    while a < n && is_whitespace(s[a])
        invariant
            a <= n == s@.len(),
            trim_start(s@) == trim_start(s@.subrange(a as int, n as int)),
        decreases n - a,
    {
        assert(s@.subrange(a as int, n as int).drop_first() =~= s@.subrange(a + 1, n as int));
        a = a + 1;
    }
    let ghost t = s@.subrange(a as int, n as int);
    assert(trim_start(s@) == t);
    let mut b: usize = n;
    while b > a && is_whitespace(s[b - 1])
        invariant
            a <= b <= n == s@.len(),
            t == s@.subrange(a as int, n as int),
            trim_end(t) == trim_end(s@.subrange(a as int, b as int)),
        decreases b,
    {
        assert(s@.subrange(a as int, b as int).drop_last() =~= s@.subrange(a as int, b - 1));
        b = b - 1;
    }
    slice_to_vec(s, a, b)
}

/// Whether `s` begins with `p`.
pub open spec fn starts_with(s: Seq<char>, p: Seq<char>) -> bool {
    p.len() <= s.len() && s.subrange(0, p.len() as int) == p
}

/// Whether `s` begins with the characters of `p`.
pub fn has_prefix(s: &[char], p: &str) -> (r: bool)
    ensures
        r == starts_with(s@, p@),
{
    let pv = crate::text::chars_of(p);
    assert(pv@ == p@);
    if pv.len() > s.len() {
        assert(!starts_with(s@, p@));
        return false;
    }
    let m = pv.len();
    for i in 0..m
        invariant
            m == pv@.len() <= s@.len(),
            pv@ == p@,
            forall|j: int| 0 <= j < i ==> s@[j] == pv@[j],
    {
        if s[i] != pv[i] {
            assert(s@.subrange(0, m as int)[i as int] != pv@[i as int]);
            assert(s@.subrange(0, m as int) != p@);
            return false;
        }
    }
    assert(s@.subrange(0, m as int) =~= pv@);
    true
}

/// `s` with the prefix `p` removed; requires that `s` begins with `p`.
pub fn after_prefix(s: &[char], p: &str) -> (r: Vec<char>)
    requires
        starts_with(s@, p@),
    ensures
        r@ == s@.subrange(p@.len() as int, s@.len() as int),
{
    let pv = crate::text::chars_of(p);
    slice_to_vec(s, pv.len(), s.len())
}

/// Whether `needle` occurs in `hay` at position `i`.
pub open spec fn occurs_at(hay: Seq<char>, needle: Seq<char>, i: int) -> bool {
    0 <= i && i + needle.len() <= hay.len() && hay.subrange(i, i + needle.len()) == needle
}

/// Whether `needle` occurs in `hay` (`str::contains`).
pub open spec fn contains_text(hay: Seq<char>, needle: Seq<char>) -> bool {
    exists|i: int| #[trigger] occurs_at(hay, needle, i)
}

/// Whether the characters of `needle` occur consecutively in `hay`.
pub fn contains_str(hay: &[char], needle: &str) -> (r: bool)
    ensures
        r == contains_text(hay@, needle@),
{
    let nv = crate::text::chars_of(needle);
    let m = nv.len();
    if m == 0 {
        assert(hay@.subrange(0, 0) =~= needle@);
        assert(occurs_at(hay@, needle@, 0));
        return true;
    }
    if m > hay.len() {
        assert forall|i: int| !occurs_at(hay@, needle@, i) by {}
        return false;
    }
    let last = hay.len() - m;
    let mut i: usize = 0;
    while i <= last
        invariant
            1 <= m == nv@.len(),
            nv@ == needle@,
            last + m == hay@.len(),
            hay@.len() <= usize::MAX,
            forall|k: int| 0 <= k < i ==> !occurs_at(hay@, needle@, k),
        decreases last + 1 - i,
    {
        let mut j: usize = 0;
        let mut ok = true;
        while j < m
            invariant
                m == nv@.len(),
                i <= last,
                last + m == hay@.len(),
                hay@.len() <= usize::MAX,
                j <= m,
                ok == (forall|t: int| 0 <= t < j ==> hay@[i + t] == nv@[t]),
            decreases m - j,
        {
            if hay[i + j] != nv[j] {
                ok = false;
            }
            j = j + 1;
        }
        if ok {
            assert(hay@.subrange(i as int, i + m) =~= nv@);
            assert(occurs_at(hay@, needle@, i as int));
            return true;
        }
        assert(!occurs_at(hay@, needle@, i as int)) by {
            let t = choose|t: int| 0 <= t < m && hay@[i + t] != nv@[t];
            if occurs_at(hay@, needle@, i as int) {
                assert(hay@.subrange(i as int, i + m)[t] == hay@[i + t]);
            }
        }
        i = i + 1;
    }
    assert forall|k: int| !occurs_at(hay@, needle@, k) by {
        if k > last {}
    }
    false
}

/// The value of the digit character `c` ('0' through '9').
pub open spec fn digit_value(c: char) -> nat {
    (c as u32 - '0' as u32) as nat
}

/// Whether `c` is an ASCII decimal digit.
pub open spec fn is_digit(c: char) -> bool {
    '0' as u32 <= c as u32 <= '9' as u32
}

/// The number a string of decimal digits denotes.
pub open spec fn digits_value(d: Seq<char>) -> nat
    decreases d.len(),
{
    if d.len() == 0 {
        0
    } else {
        digits_value(d.drop_last()) * 10 + digit_value(d.last())
    }
}

/// The digits after an optional leading '+'.
pub open spec fn unsigned_digits(s: Seq<char>) -> Seq<char> {
    if s.len() > 0 && s[0] == '+' {
        s.drop_first()
    } else {
        s
    }
}

/// `s` read as a `u16` the way `str::parse::<u16>` reads it: an optional '+', then one
/// or more ASCII digits, denoting at most 65535; `None` otherwise.
pub open spec fn parse_u16_spec(s: Seq<char>) -> Option<u16> {
    let d = unsigned_digits(s);
    if d.len() > 0 && (forall|i: int| 0 <= i < d.len() ==> is_digit(#[trigger] d[i])) && digits_value(d) <= 65535 {
        Some(digits_value(d) as u16)
    } else {
        None
    }
}

proof fn lemma_digits_value_is_numeral_value(d: Seq<char>)
    requires
        forall|i: int| 0 <= i < d.len() ==> '0' <= #[trigger] d[i] <= '9',
    ensures
        digits_value(d) == crate::text::numeral_value(d),
    decreases d.len(),
{
    if d.len() > 0 {
        lemma_digits_value_is_numeral_value(d.drop_last());
        assert(d.last() == d[d.len() - 1]);
    }
}

/// Reading back the decimal numeral of a port number gives that number.
pub proof fn lemma_parse_decimal_port(n: u16)
    ensures
        parse_u16_spec(crate::text::decimal(n as nat)) == Some(n),
{
    let d = crate::text::decimal(n as nat);
    crate::text::lemma_decimal_spells(n as nat);
    lemma_digits_value_is_numeral_value(d);
    assert(d[0] != '+');
    assert(unsigned_digits(d) == d);
    assert forall|i: int| 0 <= i < d.len() implies is_digit(#[trigger] d[i]) by {
        assert('0' <= d[i] <= '9');
    }
}

/// Reads `s` as a `u16` (see [`parse_u16_spec`]).
pub fn parse_u16(s: &[char]) -> (r: Option<u16>)
    ensures
        r == parse_u16_spec(s@),
{
    let n = s.len();
    let mut k: usize = if n > 0 && s[0] == '+' { 1 } else { 0 };
    let ghost d = unsigned_digits(s@);
    assert(d =~= s@.subrange(k as int, n as int));
    if k == n {
        return None;
    }
    let mut acc: u32 = 0;
    let mut idx: usize = k;
    while idx < n
        invariant
            k <= idx <= n == s@.len(),
            d == s@.subrange(k as int, n as int),
            d == unsigned_digits(s@),
            forall|t: int| k <= t < idx ==> is_digit(s@[t]),
            acc == if digits_value(d.take(idx - k)) < 65536 { digits_value(d.take(idx - k)) } else { 65536 },
        decreases n - idx,
    {
        let c = s[idx];
        let cu = c as u32;
        if !(48 <= cu && cu <= 57) {
            let ghost j = (idx - k) as int;
            assert(d[j] == c);
            assert(!is_digit(d[j]));
            return None;
        }
        let v = cu - 48;
        assert(d.take(idx - k + 1).drop_last() =~= d.take(idx - k));
        assert(d.take(idx - k + 1).last() == c);
        let next = acc * 10 + v;
        acc = if next < 65536 { next } else { 65536 };
        idx = idx + 1;
    }
    assert(d.take(n - k) =~= d);
    if acc > 65535 {
        None
    } else {
        Some(acc as u16)
    }
}

} // verus!

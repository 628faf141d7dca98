//! Character-level text handling: the model of `str` operations that the
//! command-output parsers rely on (trimming, line and word splitting,
//! prefix tests), each stated over `Seq<char>` and implemented on `Vec<char>`.
use vstd::prelude::*;

verus! {

/// `char::is_whitespace`: the Unicode `White_Space` property.
pub open spec fn is_ws(c: char) -> bool {
    let u = c as u32;
    ||| 0x09 <= u <= 0x0d
    ||| u == 0x20
    ||| u == 0x85
    ||| u == 0xa0
    ||| u == 0x1680
    ||| 0x2000 <= u <= 0x200a
    ||| u == 0x2028
    ||| u == 0x2029
    ||| u == 0x202f
    ||| u == 0x205f
    ||| u == 0x3000
}

pub open spec fn is_ascii_digit(c: char) -> bool {
    '0' <= c && c <= '9'
}

pub open spec fn is_ascii_alpha(c: char) -> bool {
    ('a' <= c && c <= 'z') || ('A' <= c && c <= 'Z')
}

/// `str::trim_start`.
pub open spec fn trim_start(s: Seq<char>) -> Seq<char>
    decreases s.len(),
{
    if s.len() > 0 && is_ws(s[0]) {
        trim_start(s.drop_first())
    } else {
        s
    }
}

/// `str::trim_end`.
pub open spec fn trim_end(s: Seq<char>) -> Seq<char>
    decreases s.len(),
{
    if s.len() > 0 && is_ws(s.last()) {
        trim_end(s.drop_last())
    } else {
        s
    }
}

/// `str::trim`.
pub open spec fn trim(s: Seq<char>) -> Seq<char> {
    trim_end(trim_start(s))
}

pub open spec fn starts_with(s: Seq<char>, p: Seq<char>) -> bool {
    p.len() <= s.len() && s.subrange(0, p.len() as int) == p
}

pub open spec fn ends_with(s: Seq<char>, p: Seq<char>) -> bool {
    p.len() <= s.len() && s.subrange(s.len() - p.len(), s.len() as int) == p
}

/// `str::strip_prefix`.
pub open spec fn strip_prefix(s: Seq<char>, p: Seq<char>) -> Option<Seq<char>> {
    if starts_with(s, p) {
        Some(s.subrange(p.len() as int, s.len() as int))
    } else {
        None
    }
}

/// `str::contains` with a string pattern.
pub open spec fn contains_seq(s: Seq<char>, p: Seq<char>) -> bool {
    exists|i: int| 0 <= i <= s.len() - p.len() && #[trigger] s.subrange(i, i + p.len()) == p
}

/// Index of the first occurrence of `c`, or -1.
pub open spec fn first_index(s: Seq<char>, c: char) -> int
    decreases s.len(),
{
    if s.len() == 0 {
        -1
    } else if s[0] == c {
        0
    } else {
        let r = first_index(s.drop_first(), c);
        if r < 0 {
            -1
        } else {
            r + 1
        }
    }
}

/// Index of the last occurrence of `c`, or -1 (`str::rfind` with a char).
pub open spec fn last_index(s: Seq<char>, c: char) -> int
    decreases s.len(),
{
    if s.len() == 0 {
        -1
    } else if s.last() == c {
        s.len() - 1
    } else {
        last_index(s.drop_last(), c)
    }
}

/// Index of the first whitespace character, or the length.
pub open spec fn first_ws(s: Seq<char>) -> int
    decreases s.len(),
{
    if s.len() == 0 {
        0
    } else if is_ws(s[0]) {
        0
    } else {
        1 + first_ws(s.drop_first())
    }
}

pub open spec fn strip_cr(line: Seq<char>) -> Seq<char> {
    if line.len() > 0 && line.last() == '\r' {
        line.drop_last()
    } else {
        line
    }
}

/// `str::lines`: lines end at `\n` (a `\r` just before it is dropped); a
/// final line ending adds no empty line.
pub open spec fn lines(s: Seq<char>) -> Seq<Seq<char>>
    decreases s.len(),
{
    if s.len() == 0 {
        seq![]
    } else {
        let i = first_index(s, '\n');
        if i < 0 {
            seq![s]
        } else {
            proof {
                lemma_first_index_bounds(s, '\n');
            }
            seq![strip_cr(s.subrange(0, i))] + lines(s.subrange(i + 1, s.len() as int))
        }
    }
}

/// `str::split_whitespace`.
pub open spec fn words(s: Seq<char>) -> Seq<Seq<char>>
    decreases s.len(),
{
    let t = trim_start(s);
    if t.len() == 0 {
        seq![]
    } else {
        let k = first_ws(t);
        proof {
            lemma_trim_start_len(s);
            lemma_first_ws_bounds(t);
        }
        seq![t.subrange(0, k)] + words(t.subrange(k, t.len() as int))
    }
}

/// The first line of `s`, or nothing.
pub open spec fn first_line(s: Seq<char>) -> Seq<char> {
    if lines(s).len() > 0 {
        lines(s)[0]
    } else {
        seq![]
    }
}

pub proof fn lemma_words_nonempty(s: Seq<char>)
    requires
        trim(s).len() > 0,
    ensures
        words(s).len() > 0,
{
    lemma_trim_end_len(trim_start(s));
}

/// `str::split` with a char separator.
pub open spec fn split_on(s: Seq<char>, c: char) -> Seq<Seq<char>>
    decreases s.len(),
{
    let i = first_index(s, c);
    if i < 0 {
        seq![s]
    } else {
        proof {
            lemma_first_index_bounds(s, c);
        }
        seq![s.subrange(0, i)] + split_on(s.subrange(i + 1, s.len() as int), c)
    }
}

pub open spec fn ascii_lower_char(c: char) -> char {
    if 'A' <= c && c <= 'Z' {
        ((c as u32) + 32) as char
    } else {
        c
    }
}

/// `str::to_ascii_lowercase`.
pub open spec fn ascii_lower(s: Seq<char>) -> Seq<char> {
    s.map_values(|c: char| ascii_lower_char(c))
}

pub open spec fn ascii_upper_char(c: char) -> char {
    if 'a' <= c && c <= 'z' {
        ((c as u32) - 32) as char
    } else {
        c
    }
}

/// `str::to_ascii_uppercase`.
pub open spec fn ascii_upper(s: Seq<char>) -> Seq<char> {
    s.map_values(|c: char| ascii_upper_char(c))
}

/// Concatenation of `parts` with `sep` between neighbours (`[..].join(sep)`).
pub open spec fn joined(parts: Seq<Seq<char>>, sep: Seq<char>) -> Seq<char>
    decreases parts.len(),
{
    if parts.len() == 0 {
        seq![]
    } else if parts.len() == 1 {
        parts[0]
    } else {
        joined(parts.drop_last(), sep) + sep + parts.last()
    }
}

pub open spec fn views(v: Seq<String>) -> Seq<Seq<char>> {
    v.map_values(|s: String| s@)
}

pub open spec fn opt_view(o: Option<String>) -> Option<Seq<char>> {
    match o {
        Some(s) => Some(s@),
        None => None,
    }
}

pub proof fn lemma_first_index_bounds(s: Seq<char>, c: char)
    ensures
        -1 <= first_index(s, c) < s.len(),
        first_index(s, c) >= 0 ==> s[first_index(s, c)] == c,
        first_index(s, c) >= 0 ==> forall|j: int| 0 <= j < first_index(s, c) ==> s[j] != c,
        first_index(s, c) < 0 ==> forall|j: int| 0 <= j < s.len() ==> s[j] != c,
    decreases s.len(),
{
    if s.len() > 0 && s[0] != c {
        lemma_first_index_bounds(s.drop_first(), c);
        assert forall|j: int| 1 <= j < s.len() implies s[j] == s.drop_first()[j - 1] by {}
    }
}

pub proof fn lemma_first_index_is(s: Seq<char>, c: char, k: int)
    requires
        0 <= k <= s.len(),
        k < s.len() ==> s[k] == c,
        forall|j: int| 0 <= j < k ==> s[j] != c,
    ensures
        first_index(s, c) == (if k < s.len() { k } else { -1 }),
{
    lemma_first_index_bounds(s, c);
    let f = first_index(s, c);
    if f >= 0 {
        assert(f >= k);
    }
}

pub proof fn lemma_last_index_bounds(s: Seq<char>, c: char)
    ensures
        -1 <= last_index(s, c) < s.len(),
        last_index(s, c) >= 0 ==> s[last_index(s, c)] == c,
        forall|j: int| last_index(s, c) < j < s.len() ==> s[j] != c,
    decreases s.len(),
{
    if s.len() > 0 && s.last() != c {
        lemma_last_index_bounds(s.drop_last(), c);
        assert forall|j: int| 0 <= j < s.len() - 1 implies s[j] == s.drop_last()[j] by {}
    }
}

pub proof fn lemma_last_index_is(s: Seq<char>, c: char, k: int)
    requires
        -1 <= k < s.len(),
        k >= 0 ==> s[k] == c,
        forall|j: int| k < j < s.len() ==> s[j] != c,
    ensures
        last_index(s, c) == k,
{
    lemma_last_index_bounds(s, c);
    let f = last_index(s, c);
    if f > k {
        assert(s[f] == c);
    }
    if f < k {
        assert(s[k] == c);
    }
}

pub proof fn lemma_first_ws_bounds(s: Seq<char>)
    ensures
        0 <= first_ws(s) <= s.len(),
        s.len() > 0 && !is_ws(s[0]) ==> first_ws(s) >= 1,
        forall|j: int| 0 <= j < first_ws(s) ==> !is_ws(s[j]),
        first_ws(s) < s.len() ==> is_ws(s[first_ws(s)]),
    decreases s.len(),
{
    if s.len() > 0 && !is_ws(s[0]) {
        lemma_first_ws_bounds(s.drop_first());
        assert forall|j: int| 1 <= j < s.len() implies s[j] == s.drop_first()[j - 1] by {}
    }
}

pub proof fn lemma_first_ws_is(s: Seq<char>, k: int)
    requires
        0 <= k <= s.len(),
        k < s.len() ==> is_ws(s[k]),
        forall|j: int| 0 <= j < k ==> !is_ws(s[j]),
    ensures
        first_ws(s) == k,
{
    lemma_first_ws_bounds(s);
    let f = first_ws(s);
    if f < k {
        assert(is_ws(s[f]));
    }
    if f > k {
        assert(!is_ws(s[k]));
    }
}

pub proof fn lemma_trim_start_len(s: Seq<char>)
    ensures
        trim_start(s).len() <= s.len(),
        trim_start(s).len() > 0 ==> !is_ws(trim_start(s)[0]),
    decreases s.len(),
{
    if s.len() > 0 && is_ws(s[0]) {
        lemma_trim_start_len(s.drop_first());
    }
}

pub proof fn lemma_trim_end_len(s: Seq<char>)
    ensures
        trim_end(s).len() <= s.len(),
    decreases s.len(),
{
    if s.len() > 0 && is_ws(s.last()) {
        lemma_trim_end_len(s.drop_last());
    }
}

pub proof fn lemma_trim_end_props(u: Seq<char>)
    ensures
        trim_end(u).len() <= u.len(),
        trim_end(u) == u.subrange(0, trim_end(u).len() as int),
        trim_end(u).len() > 0 ==> !is_ws(trim_end(u).last()),
    decreases u.len(),
{
    if u.len() > 0 && is_ws(u.last()) {
        lemma_trim_end_props(u.drop_last());
        assert(u.drop_last().subrange(0, trim_end(u).len() as int) == u.subrange(0, trim_end(u).len() as int));
    } else {
        assert(u.subrange(0, u.len() as int) == u);
    }
}

pub proof fn lemma_trim_end_fixed(t: Seq<char>)
    requires
        t.len() > 0 ==> !is_ws(t.last()),
    ensures
        trim_end(t) == t,
{
}

pub proof fn lemma_trim_start_fixed(t: Seq<char>)
    requires
        t.len() > 0 ==> !is_ws(t[0]),
    ensures
        trim_start(t) == t,
{
}

pub proof fn lemma_trim_idempotent(s: Seq<char>)
    ensures
        trim(trim(s)) == trim(s),
{
    let u = trim_start(s);
    lemma_trim_start_len(s);
    lemma_trim_end_props(u);
    let t = trim_end(u);
    if t.len() > 0 {
        assert(t[0] == u[0]);
    }
    lemma_trim_start_fixed(t);
    lemma_trim_end_fixed(t);
}

/// `char::is_whitespace`.
pub fn is_whitespace(c: char) -> (r: bool)
    ensures
        r == is_ws(c),
{
    let u = c as u32;
    (0x09 <= u && u <= 0x0d) || u == 0x20 || u == 0x85 || u == 0xa0 || u == 0x1680 || (0x2000
        <= u && u <= 0x200a) || u == 0x2028 || u == 0x2029 || u == 0x202f || u == 0x205f || u
        == 0x3000
}

/// `char::is_ascii_digit`.
pub fn is_digit(c: char) -> (r: bool)
    ensures
        r == is_ascii_digit(c),
{
    '0' <= c && c <= '9'
}

/// The characters of `s`, in order.
pub fn chars_of(s: &str) -> (v: Vec<char>)
    ensures
        v@ == s@,
{
    let mut v: Vec<char> = Vec::new();
    for c in it: s.chars()
        invariant
            v@ == it.seq().take(it.index() as int),
            it.seq() == s@,
    {
        v.push(c);
    }
    v
}

/// Appends one character (`String::push`).
#[verifier::external_body]
pub fn push_char(s: &mut String, c: char)
    ensures
        final(s)@ == old(s)@.push(c),
{
    s.push(c);
}

/// Appends a string slice (`String::push_str`).
#[verifier::external_body]
pub fn push_str(s: &mut String, t: &str)
    ensures
        final(s)@ == old(s)@ + t@,
{
    s.push_str(t);
}

/// The owned copy of a string slice.
pub fn owned(s: &str) -> (r: String)
    ensures
        r@ == s@,
{
    s.to_owned()
}

/// A copy of a `String`.
pub fn copy_string(s: &String) -> (r: String)
    ensures
        r@ == s@,
        r == *s,
{
    s.clone()
}

/// The string made of `cs[lo..hi]`.
pub fn string_from(cs: &Vec<char>, lo: usize, hi: usize) -> (r: String)
    requires
        lo <= hi <= cs.len(),
    ensures
        r@ == cs@.subrange(lo as int, hi as int),
{
    let mut r = String::new();
    let mut i = lo;
    while i < hi
        invariant
            lo <= i <= hi <= cs.len(),
            r@ == cs@.subrange(lo as int, i as int),
        decreases hi - i,
    {
        push_char(&mut r, cs[i]);
        assert(cs@.subrange(lo as int, i + 1) == cs@.subrange(lo as int, i as int).push(cs@[i as int]));
        i = i + 1;
    }
    r
}

/// The bounds of `trim(cs[lo..hi])` inside `cs`.
pub fn trim_bounds(cs: &Vec<char>, lo: usize, hi: usize) -> (r: (usize, usize))
    requires
        lo <= hi <= cs.len(),
    ensures
        lo <= r.0 <= r.1 <= hi,
        cs@.subrange(r.0 as int, r.1 as int) == trim(cs@.subrange(lo as int, hi as int)),
        cs@.subrange(r.0 as int, hi as int) == trim_start(cs@.subrange(lo as int, hi as int)),
{
    let mut a = lo;
    while a < hi && is_whitespace(cs[a])
        invariant
            lo <= a <= hi <= cs.len(),
            trim_start(cs@.subrange(a as int, hi as int)) == trim_start(
                cs@.subrange(lo as int, hi as int),
            ),
        decreases hi - a,
    {
        assert(cs@.subrange(a as int, hi as int).drop_first() == cs@.subrange(a + 1, hi as int));
        a = a + 1;
    }
    assert(trim_start(cs@.subrange(a as int, hi as int)) == cs@.subrange(a as int, hi as int));
    let mut b = hi;
    while b > a && is_whitespace(cs[b - 1])
        invariant
            lo <= a <= b <= hi <= cs.len(),
            trim_end(cs@.subrange(a as int, b as int)) == trim_end(
                cs@.subrange(a as int, hi as int),
            ),
        decreases b - a,
    {
        assert(cs@.subrange(a as int, b as int).drop_last() == cs@.subrange(a as int, b - 1));
        b = b - 1;
    }
    (a, b)
}

/// `s.trim().to_string()`.
pub fn trim_string(s: &str) -> (r: String)
    ensures
        r@ == trim(s@),
{
    let cs = chars_of(s);
    let (a, b) = trim_bounds(&cs, 0, cs.len());
    assert(cs@.subrange(0, cs@.len() as int) == cs@);
    string_from(&cs, a, b)
}

/// Ranges of the lines of `cs` (`str::lines`).
pub fn line_ranges(cs: &Vec<char>) -> (r: Vec<(usize, usize)>)
    ensures
        r@.len() == lines(cs@).len(),
        forall|k: int| 0 <= k < r@.len() ==> (#[trigger] r@[k]).0 <= r@[k].1 <= cs@.len(),
        forall|k: int|
            0 <= k < r@.len() ==> #[trigger] lines(cs@)[k] == cs@.subrange(
                r@[k].0 as int,
                r@[k].1 as int,
            ),
{
    let ghost s = cs@;
    let mut r: Vec<(usize, usize)> = Vec::new();
    let mut pos: usize = 0;
    let n = cs.len();
    assert(s.subrange(0, n as int) == s);
    while pos < n
        invariant
            n == cs.len(),
            s == cs@,
            pos <= n,
            r@.len() + lines(s.subrange(pos as int, n as int)).len() == lines(s).len(),
            forall|k: int| 0 <= k < r@.len() ==> (#[trigger] r@[k]).0 <= r@[k].1 <= n,
            forall|k: int|
                0 <= k < r@.len() ==> #[trigger] lines(s)[k] == s.subrange(
                    r@[k].0 as int,
                    r@[k].1 as int,
                ),
            forall|k: int|
                0 <= k < lines(s.subrange(pos as int, n as int)).len() ==> lines(s)[r@.len() + k]
                    == #[trigger] lines(s.subrange(pos as int, n as int))[k],
        decreases n - pos,
    {
        let ghost rest = s.subrange(pos as int, n as int);
        let ghost old_r = r@;
        let mut i = pos;
        while i < n && cs[i] != '\n'
            invariant
                pos <= i <= n,
                n == cs.len(),
                forall|j: int| pos <= j < i ==> cs@[j] != '\n',
            decreases n - i,
        {
            i = i + 1;
        }
        proof {
            lemma_first_index_is(rest, '\n', i - pos);
        }
        let next: usize;
        let end: usize;
        if i == n {
            end = n;
            next = n;
            assert(lines(rest) == seq![rest]);
        } else {
            end = if i > pos && cs[i - 1] == '\r' {
                i - 1
            } else {
                i
            };
            next = i + 1;
            assert(rest.subrange(0, i - pos) == s.subrange(pos as int, i as int));
            assert(rest.subrange(i - pos + 1, rest.len() as int) == s.subrange(i + 1, n as int));
            assert(strip_cr(s.subrange(pos as int, i as int)) == s.subrange(pos as int, end as int));
            assert(lines(rest) == seq![s.subrange(pos as int, end as int)] + lines(s.subrange(i + 1, n as int)));
        }
        let ghost tail = s.subrange(next as int, n as int);
        assert(lines(rest)[0] == s.subrange(pos as int, end as int));
        assert(lines(rest).len() == 1 + lines(tail).len()) by {
            if i == n {
                assert(tail.len() == 0);
            }
        }
        assert forall|k: int| 0 <= k < lines(tail).len() implies lines(rest)[k + 1] == #[trigger] lines(tail)[k] by {}
        let ghost old_pos = pos;
        assert(old_pos <= end <= n);
        r.push((pos, end));
        pos = next;
        assert(lines(s)[old_r.len() as int] == lines(rest)[0]);
        assert forall|k: int| 0 <= k < r@.len() implies (#[trigger] r@[k]).0 <= r@[k].1 <= n by {
            if k < old_r.len() {
                assert(r@[k] == old_r[k]);
            }
        }
        assert forall|k: int| 0 <= k < r@.len() implies #[trigger] lines(s)[k]
            == s.subrange(r@[k].0 as int, r@[k].1 as int) by {
            if k < old_r.len() {
                assert(r@[k] == old_r[k]);
            } else {
                assert(r@[k] == (old_pos, end));
            }
        }
        assert forall|k: int| 0 <= k < lines(tail).len() implies lines(s)[r@.len() + k]
            == #[trigger] lines(tail)[k] by {
            assert(lines(s)[old_r.len() + (k + 1)] == lines(rest)[k + 1]);
        }
    }
    assert(s.subrange(n as int, n as int).len() == 0);
    assert forall|k: int| 0 <= k < r@.len() implies #[trigger] lines(cs@)[k]
        == cs@.subrange(r@[k].0 as int, r@[k].1 as int) by {
        assert(lines(s)[k] == s.subrange(r@[k].0 as int, r@[k].1 as int));
    }
    r
}

/// Ranges of the whitespace-separated words of `cs[lo..hi]` (`str::split_whitespace`).
pub fn word_ranges(cs: &Vec<char>, lo: usize, hi: usize) -> (r: Vec<(usize, usize)>)
    requires
        lo <= hi <= cs.len(),
    ensures
        r@.len() == words(cs@.subrange(lo as int, hi as int)).len(),
        forall|k: int| 0 <= k < r@.len() ==> lo <= (#[trigger] r@[k]).0 <= r@[k].1 <= hi,
        forall|k: int|
            0 <= k < r@.len() ==> #[trigger] words(cs@.subrange(lo as int, hi as int))[k]
                == cs@.subrange(r@[k].0 as int, r@[k].1 as int),
{
    let ghost s = cs@.subrange(lo as int, hi as int);
    let mut r: Vec<(usize, usize)> = Vec::new();
    let mut pos: usize = lo;
    loop
        invariant
            lo <= pos <= hi <= cs.len(),
            s == cs@.subrange(lo as int, hi as int),
            r@.len() + words(cs@.subrange(pos as int, hi as int)).len() == words(s).len(),
            forall|k: int| 0 <= k < r@.len() ==> lo <= (#[trigger] r@[k]).0 <= r@[k].1 <= hi,
            forall|k: int|
                0 <= k < r@.len() ==> #[trigger] words(s)[k] == cs@.subrange(
                    r@[k].0 as int,
                    r@[k].1 as int,
                ),
            forall|k: int|
                0 <= k < words(cs@.subrange(pos as int, hi as int)).len() ==> words(s)[r@.len()
                    + k] == #[trigger] words(cs@.subrange(pos as int, hi as int))[k],
        decreases hi - pos,
    {
        let ghost rest = cs@.subrange(pos as int, hi as int);
        let ghost old_r = r@;
        let (a, _b) = trim_bounds(cs, pos, hi);
        let ghost t = cs@.subrange(a as int, hi as int);
        assert(t == trim_start(rest));
        if a == hi {
            assert(words(rest).len() == 0);
            assert forall|k: int| 0 <= k < r@.len() implies #[trigger] words(
                cs@.subrange(lo as int, hi as int))[k] == cs@.subrange(r@[k].0 as int, r@[k].1 as int) by {
                assert(words(s)[k] == cs@.subrange(r@[k].0 as int, r@[k].1 as int));
            }
            return r;
        }
        let mut e = a;
        while e < hi && !is_whitespace(cs[e])
            invariant
                a <= e <= hi <= cs.len(),
                forall|j: int| a <= j < e ==> !is_ws(cs@[j]),
            decreases hi - e,
        {
            e = e + 1;
        }
        let ghost tail = cs@.subrange(e as int, hi as int);
        proof {
            lemma_trim_start_len(rest);
            lemma_first_ws_is(t, e - a);
            assert(t.subrange(0, e - a) == cs@.subrange(a as int, e as int));
            assert(t.subrange(e - a, t.len() as int) == tail);
            assert(words(rest) == seq![cs@.subrange(a as int, e as int)] + words(tail));
        }
        assert forall|k: int| 0 <= k < words(tail).len() implies words(rest)[k + 1] == #[trigger] words(tail)[k] by {}
        assert(lo <= pos <= a <= e <= hi);
        r.push((a, e));
        pos = e;
        assert(words(s)[old_r.len() as int] == words(rest)[0]);
        assert forall|k: int| 0 <= k < r@.len() implies lo <= (#[trigger] r@[k]).0 <= r@[k].1 <= hi by {
            if k < old_r.len() {
                assert(r@[k] == old_r[k]);
            }
        }
        assert forall|k: int| 0 <= k < r@.len() implies #[trigger] words(s)[k]
            == cs@.subrange(r@[k].0 as int, r@[k].1 as int) by {
            if k < old_r.len() {
                assert(r@[k] == old_r[k]);
            } else {
                assert(r@[k] == (a, e));
            }
        }
        assert forall|k: int| 0 <= k < words(tail).len() implies words(s)[r@.len() + k]
            == #[trigger] words(tail)[k] by {
            assert(words(s)[old_r.len() + (k + 1)] == words(rest)[k + 1]);
        }
    }
}

/// Whether `cs[lo..hi]` starts with `p`.
pub fn range_starts_with(cs: &Vec<char>, lo: usize, hi: usize, p: &Vec<char>) -> (r: bool)
    requires
        lo <= hi <= cs.len(),
    ensures
        r == starts_with(cs@.subrange(lo as int, hi as int), p@),
{
    if p.len() > hi - lo {
        return false;
    }
    let mut i: usize = 0;
    while i < p.len()
        invariant
            p.len() <= hi - lo,
            lo <= hi <= cs.len(),
            i <= p.len(),
            forall|j: int| 0 <= j < i ==> cs@[lo + j] == p@[j],
        decreases p.len() - i,
    {
        if cs[lo + i] != p[i] {
            assert(cs@.subrange(lo as int, hi as int)[i as int] != p@[i as int]);
            return false;
        }
        i = i + 1;
    }
    assert(cs@.subrange(lo as int, hi as int).subrange(0, p@.len() as int) == p@);
    true
}

/// Whether `s` starts with `p` (`str::starts_with`).
pub fn str_starts_with(s: &str, p: &str) -> (r: bool)
    ensures
        r == starts_with(s@, p@),
{
    let cs = chars_of(s);
    let ps = chars_of(p);
    assert(cs@.subrange(0, cs@.len() as int) == cs@);
    range_starts_with(&cs, 0, cs.len(), &ps)
}

/// Whether two string slices hold the same characters.
pub fn str_eq(a: &str, b: &str) -> (r: bool)
    ensures
        r == (a@ == b@),
{
    let x = chars_of(a);
    let y = chars_of(b);
    if x.len() != y.len() {
        assert(x@.len() != y@.len());
        return false;
    }
    let mut i: usize = 0;
    while i < x.len()
        invariant
            x.len() == y.len(),
            x@ == a@,
            y@ == b@,
            i <= x.len(),
            forall|j: int| 0 <= j < i ==> x@[j] == y@[j],
        decreases x.len() - i,
    {
        if x[i] != y[i] {
            assert(x@[i as int] != y@[i as int]);
            return false;
        }
        i = i + 1;
    }
    assert(x@ == y@);
    true
}

/// Whether `cs` contains the character `c`.
pub fn has_char(cs: &Vec<char>, c: char) -> (r: bool)
    ensures
        r == cs@.contains(c),
{
    let mut i: usize = 0;
    while i < cs.len()
        invariant
            i <= cs.len(),
            forall|j: int| 0 <= j < i ==> cs@[j] != c,
        decreases cs.len() - i,
    {
        if cs[i] == c {
            return true;
        }
        i = i + 1;
    }
    false
}

/// Whether `s` contains `p` (`str::contains` with a string pattern).
pub fn str_contains(s: &str, p: &str) -> (r: bool)
    ensures
        r == contains_seq(s@, p@),
{
    let cs = chars_of(s);
    let ps = chars_of(p);
    if ps.len() > cs.len() {
        return false;
    }
    let limit = cs.len() - ps.len();
    let mut i: usize = 0;
    loop
        invariant
            ps.len() <= cs.len(),
            limit == cs.len() - ps.len(),
            i <= limit,
            cs@ == s@,
            ps@ == p@,
            forall|j: int| 0 <= j < i ==> #[trigger] cs@.subrange(j, j + ps@.len()) != ps@,
        ensures
            forall|j: int| 0 <= j <= limit ==> #[trigger] cs@.subrange(j, j + ps@.len()) != ps@,
        decreases limit - i,
    {
        assert(cs@.subrange(i as int, cs@.len() as int).subrange(0, ps@.len() as int)
            == cs@.subrange(i as int, i + ps@.len()));
        if range_starts_with(&cs, i, cs.len(), &ps) {
            return true;
        }
        if i == limit {
            break;
        }
        i = i + 1;
    }
    assert(!contains_seq(s@, p@)) by {
        if contains_seq(s@, p@) {
            let w = choose|w: int| 0 <= w <= s@.len() - p@.len() && #[trigger] s@.subrange(w, w + p@.len()) == p@;
            assert(cs@.subrange(w, w + ps@.len()) != ps@);
        }
    }
    false
}

/// The characters of `s` with ASCII letters lowered (`str::to_ascii_lowercase`).
pub fn ascii_lowercase(s: &str) -> (r: String)
    ensures
        r@ == ascii_lower(s@),
{
    let cs = chars_of(s);
    let mut r = String::new();
    let mut i: usize = 0;
    while i < cs.len()
        invariant
            i <= cs.len(),
            cs@ == s@,
            r@ == ascii_lower(cs@.subrange(0, i as int)),
        decreases cs.len() - i,
    {
        let c = cs[i];
        let l = if 'A' <= c && c <= 'Z' {
            char_from_u32_ascii((c as u32) + 32)
        } else {
            c
        };
        push_char(&mut r, l);
        assert(ascii_lower(cs@.subrange(0, i + 1)) == ascii_lower(cs@.subrange(0, i as int)).push(
            ascii_lower_char(cs@[i as int]),
        ));
        i = i + 1;
    }
    assert(cs@.subrange(0, cs@.len() as int) == cs@);
    r
}

/// The text with ASCII letters in upper case.
pub fn ascii_uppercase(s: &str) -> (r: String)
    ensures
        r@ == ascii_upper(s@),
{
    let cs = chars_of(s);
    let mut r = String::new();
    let mut i: usize = 0;
    while i < cs.len()
        invariant
            i <= cs.len(),
            cs@ == s@,
            r@ == ascii_upper(cs@.subrange(0, i as int)),
        decreases cs.len() - i,
    {
        let c = cs[i];
        let u = if 'a' <= c && c <= 'z' {
            char_from_u32_ascii((c as u32) - 32)
        } else {
            c
        };
        push_char(&mut r, u);
        assert(ascii_upper(cs@.subrange(0, i + 1)) == ascii_upper(cs@.subrange(0, i as int)).push(
            ascii_upper_char(cs@[i as int]),
        ));
        i = i + 1;
    }
    assert(cs@.subrange(0, cs@.len() as int) == cs@);
    r
}

/// The character with an ASCII code point.
fn char_from_u32_ascii(u: u32) -> (c: char)
    requires
        u < 128,
    ensures
        c as u32 == u,
{
    let b: u8 = u as u8;
    b as char
}

/// `[program] + args` joined by single spaces.
pub fn join_words(first: &str, rest: &Vec<String>) -> (r: String)
    ensures
        r@ == joined(seq![first@] + views(rest@), seq![' ']),
{
    let mut r = owned(first);
    let ghost parts0 = seq![first@];
    assert(joined(parts0, seq![' ']) == first@);
    let mut i: usize = 0;
    while i < rest.len()
        invariant
            i <= rest.len(),
            r@ == joined(seq![first@] + views(rest@.subrange(0, i as int)), seq![' ']),
        decreases rest.len() - i,
    {
        push_char(&mut r, ' ');
        push_str(&mut r, rest[i].as_str());
        let ghost before = seq![first@] + views(rest@.subrange(0, i as int));
        let ghost after = seq![first@] + views(rest@.subrange(0, i + 1));
        assert(after.drop_last() == before);
        assert(after.last() == rest@[i as int]@);
        i = i + 1;
    }
    assert(rest@.subrange(0, rest@.len() as int) == rest@);
    r
}

/// `parts` joined by single spaces.
pub fn join_spaced(parts: &[String]) -> (r: String)
    ensures
        r@ == joined(views(parts@), seq![' ']),
{
    let mut r = String::new();
    let mut i: usize = 0;
    while i < parts.len()
        invariant
            i <= parts.len(),
            r@ == joined(views(parts@.subrange(0, i as int)), seq![' ']),
        decreases parts.len() - i,
    {
        let ghost before = views(parts@.subrange(0, i as int));
        let ghost after = views(parts@.subrange(0, i + 1));
        assert(after.drop_last() == before);
        assert(after.last() == parts@[i as int]@);
        if i > 0 {
            push_char(&mut r, ' ');
        } else {
            assert(before.len() == 0);
            assert(after.len() == 1);
        }
        push_str(&mut r, parts[i].as_str());
        i = i + 1;
    }
    assert(parts@.subrange(0, parts@.len() as int) == parts@);
    r
}

/// The lines of `s` (`str::lines`), owned.
pub fn lines_of(s: &str) -> (r: Vec<String>)
    ensures
        views(r@) == lines(s@),
{
    let cs = chars_of(s);
    let ranges = line_ranges(&cs);
    let mut r: Vec<String> = Vec::new();
    let mut i: usize = 0;
    while i < ranges.len()
        invariant
            i <= ranges@.len(),
            cs@ == s@,
            ranges@.len() == lines(cs@).len(),
            forall|k: int| 0 <= k < ranges@.len() ==> (#[trigger] ranges@[k]).0 <= ranges@[k].1 <= cs@.len(),
            forall|k: int|
                0 <= k < ranges@.len() ==> #[trigger] lines(cs@)[k] == cs@.subrange(
                    ranges@[k].0 as int,
                    ranges@[k].1 as int,
                ),
            r@.len() == i,
            forall|k: int| 0 <= k < i ==> #[trigger] r@[k]@ == lines(cs@)[k],
        decreases ranges@.len() - i,
    {
        let (a, b) = ranges[i];
        assert(lines(cs@)[i as int] == cs@.subrange(a as int, b as int));
        r.push(string_from(&cs, a, b));
        i = i + 1;
    }
    assert(views(r@) =~= lines(s@));
    r
}

/// The whitespace-separated words of `s` (`str::split_whitespace`), owned.
pub fn words_of(s: &str) -> (r: Vec<String>)
    ensures
        views(r@) == words(s@),
{
    let cs = chars_of(s);
    let ranges = word_ranges(&cs, 0, cs.len());
    assert(cs@.subrange(0, cs@.len() as int) == cs@);
    let mut r: Vec<String> = Vec::new();
    let mut i: usize = 0;
    while i < ranges.len()
        invariant
            i <= ranges@.len(),
            cs@ == s@,
            cs@.subrange(0, cs@.len() as int) == cs@,
            ranges@.len() == words(cs@).len(),
            forall|k: int| 0 <= k < ranges@.len() ==> 0 <= (#[trigger] ranges@[k]).0 <= ranges@[k].1 <= cs@.len(),
            forall|k: int|
                0 <= k < ranges@.len() ==> #[trigger] words(cs@.subrange(0, cs@.len() as int))[k]
                    == cs@.subrange(ranges@[k].0 as int, ranges@[k].1 as int),
            r@.len() == i,
            forall|k: int| 0 <= k < i ==> #[trigger] r@[k]@ == words(cs@)[k],
        decreases ranges@.len() - i,
    {
        let (a, b) = ranges[i];
        assert(words(cs@.subrange(0, cs@.len() as int))[i as int] == cs@.subrange(a as int, b as int));
        r.push(string_from(&cs, a, b));
        i = i + 1;
    }
    assert(views(r@) =~= words(s@));
    r
}

/// Whether `s` begins with a whitespace character.
pub fn starts_with_ws(s: &str) -> (r: bool)
    ensures
        r == (s@.len() > 0 && is_ws(s@[0])),
{
    let cs = chars_of(s);
    cs.len() > 0 && is_whitespace(cs[0])
}

/// `s` with its last character removed when that character is `c`
/// (`str::strip_suffix` with a char).
pub fn strip_suffix_char(s: &str, c: char) -> (r: Option<String>)
    ensures
        match r {
            Some(t) => s@.len() > 0 && s@.last() == c && t@ == s@.drop_last(),
            None => !(s@.len() > 0 && s@.last() == c),
        },
{
    let cs = chars_of(s);
    if cs.len() > 0 && cs[cs.len() - 1] == c {
        assert(cs@.subrange(0, cs@.len() - 1) == cs@.drop_last());
        Some(string_from(&cs, 0, cs.len() - 1))
    } else {
        None
    }
}

/// `s` without the prefix `p`, when it has it (`str::strip_prefix`).
pub fn strip_prefix_str(s: &str, p: &str) -> (r: Option<String>)
    ensures
        opt_view(r) == strip_prefix(s@, p@),
{
    let cs = chars_of(s);
    let ps = chars_of(p);
    assert(cs@.subrange(0, cs@.len() as int) == cs@);
    if range_starts_with(&cs, 0, cs.len(), &ps) {
        Some(string_from(&cs, ps.len(), cs.len()))
    } else {
        None
    }
}

/// The number the decimal digits `s` spell.
pub open spec fn digits_value(s: Seq<char>) -> nat
    decreases s.len(),
{
    if s.len() == 0 {
        0
    } else {
        digits_value(s.drop_last()) * 10 + ((s.last() as u32) - ('0' as u32)) as nat
    }
}

pub open spec fn all_digits(s: Seq<char>) -> bool {
    forall|i: int| 0 <= i < s.len() ==> is_ascii_digit(#[trigger] s[i])
}

/// `str::parse::<u64>`: an optional `+`, then at least one decimal digit,
/// and a value that fits.
pub open spec fn parse_u64_spec(s: Seq<char>) -> Option<u64> {
    let d = if s.len() > 0 && s[0] == '+' {
        s.drop_first()
    } else {
        s
    };
    if d.len() > 0 && all_digits(d) && digits_value(d) <= u64::MAX {
        Some(digits_value(d) as u64)
    } else {
        None
    }
}

/// Parses a decimal `u64` as `str::parse` does.
pub fn parse_u64(s: &str) -> (r: Option<u64>)
    ensures
        r == parse_u64_spec(s@),
{
    let cs = chars_of(s);
    let start: usize = if cs.len() > 0 && cs[0] == '+' {
        1
    } else {
        0
    };
    let ghost d = if s@.len() > 0 && s@[0] == '+' {
        s@.drop_first()
    } else {
        s@
    };
    assert(d == cs@.subrange(start as int, cs@.len() as int));
    if start == cs.len() {
        return None;
    }
    let mut value: u64 = 0;
    let mut i: usize = start;
    while i < cs.len()
        invariant
            start <= i <= cs.len(),
            cs@ == s@,
            d == cs@.subrange(start as int, cs@.len() as int),
            d == (if s@.len() > 0 && s@[0] == '+' {
                s@.drop_first()
            } else {
                s@
            }),
            all_digits(cs@.subrange(start as int, i as int)),
            value as nat == digits_value(cs@.subrange(start as int, i as int)),
        decreases cs.len() - i,
    {
        let c = cs[i];
        assert(cs@.subrange(start as int, i + 1).drop_last() == cs@.subrange(start as int, i as int));
        assert(cs@.subrange(start as int, i + 1).last() == c);
        if !is_digit(c) {
            assert(d[i - start] == c);
            assert(!is_ascii_digit(d[i - start]));
            assert(!all_digits(d));
            return None;
        }
        let digit: u64 = ((c as u32) - ('0' as u32)) as u64;
        let next = match value.checked_mul(10) {
            Some(m) => m.checked_add(digit),
            None => None,
        };
        match next {
            Some(v) => {
                value = v;
            },
            None => {
                proof {
                    assert(digits_value(cs@.subrange(start as int, i + 1)) == value * 10 + digit);
                    assert(value * 10 + digit > u64::MAX);
                    assert(d.subrange(0, i - start + 1) == cs@.subrange(start as int, i + 1));
                    lemma_digits_value_prefix(d, (i - start + 1) as int);
                    assert(digits_value(d) > u64::MAX);
                }
                return None;
            },
        }
        i = i + 1;
    }
    assert(cs@.subrange(start as int, cs@.len() as int) == d);
    Some(value)
}

/// A decimal numeral of at least one digit whose value fits in `u64`.
pub open spec fn is_numeral(s: Seq<char>) -> bool {
    s.len() > 0 && all_digits(s) && digits_value(s) <= u64::MAX
}

/// A numeral parses to its value.
pub proof fn lemma_parse_numeral(s: Seq<char>)
    requires
        is_numeral(s),
    ensures
        parse_u64_spec(s) == Some(digits_value(s) as u64),
{
    assert(is_ascii_digit(s[0]));
}

/// Splitting `x`, then `c`, then `y` at `c`, where `x` holds no `c`, gives
/// `x` followed by the pieces of `y`.
pub proof fn lemma_split_on_concat(x: Seq<char>, y: Seq<char>, c: char)
    requires
        forall|i: int| 0 <= i < x.len() ==> x[i] != c,
    ensures
        split_on(x + seq![c] + y, c) == seq![x] + split_on(y, c),
{
    let s = x + seq![c] + y;
    assert forall|j: int| 0 <= j < x.len() implies s[j] != c by {
        assert(s[j] == x[j]);
    }
    assert(s[x.len() as int] == c);
    lemma_first_index_is(s, c, x.len() as int);
    assert(s.subrange(0, x.len() as int) =~= x);
    assert(s.subrange(x.len() as int + 1, s.len() as int) =~= y);
}

/// The first piece of `x + y` split at `c` is `x`, where `x` holds no `c`
/// and `y` is empty or starts with `c`.
pub proof fn lemma_split_first_piece(x: Seq<char>, y: Seq<char>, c: char)
    requires
        forall|i: int| 0 <= i < x.len() ==> x[i] != c,
        y.len() == 0 || y[0] == c,
    ensures
        split_on(x + y, c)[0] == x,
{
    let s = x + y;
    assert forall|j: int| 0 <= j < x.len() implies s[j] != c by {
        assert(s[j] == x[j]);
    }
    lemma_first_index_is(s, c, x.len() as int);
    if y.len() == 0 {
        assert(s =~= x);
    } else {
        assert(s.subrange(0, x.len() as int) =~= x);
    }
}

/// A nonempty run of characters none of which is whitespace.
pub open spec fn is_word(s: Seq<char>) -> bool {
    s.len() > 0 && forall|i: int| 0 <= i < s.len() ==> !is_ws(#[trigger] s[i])
}

/// A run of whitespace only.
pub open spec fn all_ws(s: Seq<char>) -> bool {
    forall|i: int| 0 <= i < s.len() ==> is_ws(#[trigger] s[i])
}

/// Leading whitespace `w` is trimmed off up to `x`.
pub proof fn lemma_trim_start_skips(w: Seq<char>, x: Seq<char>)
    requires
        all_ws(w),
        x.len() > 0 ==> !is_ws(x[0]),
    ensures
        trim_start(w + x) == x,
    decreases w.len(),
{
    if w.len() == 0 {
        assert(w + x =~= x);
        lemma_trim_start_fixed(x);
    } else {
        assert((w + x)[0] == w[0]);
        assert((w + x).drop_first() =~= w.drop_first() + x);
        assert(all_ws(w.drop_first())) by {
            assert forall|i: int| 0 <= i < w.drop_first().len() implies is_ws(#[trigger] w.drop_first()[i]) by {
                assert(w.drop_first()[i] == w[i + 1]);
            }
        }
        lemma_trim_start_skips(w.drop_first(), x);
    }
}

/// Trailing whitespace `w` is trimmed off after `x`.
pub proof fn lemma_trim_end_skips(x: Seq<char>, w: Seq<char>)
    requires
        all_ws(w),
        x.len() > 0 ==> !is_ws(x.last()),
    ensures
        trim_end(x + w) == x,
    decreases w.len(),
{
    if w.len() == 0 {
        assert(x + w =~= x);
        lemma_trim_end_fixed(x);
    } else {
        assert((x + w).last() == w.last());
        assert((x + w).drop_last() =~= x + w.drop_last());
        assert(all_ws(w.drop_last())) by {
            assert forall|i: int| 0 <= i < w.drop_last().len() implies is_ws(#[trigger] w.drop_last()[i]) by {
                assert(w.drop_last()[i] == w[i]);
            }
        }
        lemma_trim_end_skips(x, w.drop_last());
    }
}

/// A word is its own only word, whatever whitespace leads it.
pub proof fn lemma_words_of_word(lead: Seq<char>, x: Seq<char>)
    requires
        all_ws(lead),
        is_word(x),
    ensures
        words(lead + x) == seq![x],
{
    lemma_trim_start_skips(lead, x);
    lemma_first_ws_is(x, x.len() as int);
    assert(x.subrange(0, x.len() as int) =~= x);
    let e = x.subrange(x.len() as int, x.len() as int);
    assert(e =~= Seq::<char>::empty());
    assert(trim_start(e) =~= Seq::<char>::empty());
    assert(words(e) =~= Seq::<Seq<char>>::empty());
    assert(seq![x] + words(e) =~= seq![x]);
}

/// The words of a word `x`, whitespace `gap`, then `rest` (which starts
/// with no whitespace) are `x` followed by the words of `rest`.
pub proof fn lemma_words_of_first(x: Seq<char>, gap: Seq<char>, rest: Seq<char>)
    requires
        is_word(x),
        all_ws(gap),
        gap.len() > 0,
        rest.len() > 0 ==> !is_ws(rest[0]),
    ensures
        words(x + gap + rest) == seq![x] + words(rest),
{
    let s = x + gap + rest;
    assert(s[0] == x[0]);
    lemma_trim_start_fixed(s);
    assert forall|j: int| 0 <= j < x.len() implies !is_ws(s[j]) by {
        assert(s[j] == x[j]);
    }
    assert(s[x.len() as int] == gap[0]);
    lemma_first_ws_is(s, x.len() as int);
    assert(s.subrange(0, x.len() as int) =~= x);
    let after = s.subrange(x.len() as int, s.len() as int);
    assert(after =~= gap + rest);
    lemma_trim_start_skips(gap, rest);
    lemma_trim_start_fixed(rest);
    if rest.len() > 0 {
        assert(words(after) == words(rest));
    } else {
        assert(words(after) =~= Seq::<Seq<char>>::empty());
        assert(words(rest) =~= Seq::<Seq<char>>::empty());
    }
}

/// Two words apart: the words of `x`, whitespace `gap` and `y` are `x` and
/// `y`.
pub proof fn lemma_words_of_two(x: Seq<char>, gap: Seq<char>, y: Seq<char>)
    requires
        is_word(x),
        all_ws(gap),
        gap.len() > 0,
        is_word(y),
    ensures
        words(x + gap + y) == seq![x, y],
{
    let s = x + gap + y;
    assert(s[0] == x[0]);
    lemma_trim_start_fixed(s);
    assert forall|j: int| 0 <= j < x.len() implies !is_ws(s[j]) by {
        assert(s[j] == x[j]);
    }
    assert(s[x.len() as int] == gap[0]);
    lemma_first_ws_is(s, x.len() as int);
    assert(s.subrange(0, x.len() as int) =~= x);
    assert(s.subrange(x.len() as int, s.len() as int) =~= gap + y);
    lemma_words_of_word(gap, y);
    assert(seq![x] + seq![y] =~= seq![x, y]);
}

/// A longer run of digits is worth at least as much as its prefix.
pub proof fn lemma_digits_value_prefix(s: Seq<char>, k: int)
    requires
        0 <= k <= s.len(),
    ensures
        digits_value(s.subrange(0, k)) <= digits_value(s),
    decreases s.len() - k,
{
    if k < s.len() {
        lemma_digits_value_prefix(s, k + 1);
        let t = s.subrange(0, k + 1);
        assert(t.drop_last() == s.subrange(0, k));
    } else {
        assert(s.subrange(0, k) == s);
    }
}

} // verus!

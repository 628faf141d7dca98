//! Shared pieces of every manager scan: package rows, signals, the stable
//! ordering by name, tilde expansion and the snapshot status rule.
use crate::path::{join, join_path};
use crate::text::{chars_of, last_index, lemma_last_index_is, owned, string_from, trim_string};
use crate::types::{
    CommandEnvelope, FailureKind, ManagerId, ManagerSnapshot, ManagerStatus, PackageKind,
    PackageRow, PackageSignal,
};
use vstd::prelude::*;

verus! {

/// `split_package_version`: `name@version` split at the last `@`, when that
/// `@` is neither the first nor the last character.
pub open spec fn package_version_split(raw: Seq<char>) -> (Seq<char>, Seq<char>) {
    let i = last_index(raw, '@');
    if i > 0 && i + 1 < raw.len() {
        (raw.subrange(0, i), raw.subrange(i + 1, raw.len() as int))
    } else {
        (raw, unknown_text())
    }
}

pub open spec fn unknown_text() -> Seq<char> {
    seq!['u', 'n', 'k', 'n', 'o', 'w', 'n']
}

/// The text `"unknown"`.
pub fn unknown() -> (r: String)
    ensures
        r@ == unknown_text(),
{
    proof {
        reveal_strlit("unknown");
    }
    owned("unknown")
}

/// Splits `name@version` at the last `@`; a raw value without a usable `@`
/// is all name, with the version `"unknown"`.
pub fn split_package_version(raw: &str) -> (r: (String, String))
    ensures
        (r.0@, r.1@) == package_version_split(raw@),
{
    let cs = chars_of(raw);
    let mut i = cs.len();
    while i > 0 && cs[i - 1] != '@'
        invariant
            i <= cs.len(),
            cs@ == raw@,
            forall|j: int| i <= j < cs.len() ==> cs@[j] != '@',
        decreases i,
    {
        i = i - 1;
    }
    let found = i > 0;
    proof {
        if found {
            lemma_last_index_is(cs@, '@', (i - 1) as int);
        } else {
            lemma_last_index_is(cs@, '@', -1);
        }
    }
    if found && i - 1 > 0 && i < cs.len() {
        (string_from(&cs, 0, i - 1), string_from(&cs, i, cs.len()))
    } else {
        assert(cs@.subrange(0, cs@.len() as int) == cs@);
        (string_from(&cs, 0, cs.len()), unknown())
    }
}

/// A package row with no signals and no actions.
pub fn package_row(
    name: String,
    version: String,
    path: Option<String>,
    source: &str,
    kind: PackageKind,
) -> (r: PackageRow)
    ensures
        r.name == name,
        r.version == version,
        r.path == path,
        r.source@ == source@,
        r.kind == kind,
        r.signals@.len() == 0,
        r.actions@.len() == 0,
{
    PackageRow {
        name,
        version,
        path,
        source: owned(source),
        kind,
        signals: Vec::new(),
        actions: Vec::new(),
    }
}

/// Whether a signal is in a list.
pub fn has_signal(signals: &Vec<PackageSignal>, signal: PackageSignal) -> (r: bool)
    ensures
        r == signals@.contains(signal),
{
    let mut i: usize = 0;
    while i < signals.len()
        invariant
            i <= signals.len(),
            forall|j: int| 0 <= j < i ==> signals@[j] != signal,
        decreases signals.len() - i,
    {
        if signals[i] == signal {
            return true;
        }
        i = i + 1;
    }
    false
}

/// The signals after adding `signal` once.
pub open spec fn with_signal(signals: Seq<PackageSignal>, signal: PackageSignal) -> Seq<PackageSignal> {
    if signals.contains(signal) {
        signals
    } else {
        signals.push(signal)
    }
}

/// Adds `signal` to the row unless it is there already.
pub fn push_signal(package: &mut PackageRow, signal: PackageSignal)
    ensures
        final(package).signals@ == with_signal(old(package).signals@, signal),
        final(package).name == old(package).name,
        final(package).version == old(package).version,
        final(package).path == old(package).path,
        final(package).source == old(package).source,
        final(package).kind == old(package).kind,
        final(package).actions == old(package).actions,
{
    if !has_signal(&package.signals, signal) {
        package.signals.push(signal);
    }
}

/// `expand_tilde`: `~` is the home directory and `~/rest` lies under it,
/// when the home is known; any other value is taken as it is.
pub open spec fn tilde_expansion(value: Seq<char>, home: Option<Seq<char>>) -> Seq<char> {
    match home {
        Some(h) => if value == seq!['~'] {
            h
        } else if crate::text::starts_with(value, seq!['~', '/']) {
            join_path(h, value.subrange(2, value.len() as int))
        } else {
            value
        },
        None => value,
    }
}

/// Expands a leading `~` against the home directory.
pub fn expand_tilde(value: &str, home: Option<&str>) -> (r: String)
    ensures
        r@ == tilde_expansion(
            value@,
            match home {
                Some(h) => Some(h@),
                None => None,
            },
        ),
{
    let cs = chars_of(value);
    match home {
        Some(h) => {
            if cs.len() == 1 && cs[0] == '~' {
                assert(value@ == seq!['~']);
                return owned(h);
            }
            if cs.len() >= 2 && cs[0] == '~' && cs[1] == '/' {
                assert(crate::text::starts_with(value@, seq!['~', '/'])) by {
                    assert(value@.subrange(0, 2) =~= seq!['~', '/']);
                }
                let rest = string_from(&cs, 2, cs.len());
                return join(h, rest.as_str());
            }
            assert(value@ != seq!['~']) by {
                if value@ == seq!['~'] {
                    assert(cs@.len() == 1 && cs@[0] == '~');
                }
            }
            assert(!crate::text::starts_with(value@, seq!['~', '/'])) by {
                if crate::text::starts_with(value@, seq!['~', '/']) {
                    assert(value@.subrange(0, 2)[0] == '~');
                    assert(value@.subrange(0, 2)[1] == '/');
                }
            }
            owned(value)
        },
        None => owned(value),
    }
}

/// Whether a failure kind says the manager itself is absent.
pub open spec fn is_missing_kind(kind: FailureKind) -> bool {
    kind == FailureKind::MissingBinary || kind == FailureKind::MissingPath
}

/// The status rule of every scan. An unsupported manager stays unsupported;
/// a manager whose version is unknown and whose binary or directory is
/// missing is missing; otherwise a scan that found anything is ready or, with
/// failures, partial; one that found nothing is ready without failures and
/// failed with them.
pub open spec fn finished_status(s: ManagerSnapshot) -> ManagerStatus {
    if s.status == ManagerStatus::Unsupported {
        ManagerStatus::Unsupported
    } else if s.version is None && exists|i: int|
        0 <= i < s.failures@.len() && is_missing_kind(#[trigger] s.failures@[i].kind) {
        ManagerStatus::Missing
    } else if s.packages@.len() > 0 || s.paths@.len() > 0 {
        if s.failures@.len() == 0 {
            ManagerStatus::Ready
        } else {
            ManagerStatus::Partial
        }
    } else if s.failures@.len() == 0 {
        ManagerStatus::Ready
    } else {
        ManagerStatus::Failed
    }
}

/// Everything in two snapshots but their status.
pub open spec fn same_but_status(a: ManagerSnapshot, b: ManagerSnapshot) -> bool {
    &&& a.id == b.id
    &&& a.label == b.label
    &&& a.version == b.version
    &&& a.packages == b.packages
    &&& a.paths == b.paths
    &&& a.commands == b.commands
    &&& a.failures == b.failures
    &&& a.unsupported_reason == b.unsupported_reason
    &&& a.homebrew == b.homebrew
    &&& a.maven == b.maven
    &&& a.pip == b.pip
    &&& a.docker == b.docker
}

/// Sets the snapshot's status by the status rule.
pub fn finish(snapshot: ManagerSnapshot) -> (r: ManagerSnapshot)
    ensures
        r.status == finished_status(snapshot),
        same_but_status(r, snapshot),
{
    let mut snapshot = snapshot;
    let ghost orig = snapshot;
    if snapshot.status == ManagerStatus::Unsupported {
        return snapshot;
    }
    let mut missing = false;
    if snapshot.version.is_none() {
        let mut i: usize = 0;
        while i < snapshot.failures.len() && !(snapshot.failures[i].kind == FailureKind::MissingBinary
            || snapshot.failures[i].kind == FailureKind::MissingPath)
            invariant
                i <= snapshot.failures.len(),
                snapshot == orig,
                forall|j: int| 0 <= j < i ==> !is_missing_kind(#[trigger] snapshot.failures@[j].kind),
            decreases snapshot.failures.len() - i,
        {
            i = i + 1;
        }
        missing = i < snapshot.failures.len();
        if missing {
            assert(is_missing_kind(orig.failures@[i as int].kind));
        }
    }
    let status = if missing {
        ManagerStatus::Missing
    } else if snapshot.packages.len() > 0 || snapshot.paths.len() > 0 {
        if snapshot.failures.len() == 0 {
            ManagerStatus::Ready
        } else {
            ManagerStatus::Partial
        }
    } else if snapshot.failures.len() == 0 {
        ManagerStatus::Ready
    } else {
        ManagerStatus::Failed
    };
    snapshot.status = status;
    snapshot
}

/// A snapshot of `id` that has observed nothing yet; its status is failed
/// until `finish` decides it.
pub fn empty_snapshot(id: ManagerId, label: &str) -> (r: ManagerSnapshot)
    ensures
        r.id == id,
        r.label@ == label@,
        r.status == ManagerStatus::Failed,
        r.version is None,
        r.packages@.len() == 0,
        r.paths@.len() == 0,
        r.commands@.len() == 0,
        r.failures@.len() == 0,
        r.unsupported_reason is None,
        r.homebrew is None,
        r.maven is None,
        r.pip is None,
        r.docker is None,
{
    ManagerSnapshot {
        id,
        label: owned(label),
        status: ManagerStatus::Failed,
        version: None,
        packages: Vec::new(),
        paths: Vec::new(),
        commands: Vec::new(),
        failures: Vec::new(),
        unsupported_reason: None,
        homebrew: None,
        maven: None,
        pip: None,
        docker: None,
    }
}

/// The value with surrounding whitespace removed.
pub fn trimmed(value: String) -> (r: String)
    ensures
        r@ == crate::text::trim(value@),
{
    trim_string(value.as_str())
}

/// Code-point order on strings, which is the order of `str` (the byte order
/// of UTF-8 agrees with it): is `a` at most `b`?
pub open spec fn text_le(a: Seq<char>, b: Seq<char>) -> bool
    decreases a.len(),
{
    if a.len() == 0 {
        true
    } else if b.len() == 0 {
        false
    } else if (a[0] as u32) < (b[0] as u32) {
        true
    } else if (a[0] as u32) > (b[0] as u32) {
        false
    } else {
        text_le(a.drop_first(), b.drop_first())
    }
}

/// `a <= b` in the order of `str`.
pub fn str_le(a: &str, b: &str) -> (r: bool)
    ensures
        r == text_le(a@, b@),
{
    let x = chars_of(a);
    let y = chars_of(b);
    let mut i: usize = 0;
    assert(x@.subrange(0, x@.len() as int) == x@);
    assert(y@.subrange(0, y@.len() as int) == y@);
    while i < x.len() && i < y.len()
        invariant
            i <= x.len(),
            i <= y.len(),
            x@ == a@,
            y@ == b@,
            text_le(x@, y@) == text_le(x@.subrange(i as int, x@.len() as int), y@.subrange(i as int, y@.len() as int)),
        decreases x.len() - i,
    {
        let ghost xs = x@.subrange(i as int, x@.len() as int);
        let ghost ys = y@.subrange(i as int, y@.len() as int);
        assert(xs.drop_first() == x@.subrange(i + 1, x@.len() as int));
        assert(ys.drop_first() == y@.subrange(i + 1, y@.len() as int));
        assert(xs[0] == x@[i as int]);
        assert(ys[0] == y@[i as int]);
        if (x[i] as u32) < (y[i] as u32) {
            return true;
        }
        if (x[i] as u32) > (y[i] as u32) {
            return false;
        }
        i = i + 1;
    }
    let ghost xs = x@.subrange(i as int, x@.len() as int);
    let ghost ys = y@.subrange(i as int, y@.len() as int);
    assert(x.len() == i ==> xs.len() == 0);
    assert(x.len() != i ==> ys.len() == 0 && xs.len() > 0);
    x.len() == i
}

/// Characters with one code are one character.
pub proof fn lemma_char_code_injective(x: char, y: char)
    requires
        (x as u32) == (y as u32),
    ensures
        x == y,
{
}

/// Any two texts are ordered one way or the other.
pub proof fn lemma_text_le_total(a: Seq<char>, b: Seq<char>)
    ensures
        text_le(a, b) || text_le(b, a),
    decreases a.len(),
{
    if a.len() > 0 && b.len() > 0 && (a[0] as u32) == (b[0] as u32) {
        lemma_text_le_total(a.drop_first(), b.drop_first());
    }
}

/// Texts ordered both ways are equal.
pub proof fn lemma_text_le_antisymmetric(a: Seq<char>, b: Seq<char>)
    requires
        text_le(a, b),
        text_le(b, a),
    ensures
        a == b,
    decreases a.len(),
{
    if a.len() > 0 && b.len() > 0 {
        lemma_text_le_antisymmetric(a.drop_first(), b.drop_first());
        lemma_char_code_injective(a[0], b[0]);
        assert(a =~= seq![a[0]] + a.drop_first());
        assert(b =~= seq![b[0]] + b.drop_first());
    }
}

/// The order of texts is transitive.
pub proof fn lemma_text_le_transitive(a: Seq<char>, b: Seq<char>, c: Seq<char>)
    requires
        text_le(a, b),
        text_le(b, c),
    ensures
        text_le(a, c),
    decreases a.len(),
{
    if a.len() > 0 && b.len() > 0 && c.len() > 0 && (a[0] as u32) == (b[0] as u32) && (b[0] as u32)
        == (c[0] as u32) {
        lemma_text_le_transitive(a.drop_first(), b.drop_first(), c.drop_first());
    }
}

/// Every text is at most itself.
pub proof fn lemma_text_le_reflexive(a: Seq<char>)
    ensures
        text_le(a, a),
    decreases a.len(),
{
    if a.len() > 0 {
        lemma_text_le_reflexive(a.drop_first());
    }
}

/// Where `x` goes in rows sorted by name: after every row whose name is at
/// most its own, which keeps rows of equal names in their first order.
pub open spec fn insert_position(s: Seq<PackageRow>, x: PackageRow) -> int
    decreases s.len(),
{
    if s.len() == 0 {
        0
    } else if text_le(s[0].name@, x.name@) {
        1 + insert_position(s.drop_first(), x)
    } else {
        0
    }
}

pub open spec fn insert_sorted(s: Seq<PackageRow>, x: PackageRow) -> Seq<PackageRow> {
    s.insert(insert_position(s, x), x)
}

/// The rows stably sorted by name (`sort_by` on `a.name.cmp(&b.name)`).
pub open spec fn sorted_by_name(s: Seq<PackageRow>) -> Seq<PackageRow>
    decreases s.len(),
{
    if s.len() == 0 {
        seq![]
    } else {
        insert_sorted(sorted_by_name(s.drop_last()), s.last())
    }
}

pub proof fn lemma_insert_position_bounds(s: Seq<PackageRow>, x: PackageRow)
    ensures
        0 <= insert_position(s, x) <= s.len(),
    decreases s.len(),
{
    if s.len() > 0 && text_le(s[0].name@, x.name@) {
        lemma_insert_position_bounds(s.drop_first(), x);
    }
}

pub proof fn lemma_sorted_len(s: Seq<PackageRow>)
    ensures
        sorted_by_name(s).len() == s.len(),
    decreases s.len(),
{
    if s.len() > 0 {
        lemma_sorted_len(s.drop_last());
        lemma_insert_position_bounds(sorted_by_name(s.drop_last()), s.last());
    }
}

/// Sorts rows by name, stably.
pub fn sort_rows_by_name(rows: Vec<PackageRow>) -> (r: Vec<PackageRow>)
    ensures
        r@ == sorted_by_name(rows@),
{
    let mut input = rows;
    let ghost all = input@;
    let mut out: Vec<PackageRow> = Vec::new();
    // Rows are taken from the front; `sorted_by_name` consumes from the back, so
    // the consumed prefix is tracked through its reversal.
    let n = input.len();
    let mut i: usize = 0;
    let mut rest: Vec<PackageRow> = Vec::new();
    // Reverse into `rest` so that popping yields the rows in their first order.
    while input.len() > 0
        invariant
            rest@ + input@.reverse() == all.reverse(),
            input@.len() + rest@.len() == all.len(),
        decreases input.len(),
    {
        let row = input.pop().unwrap();
        let ghost before = rest@;
        rest.push(row);
        assert(rest@ + input@.reverse() =~= before + (input@.push(row)).reverse());
    }
    assert(rest@ =~= all.reverse());
    while rest.len() > 0
        invariant
            i <= n,
            n == all.len(),
            rest@.len() + i == n,
            forall|k: int| 0 <= k < rest@.len() ==> #[trigger] rest@[k] == all[n - 1 - k],
            out@ == sorted_by_name(all.subrange(0, i as int)),
        decreases rest.len(),
    {
        let x = rest.pop().unwrap();
        assert(x == all[i as int]);
        let mut p: usize = 0;
        let ghost prev = out@;
        proof {
            lemma_sorted_len(all.subrange(0, i as int));
            lemma_insert_position_bounds(prev, x);
            assert(prev.subrange(0, prev.len() as int) == prev);
        }
        while p < out.len() && str_le(out[p].name.as_str(), x.name.as_str())
            invariant
                p <= out.len(),
                out@ == prev,
                insert_position(prev, x) == p + insert_position(prev.subrange(p as int, prev.len() as int), x),
            decreases out.len() - p,
        {
            assert(prev.subrange(p as int, prev.len() as int).drop_first() == prev.subrange(p + 1, prev.len() as int));
            p = p + 1;
        }
        assert(insert_position(prev.subrange(p as int, prev.len() as int), x) == 0);
        out.insert(p, x);
        assert(all.subrange(0, i + 1).drop_last() == all.subrange(0, i as int));
        assert(all.subrange(0, i + 1).last() == x);
        i = i + 1;
    }
    assert(all.subrange(0, n as int) == all);
    out
}

/// Sorting by name keeps every row: what holds of each row holds of each row
/// of the sorted list.
pub proof fn lemma_sorted_all(s: Seq<PackageRow>, p: spec_fn(PackageRow) -> bool)
    requires
        forall|i: int| 0 <= i < s.len() ==> p(#[trigger] s[i]),
    ensures
        forall|i: int| 0 <= i < sorted_by_name(s).len() ==> p(#[trigger] sorted_by_name(s)[i]),
    decreases s.len(),
{
    if s.len() > 0 {
        assert forall|i: int| 0 <= i < s.drop_last().len() implies p(#[trigger] s.drop_last()[i]) by {
            assert(s.drop_last()[i] == s[i]);
        }
        lemma_sorted_all(s.drop_last(), p);
        let t = sorted_by_name(s.drop_last());
        let x = s.last();
        lemma_insert_position_bounds(t, x);
        let pos = insert_position(t, x);
        assert(p(s[s.len() - 1]));
        assert forall|i: int| 0 <= i < t.insert(pos, x).len() implies p(#[trigger] t.insert(pos, x)[i]) by {
            if i < pos {
                assert(t.insert(pos, x)[i] == t[i]);
            } else if i > pos {
                assert(t.insert(pos, x)[i] == t[i - 1]);
            }
        }
    }
}

/// Whether `list` holds the text `item`.
pub fn contains_text(list: &Vec<String>, item: &str) -> (r: bool)
    ensures
        r == crate::text::views(list@).contains(item@),
{
    let mut i: usize = 0;
    while i < list.len()
        invariant
            i <= list@.len(),
            forall|j: int| 0 <= j < i ==> list@[j]@ != item@,
        decreases list@.len() - i,
    {
        if crate::text::str_eq(list[i].as_str(), item) {
            assert(crate::text::views(list@)[i as int] == item@);
            return true;
        }
        i = i + 1;
    }
    assert(!crate::text::views(list@).contains(item@)) by {
        if crate::text::views(list@).contains(item@) {
            let j = choose|j: int| 0 <= j < list@.len() && crate::text::views(list@)[j] == item@;
            assert(list@[j]@ == item@);
        }
    }
    false
}

/// The texts without repetitions, each kept where it first occurs (what a
/// set of them holds).
pub open spec fn dedup_texts(s: Seq<Seq<char>>) -> Seq<Seq<char>>
    decreases s.len(),
{
    if s.len() == 0 {
        seq![]
    } else {
        let prior = dedup_texts(s.drop_last());
        if prior.contains(s.last()) {
            prior
        } else {
            prior.push(s.last())
        }
    }
}

/// Adds `item` unless it is there already.
pub fn insert_text(list: &mut Vec<String>, item: String)
    ensures
        crate::text::views(final(list)@) == if crate::text::views(old(list)@).contains(item@) {
            crate::text::views(old(list)@)
        } else {
            crate::text::views(old(list)@).push(item@)
        },
{
    if !contains_text(list, item.as_str()) {
        let ghost before = crate::text::views(list@);
        list.push(item);
        assert(crate::text::views(list@) =~= before.push(list@.last()@));
    }
}

/// Where `x` goes among sorted texts: after every text at most `x`.
pub open spec fn text_position(s: Seq<Seq<char>>, x: Seq<char>) -> int
    decreases s.len(),
{
    if s.len() == 0 {
        0
    } else if text_le(s[0], x) {
        1 + text_position(s.drop_first(), x)
    } else {
        0
    }
}

/// The texts sorted in the order of `str` (stable).
pub open spec fn sorted_texts(s: Seq<Seq<char>>) -> Seq<Seq<char>>
    decreases s.len(),
{
    if s.len() == 0 {
        seq![]
    } else {
        let t = sorted_texts(s.drop_last());
        t.insert(text_position(t, s.last()), s.last())
    }
}

pub proof fn lemma_text_position_bounds(s: Seq<Seq<char>>, x: Seq<char>)
    ensures
        0 <= text_position(s, x) <= s.len(),
    decreases s.len(),
{
    if s.len() > 0 && text_le(s[0], x) {
        lemma_text_position_bounds(s.drop_first(), x);
    }
}

pub proof fn lemma_sorted_texts_len(s: Seq<Seq<char>>)
    ensures
        sorted_texts(s).len() == s.len(),
    decreases s.len(),
{
    if s.len() > 0 {
        lemma_sorted_texts_len(s.drop_last());
        lemma_text_position_bounds(sorted_texts(s.drop_last()), s.last());
    }
}

/// Sorting keeps exactly the texts there were.
pub proof fn lemma_sorted_texts_contains(s: Seq<Seq<char>>, x: Seq<char>)
    ensures
        sorted_texts(s).contains(x) == s.contains(x),
    decreases s.len(),
{
    if s.len() > 0 {
        let t = sorted_texts(s.drop_last());
        lemma_sorted_texts_contains(s.drop_last(), x);
        lemma_text_position_bounds(t, s.last());
        let p = text_position(t, s.last());
        let u = t.insert(p, s.last());
        if u.contains(x) {
            let j = choose|j: int| 0 <= j < u.len() && u[j] == x;
            if j < p {
                assert(t[j] == x);
            } else if j > p {
                assert(t[j - 1] == x);
            } else {
                assert(s[s.len() - 1] == x);
            }
            if x != s.last() {
                let m = choose|m: int| 0 <= m < t.len() && t[m] == x;
                assert(s.drop_last().contains(x));
                let q = choose|q: int| 0 <= q < s.drop_last().len() && s.drop_last()[q] == x;
                assert(s[q] == x);
            }
        }
        if s.contains(x) {
            let j = choose|j: int| 0 <= j < s.len() && s[j] == x;
            if j == s.len() - 1 {
                assert(u[p] == x);
            } else {
                assert(s.drop_last()[j] == x);
                let m = choose|m: int| 0 <= m < t.len() && t[m] == x;
                if m < p {
                    assert(u[m] == x);
                } else {
                    assert(u[m + 1] == x);
                }
            }
        }
    }
}

/// Without repetitions, the same texts are there.
pub proof fn lemma_dedup_texts_contains(s: Seq<Seq<char>>, x: Seq<char>)
    ensures
        dedup_texts(s).contains(x) == s.contains(x),
    decreases s.len(),
{
    if s.len() > 0 {
        lemma_dedup_texts_contains(s.drop_last(), x);
        let prior = dedup_texts(s.drop_last());
        if s.contains(x) {
            let j = choose|j: int| 0 <= j < s.len() && s[j] == x;
            if j < s.len() - 1 {
                assert(s.drop_last()[j] == x);
            } else if !prior.contains(s.last()) {
                assert(prior.push(s.last())[prior.len() as int] == x);
            }
        }
        if dedup_texts(s).contains(x) && !prior.contains(x) {
            let j = choose|j: int| 0 <= j < dedup_texts(s).len() && dedup_texts(s)[j] == x;
            assert(s[s.len() - 1] == x);
        }
        if prior.contains(x) {
            let m = choose|m: int| 0 <= m < prior.len() && prior[m] == x;
            if !prior.contains(s.last()) {
                assert(prior.push(s.last())[m] == x);
            }
            let q = choose|q: int| 0 <= q < s.drop_last().len() && s.drop_last()[q] == x;
            assert(s[q] == x);
        }
    }
}

/// Puts `x` into sorted texts where it belongs: after every text at most it.
pub fn insert_text_sorted(list: &mut Vec<String>, x: String)
    ensures
        crate::text::views(final(list)@) == crate::text::views(old(list)@).insert(
            text_position(crate::text::views(old(list)@), x@),
            x@,
        ),
{
    let ghost prev = crate::text::views(list@);
    proof {
        lemma_text_position_bounds(prev, x@);
        assert(prev.subrange(0, prev.len() as int) == prev);
    }
    let mut p: usize = 0;
    while p < list.len() && str_le(list[p].as_str(), x.as_str())
        invariant
            p <= list@.len(),
            crate::text::views(list@) == prev,
            text_position(prev, x@) == p + text_position(prev.subrange(p as int, prev.len() as int), x@),
        decreases list@.len() - p,
    {
        assert(prev.subrange(p as int, prev.len() as int).drop_first() == prev.subrange(p + 1, prev.len() as int));
        assert(prev.subrange(p as int, prev.len() as int)[0] == prev[p as int]);
        p = p + 1;
    }
    if p < list.len() {
        assert(prev.subrange(p as int, prev.len() as int)[0] == prev[p as int]);
    }
    assert(text_position(prev.subrange(p as int, prev.len() as int), x@) == 0);
    list.insert(p, x);
    assert(crate::text::views(list@) =~= prev.insert(p as int, x@));
}

/// Sorts texts in the order of `str`.
pub fn sort_texts(list: Vec<String>) -> (r: Vec<String>)
    ensures
        crate::text::views(r@) == sorted_texts(crate::text::views(list@)),
{
    let ghost all = crate::text::views(list@);
    let n = list.len();
    let mut out: Vec<String> = Vec::new();
    let mut i: usize = 0;
    assert(all.subrange(0, 0) =~= Seq::<Seq<char>>::empty());
    while i < n
        invariant
            i <= n,
            n == list@.len(),
            all == crate::text::views(list@),
            crate::text::views(out@) == sorted_texts(all.subrange(0, i as int)),
        decreases n - i,
    {
        let x = list[i].clone();
        let ghost prev = crate::text::views(out@);
        proof {
            lemma_sorted_texts_len(all.subrange(0, i as int));
            lemma_text_position_bounds(prev, x@);
            assert(prev.subrange(0, prev.len() as int) == prev);
        }
        let mut p: usize = 0;
        while p < out.len() && str_le(out[p].as_str(), x.as_str())
            invariant
                p <= out@.len(),
                crate::text::views(out@) == prev,
                text_position(prev, x@) == p + text_position(prev.subrange(p as int, prev.len() as int), x@),
            decreases out@.len() - p,
        {
            assert(prev.subrange(p as int, prev.len() as int).drop_first() == prev.subrange(p + 1, prev.len() as int));
            assert(prev.subrange(p as int, prev.len() as int)[0] == prev[p as int]);
            p = p + 1;
        }
        if p < out.len() {
            assert(prev.subrange(p as int, prev.len() as int)[0] == prev[p as int]);
        }
        assert(text_position(prev.subrange(p as int, prev.len() as int), x@) == 0);
        out.insert(p, x);
        assert(crate::text::views(out@) =~= prev.insert(p as int, x@));
        assert(all.subrange(0, i + 1).drop_last() == all.subrange(0, i as int));
        assert(all.subrange(0, i + 1).last() == x@);
        i = i + 1;
    }
    assert(all.subrange(0, n as int) == all);
    out
}

} // verus!

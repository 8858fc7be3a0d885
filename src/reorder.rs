//! Stable, run-wise reordering of the lines of a text.
//!
//! Lines that carry a sort key form runs; a line without a key is a fixed
//! boundary. Each maximal run of keyed lines is stably sorted by key, while
//! every keyless line keeps its place.

use vstd::prelude::*;
use crate::pattern::{first_group, group_count_of, is_part_of, pattern_compiles, KeyPattern};
use crate::text::{join_newlines, join_pieces, lemma_join_split, lemma_split_join, lemma_split_no_newline, lemma_split_nonempty, pieces_of, split_newlines, views};

verus! {

/// The model of one line: its text and its sort key, if any.
pub type Entry = (Seq<char>, Option<Seq<char>>);

/// Lexical order of keys, character by character on code points (which is
/// the byte order of their UTF-8 encoding).
pub open spec fn key_le(a: Seq<char>, b: Seq<char>) -> bool
    decreases a.len(),
{
    if a.len() == 0 {
        true
    } else if b.len() == 0 {
        false
    } else if a[0] as u32 != b[0] as u32 {
        (a[0] as u32) < (b[0] as u32)
    } else {
        key_le(a.drop_first(), b.drop_first())
    }
}

/// Whether `e` may directly follow `prev` in a reordered text.
pub open spec fn may_follow(prev: Entry, e: Entry) -> bool {
    match (prev.1, e.1) {
        (Some(p), Some(k)) => key_le(p, k),
        _ => true,
    }
}

/// Inserts `e` at the end of `sorted`, moving it in front of the keyed lines
/// at the end of `sorted` whose key is strictly greater.
pub open spec fn insert_entry(sorted: Seq<Entry>, e: Entry) -> Seq<Entry>
    decreases sorted.len(),
{
    if sorted.len() == 0 || may_follow(sorted.last(), e) {
        sorted.push(e)
    } else {
        insert_entry(sorted.drop_last(), e).push(sorted.last())
    }
}

/// The reordered form of a sequence of lines.
pub open spec fn reordered(s: Seq<Entry>) -> Seq<Entry>
    decreases s.len(),
{
    if s.len() == 0 {
        s
    } else {
        insert_entry(reordered(s.drop_last()), s.last())
    }
}

/// Every keyed line is ordered after the keyed line before it, when the two
/// are adjacent.
pub open spec fn runs_sorted(s: Seq<Entry>) -> bool {
    forall|i: int| 0 <= i < s.len() - 1 ==> #[trigger] may_follow(s[i], s[i + 1])
}

/// Number of lines that carry a key.
pub open spec fn keyed_count(s: Seq<Entry>) -> nat
    decreases s.len(),
{
    if s.len() == 0 {
        0
    } else {
        keyed_count(s.drop_last()) + if s.last().1 is Some { 1nat } else { 0nat }
    }
}


/// Where `insert_entry` places its new line.
pub open spec fn insert_pos(sorted: Seq<Entry>, e: Entry) -> int
    decreases sorted.len(),
{
    if sorted.len() == 0 || may_follow(sorted.last(), e) {
        sorted.len() as int
    } else {
        insert_pos(sorted.drop_last(), e)
    }
}

/// `b` has a keyless line exactly where `a` has one, and the same one.
pub open spec fn keyless_fixed(a: Seq<Entry>, b: Seq<Entry>) -> bool {
    &&& a.len() == b.len()
    &&& forall|i: int|
        0 <= i < a.len() ==> {
            &&& (#[trigger] a[i].1 is None <==> b[i].1 is None)
            &&& (a[i].1 is None ==> a[i] == b[i])
        }
}

proof fn lemma_key_le_total(a: Seq<char>, b: Seq<char>)
    ensures
        key_le(a, b) || key_le(b, a),
    decreases a.len(),
{
    if a.len() > 0 && b.len() > 0 && a[0] as u32 == b[0] as u32 {
        lemma_key_le_total(a.drop_first(), b.drop_first());
    }
}

proof fn lemma_insert_shape(sorted: Seq<Entry>, e: Entry)
    ensures
        0 <= insert_pos(sorted, e) <= sorted.len(),
        insert_entry(sorted, e) == sorted.insert(insert_pos(sorted, e), e),
        forall|k: int| insert_pos(sorted, e) <= k < sorted.len() ==> (#[trigger] sorted[k]).1 is Some,
        e.1 is None ==> insert_pos(sorted, e) == sorted.len(),
        insert_pos(sorted, e) < sorted.len() ==> e.1 is Some,
    decreases sorted.len(),
{
    if sorted.len() == 0 || may_follow(sorted.last(), e) {
        assert(sorted.push(e) =~= sorted.insert(sorted.len() as int, e));
    } else {
        let d = sorted.drop_last();
        lemma_insert_shape(d, e);
        let p = insert_pos(d, e);
        assert(d.insert(p, e).push(sorted.last()) =~= sorted.insert(p, e));
        assert(sorted[d.len() as int].1 is Some);
        assert forall|k: int| p <= k < sorted.len() implies (#[trigger] sorted[k]).1 is Some by {
            if k < d.len() {
                assert(sorted[k] == d[k]);
            }
        }
    }
}

proof fn lemma_insert_last(sorted: Seq<Entry>, e: Entry)
    ensures
        insert_entry(sorted, e).last() == e || (sorted.len() > 0 && insert_entry(sorted, e).last()
            == sorted.last()),
{
    lemma_insert_shape(sorted, e);
}

proof fn lemma_insert_keeps_sorted(sorted: Seq<Entry>, e: Entry)
    requires
        runs_sorted(sorted),
    ensures
        runs_sorted(insert_entry(sorted, e)),
    decreases sorted.len(),
{
    if sorted.len() == 0 || may_follow(sorted.last(), e) {
        let r = sorted.push(e);
        assert forall|i: int| 0 <= i < r.len() - 1 implies #[trigger] may_follow(r[i], r[i + 1]) by {
            if i < sorted.len() - 1 {
                assert(may_follow(sorted[i], sorted[i + 1]));
            }
        }
    } else {
        let d = sorted.drop_last();
        let l = sorted.last();
        assert forall|i: int| 0 <= i < d.len() - 1 implies #[trigger] may_follow(d[i], d[i + 1]) by {
            assert(may_follow(sorted[i], sorted[i + 1]));
        }
        lemma_insert_keeps_sorted(d, e);
        let inner = insert_entry(d, e);
        lemma_insert_last(d, e);
        lemma_insert_shape(d, e);
        assert(may_follow(inner.last(), l)) by {
            if inner.last() == e {
                lemma_key_le_total(l.1.unwrap(), e.1.unwrap());
            } else {
                let i = d.len() - 1;
                assert(may_follow(sorted[i], sorted[i + 1]));
            }
        }
        let r = inner.push(l);
        assert forall|i: int| 0 <= i < r.len() - 1 implies #[trigger] may_follow(r[i], r[i + 1]) by {
            if i < inner.len() - 1 {
                assert(may_follow(inner[i], inner[i + 1]));
            }
        }
    }
}

proof fn lemma_insert_multiset(sorted: Seq<Entry>, e: Entry)
    ensures
        insert_entry(sorted, e).to_multiset() =~= sorted.to_multiset().insert(e),
    decreases sorted.len(),
{
    broadcast use vstd::seq_lib::group_to_multiset_ensures;

    if sorted.len() == 0 || may_follow(sorted.last(), e) {
    } else {
        let d = sorted.drop_last();
        lemma_insert_multiset(d, e);
        assert(d.push(sorted.last()) =~= sorted);
    }
}

proof fn lemma_insert_keyless_fixed(a: Seq<Entry>, b: Seq<Entry>, e: Entry)
    requires
        keyless_fixed(a, b),
    ensures
        keyless_fixed(a.push(e), insert_entry(b, e)),
{
    lemma_insert_shape(b, e);
    let p = insert_pos(b, e);
    let r = insert_entry(b, e);
    let s = a.push(e);
    assert forall|i: int| 0 <= i < s.len() implies {
        &&& (#[trigger] s[i].1 is None <==> r[i].1 is None)
        &&& (s[i].1 is None ==> s[i] == r[i])
    } by {
        if i < p {
            assert(r[i] == b[i]);
        } else if i == p {
            if p < b.len() {
                assert(b[p].1 is Some);
            }
        } else {
            assert(r[i] == b[i - 1]);
            assert(b[i - 1].1 is Some);
            if i < b.len() {
                assert(b[i].1 is Some);
            }
        }
    }
}

/// Reordering keeps every keyless line in place, unchanged.
pub proof fn lemma_reordered_keyless_fixed(s: Seq<Entry>)
    ensures
        keyless_fixed(s, reordered(s)),
    decreases s.len(),
{
    if s.len() > 0 {
        let d = s.drop_last();
        lemma_reordered_keyless_fixed(d);
        lemma_insert_keyless_fixed(d, reordered(d), s.last());
        assert(d.push(s.last()) =~= s);
    }
}

/// Reordering sorts every run of keyed lines.
pub proof fn lemma_reordered_sorted(s: Seq<Entry>)
    ensures
        runs_sorted(reordered(s)),
    decreases s.len(),
{
    if s.len() > 0 {
        lemma_reordered_sorted(s.drop_last());
        lemma_insert_keeps_sorted(reordered(s.drop_last()), s.last());
    }
}

/// Reordering neither adds nor drops a line.
pub proof fn lemma_reordered_permutes(s: Seq<Entry>)
    ensures
        reordered(s).to_multiset() =~= s.to_multiset(),
    decreases s.len(),
{
    broadcast use vstd::seq_lib::group_to_multiset_ensures;

    if s.len() > 0 {
        let d = s.drop_last();
        lemma_reordered_permutes(d);
        lemma_insert_multiset(reordered(d), s.last());
        assert(d.push(s.last()) =~= s);
    }
}

/// Lines whose runs are already sorted are left as they are.
pub proof fn lemma_reordered_sorted_unchanged(s: Seq<Entry>)
    requires
        runs_sorted(s),
    ensures
        reordered(s) == s,
    decreases s.len(),
{
    if s.len() > 0 {
        let d = s.drop_last();
        assert forall|i: int| 0 <= i < d.len() - 1 implies #[trigger] may_follow(d[i], d[i + 1]) by {
            assert(may_follow(s[i], s[i + 1]));
        }
        lemma_reordered_sorted_unchanged(d);
        if d.len() > 0 {
            let i = d.len() - 1;
            assert(may_follow(s[i], s[i + 1]));
        }
        assert(d.push(s.last()) =~= s);
    }
}

proof fn lemma_reordered_prefix(s: Seq<Entry>, k: int)
    requires
        0 <= k < s.len(),
        s[k].1 is None,
    ensures
        reordered(s).take(k + 1) == reordered(s.take(k + 1)),
    decreases s.len(),
{
    if s.len() > k + 1 {
        let d = s.drop_last();
        assert(d[k] == s[k]);
        lemma_reordered_prefix(d, k);
        assert(d.take(k + 1) =~= s.take(k + 1));
        let rd = reordered(d);
        lemma_reordered_keyless_fixed(d);
        assert(rd[k].1 is None);
        lemma_insert_shape(rd, s.last());
        let p = insert_pos(rd, s.last());
        assert(p > k);
        assert(reordered(s).take(k + 1) =~= rd.take(k + 1));
    } else {
        assert(s.take(k + 1) =~= s);
        assert(reordered(s).take(k + 1) =~= reordered(s)) by {
            lemma_reordered_permutes(s);
            broadcast use vstd::seq_lib::group_to_multiset_ensures;
            assert(reordered(s).to_multiset().len() == s.to_multiset().len());
        }
    }
}

/// No line crosses a keyless line: the lines before any keyless line are
/// the same, up to order, before and after reordering. So each run of
/// keyed lines is rearranged within itself.
pub proof fn lemma_reordered_runs_permuted(s: Seq<Entry>, k: int)
    requires
        0 <= k < s.len(),
        s[k].1 is None,
    ensures
        reordered(s).take(k).to_multiset() == s.take(k).to_multiset(),
{
    broadcast use vstd::seq_lib::group_to_multiset_ensures;

    lemma_reordered_prefix(s, k);
    let t = s.take(k + 1);
    lemma_reordered_permutes(t);
    lemma_reordered_keyless_fixed(t);
    let rt = reordered(t);
    assert(rt[k] == t[k]);
    assert(rt.take(k).push(rt[k]) =~= rt);
    assert(t.take(k).push(t[k]) =~= t);
    let m1 = rt.take(k).to_multiset();
    let m2 = t.take(k).to_multiset();
    assert(m1.insert(t[k]) =~= m2.insert(t[k]));
    assert forall|v: Entry| m1.count(v) == m2.count(v) by {
        assert(m1.insert(t[k]).count(v) == m2.insert(t[k]).count(v));
    }
    assert(m1 =~= m2);
    assert(t.take(k) =~= s.take(k));
    lemma_reordered_keyless_fixed(s);
    assert(reordered(s).take(k) =~= reordered(s).take(k + 1).take(k));
}

/// Reordering twice gives what reordering once gives.
pub proof fn lemma_reordered_idempotent(s: Seq<Entry>)
    ensures
        reordered(reordered(s)) == reordered(s),
{
    lemma_reordered_sorted(s);
    lemma_reordered_sorted_unchanged(reordered(s));
}


/// One line of a text, with the sort key extracted from it, if any.
pub struct KeyedLine {
    pub text: String,
    pub key: Option<Vec<char>>,
}

impl View for KeyedLine {
    type V = Entry;

    open spec fn view(&self) -> Entry {
        (
            self.text@,
            match self.key {
                Some(k) => Some(k@),
                None => None,
            },
        )
    }
}

/// The model of a sequence of lines.
pub open spec fn entries(v: Seq<KeyedLine>) -> Seq<Entry> {
    v.map_values(|l: KeyedLine| l@)
}

/// Compares two keys in lexical order.
pub fn key_le_exec(a: &Vec<char>, b: &Vec<char>) -> (r: bool)
    ensures
        r == key_le(a@, b@),
{
    let mut i: usize = 0;
    assert(a@.skip(0) =~= a@);
    assert(b@.skip(0) =~= b@);
    while i < a.len() && i < b.len()
        invariant
            0 <= i <= a.len(),
            i <= b.len(),
            key_le(a@, b@) == key_le(a@.skip(i as int), b@.skip(i as int)),
        decreases a.len() - i,
    {
        let x = a[i] as u32;
        let y = b[i] as u32;
        if x != y {
            return x < y;
        }
        assert(a@.skip(i as int).drop_first() =~= a@.skip(i + 1));
        assert(b@.skip(i as int).drop_first() =~= b@.skip(i + 1));
        i += 1;
    }
    i == a.len()
}

fn follows(prev: &KeyedLine, e: &KeyedLine) -> (r: bool)
    ensures
        r == may_follow(prev@, e@),
{
    match (&prev.key, &e.key) {
        (Some(p), Some(k)) => key_le_exec(p, k),
        _ => true,
    }
}

/// Inserts `e` into `out` as `insert_entry` does.
fn insert_line(out: &mut Vec<KeyedLine>, e: KeyedLine)
    ensures
        entries(final(out)@) == insert_entry(entries(old(out)@), e@),
{
    let ghost es = entries(out@);
    let ghost ee = e@;
    let mut j: usize = out.len();
    assert(es.take(j as int) =~= es);
    assert(es.skip(j as int) =~= Seq::<Entry>::empty());
    assert(insert_entry(es, ee) =~= insert_entry(es.take(j as int), ee) + es.skip(j as int));
    loop
        invariant
            j <= out.len(),
            entries(out@) == es,
            ee == e@,
            insert_entry(es, ee) == insert_entry(es.take(j as int), ee) + es.skip(j as int),
        ensures
            j <= out.len(),
            entries(out@) == es,
            insert_entry(es, ee) == insert_entry(es.take(j as int), ee) + es.skip(j as int),
            j == 0 || may_follow(es[j - 1], ee),
        decreases j,
    {
        if j == 0 {
            break;
        }
        assert(es[j - 1] == out@[j - 1]@);
        let f = follows(&out[j - 1], &e);
        if f {
            break;
        }
        proof {
            let t = es.take(j as int);
            assert(t.drop_last() =~= es.take(j - 1));
            assert(t.last() == es[j - 1]);
            assert(insert_entry(t, ee) == insert_entry(es.take(j - 1), ee).push(es[j - 1]));
            assert(insert_entry(es.take(j - 1), ee).push(es[j - 1]) + es.skip(j as int)
                =~= insert_entry(es.take(j - 1), ee) + es.skip(j - 1));
        }
        j -= 1;
    }
    proof {
        let t = es.take(j as int);
        if j > 0 {
            assert(t.last() == es[j - 1]);
        }
        assert(insert_entry(t, ee) == t.push(ee));
    }
    out.insert(j, e);
    proof {
        assert(entries(out@) =~= es.take(j as int).push(ee) + es.skip(j as int));
    }
}

/// Stably sorts each run of keyed lines, leaving keyless lines in place.
pub fn reorder_lines(lines: Vec<KeyedLine>) -> (r: Vec<KeyedLine>)
    ensures
        entries(r@) == reordered(entries(lines@)),
{
    let ghost orig = lines@;
    let mut lines = lines;
    let mut rev: Vec<KeyedLine> = Vec::new();
    while lines.len() > 0
        invariant
            lines@ == orig.take(orig.len() - rev.len()),
            rev.len() <= orig.len(),
            forall|k: int| 0 <= k < rev.len() ==> #[trigger] rev@[k] == orig[orig.len() - 1 - k],
        decreases lines.len(),
    {
        let e = lines.pop().unwrap();
        rev.push(e);
    }
    let mut out: Vec<KeyedLine> = Vec::new();
    while rev.len() > 0
        invariant
            rev.len() <= orig.len(),
            forall|k: int| 0 <= k < rev.len() ==> #[trigger] rev@[k] == orig[orig.len() - 1 - k],
            entries(out@) == reordered(entries(orig.take(orig.len() - rev.len()))),
        decreases rev.len(),
    {
        let ghost n = orig.len() - rev.len();
        let e = rev.pop().unwrap();
        proof {
            let pre = entries(orig.take(n));
            let now = entries(orig.take(n + 1));
            assert(now.drop_last() =~= pre);
            assert(now.last() == orig[n]@);
        }
        insert_line(&mut out, e);
    }
    assert(orig.take(orig.len() as int) =~= orig);
    out
}


/// The sort key that a match result gives a line.
pub open spec fn key_of_group(g: Option<Option<Seq<char>>>) -> Option<Seq<char>> {
    match g {
        Some(Some(k)) => Some(k),
        _ => None,
    }
}

/// The lines, each with the key that `pattern` extracts from it.
pub open spec fn keyed(pattern: Seq<char>, lines: Seq<Seq<char>>) -> Seq<Entry> {
    lines.map_values(|l: Seq<char>| (l, key_of_group(first_group(pattern, l))))
}

/// Some line matches `pattern` without a first capture group.
pub open spec fn groupless_match(pattern: Seq<char>, lines: Seq<Seq<char>>) -> bool {
    exists|i: int| 0 <= i < lines.len() && first_group(pattern, #[trigger] lines[i]) == Some(
        None::<Seq<char>>,
    )
}

/// The lines of a text, given its pieces: a final empty piece only marks
/// the newline that ends the last line.
pub open spec fn body_lines(p: Seq<Seq<char>>) -> Seq<Seq<char>> {
    if p.len() > 0 && p.last().len() == 0 {
        p.drop_last()
    } else {
        p
    }
}

/// The final empty piece of a text's pieces, if there is one.
pub open spec fn tail_piece(p: Seq<Seq<char>>) -> Seq<Seq<char>> {
    if p.len() > 0 && p.last().len() == 0 {
        seq![Seq::<char>::empty()]
    } else {
        Seq::empty()
    }
}

/// The texts of a sequence of lines.
pub open spec fn texts(s: Seq<Entry>) -> Seq<Seq<char>> {
    s.map_values(|e: Entry| e.0)
}

/// The lines of `text` with their keys.
pub open spec fn text_entries(pattern: Seq<char>, text: Seq<char>) -> Seq<Entry> {
    keyed(pattern, body_lines(split_newlines(text)))
}

/// `text` with each run of keyed lines stably sorted by key.
pub open spec fn sorted_text(pattern: Seq<char>, text: Seq<char>) -> Seq<char> {
    join_newlines(
        texts(reordered(text_entries(pattern, text))) + tail_piece(split_newlines(text)),
    )
}

proof fn lemma_keyed_count_none(s: Seq<Entry>)
    requires
        forall|i: int| 0 <= i < s.len() ==> (#[trigger] s[i]).1 is None,
    ensures
        keyed_count(s) == 0,
    decreases s.len(),
{
    if s.len() > 0 {
        let d = s.drop_last();
        assert forall|i: int| 0 <= i < d.len() implies (#[trigger] d[i]).1 is None by {
            assert(d[i] == s[i]);
        }
        lemma_keyed_count_none(d);
    }
}

/// When no line of `text` matches `pattern`, no line is sortable and the
/// text comes out exactly as it went in.
pub proof fn lemma_no_match_unchanged(pattern: Seq<char>, text: Seq<char>)
    requires
        forall|i: int|
            0 <= i < body_lines(split_newlines(text)).len() ==> first_group(
                pattern,
                #[trigger] body_lines(split_newlines(text))[i],
            ) is None,
    ensures
        sorted_text(pattern, text) == text,
        keyed_count(text_entries(pattern, text)) == 0,
{
    let p = split_newlines(text);
    let es = text_entries(pattern, text);
    assert forall|i: int| 0 <= i < es.len() implies (#[trigger] es[i]).1 is None by {
        assert(first_group(pattern, body_lines(p)[i]) is None);
    }
    assert forall|i: int| 0 <= i < es.len() - 1 implies #[trigger] may_follow(es[i], es[i + 1]) by {
        assert(es[i].1 is None);
    }
    lemma_reordered_sorted_unchanged(es);
    lemma_keyed_count_none(es);
    lemma_split_nonempty(text);
    assert(texts(es) =~= body_lines(p));
    if p.last().len() == 0 {
        assert(p.last() =~= Seq::<char>::empty());
    }
    assert(texts(es) + tail_piece(p) =~= p);
    lemma_join_split(text);
}

proof fn lemma_reordered_member(s: Seq<Entry>, i: int)
    requires
        0 <= i < reordered(s).len(),
    ensures
        exists|j: int| 0 <= j < s.len() && s[j] == reordered(s)[i],
{
    broadcast use vstd::seq_lib::group_to_multiset_ensures;

    lemma_reordered_permutes(s);
    let r = reordered(s);
    assert(r.contains(r[i]));
    assert(s.to_multiset().count(r[i]) > 0);
    assert(s.contains(r[i]));
}

/// Reordering a text that was reordered with the same pattern gives it
/// back unchanged.
pub proof fn lemma_sort_text_idempotent(pattern: Seq<char>, text: Seq<char>)
    ensures
        sorted_text(pattern, sorted_text(pattern, text)) == sorted_text(pattern, text),
{
    broadcast use vstd::seq_lib::group_to_multiset_ensures;

    let p = split_newlines(text);
    let b = body_lines(p);
    let e = keyed(pattern, b);
    let r = reordered(e);
    let q = texts(r) + tail_piece(p);
    lemma_split_nonempty(text);
    lemma_split_no_newline(text);
    lemma_reordered_permutes(e);
    assert(r.len() == e.len()) by {
        assert(r.to_multiset().len() == e.to_multiset().len());
    }
    assert forall|i: int| 0 <= i < r.len() implies (#[trigger] r[i]).1 == key_of_group(
        first_group(pattern, r[i].0),
    ) && !r[i].0.contains('\n') by {
        lemma_reordered_member(e, i);
        let j = choose|j: int| 0 <= j < e.len() && e[j] == r[i];
        assert(b[j] == p[j]);
        assert(!p[j].contains('\n'));
    }
    assert forall|i: int| 0 <= i < q.len() implies !(#[trigger] q[i]).contains('\n') by {
        if i < r.len() {
            assert(q[i] == r[i].0);
        } else {
            assert(q[i] =~= Seq::<char>::empty());
            assert(!Seq::<char>::empty().contains('\n'));
        }
    }
    lemma_split_join(q);
    let bq = body_lines(q);
    let m: int = if tail_piece(p).len() > 0 {
        r.len() as int
    } else if q.last().len() == 0 {
        r.len() - 1
    } else {
        r.len() as int
    };
    assert(bq =~= texts(r).take(m));
    assert(keyed(pattern, bq) =~= r.take(m));
    lemma_reordered_sorted(e);
    let rm = r.take(m);
    assert forall|i: int| 0 <= i < rm.len() - 1 implies #[trigger] may_follow(rm[i], rm[i + 1]) by {
        assert(may_follow(r[i], r[i + 1]));
    }
    lemma_reordered_sorted_unchanged(rm);
    assert(texts(rm) =~= bq);
    if q.last().len() == 0 {
        assert(q.last() =~= Seq::<char>::empty());
        assert(q.drop_last().push(q.last()) =~= q);
    }
    assert(bq + tail_piece(q) =~= q);
}

/// When `pattern` gives `line` a key, the key is a part of the line.
pub open spec fn key_within(pattern: Seq<char>, line: Seq<char>) -> bool {
    match first_group(pattern, line) {
        Some(Some(k)) => is_part_of(k, line),
        _ => true,
    }
}

/// `pattern` can reorder `lines`: it compiles, it has a first capture
/// group, and no line matches it without that group.
pub open spec fn pattern_usable(pattern: Seq<char>, lines: Seq<Seq<char>>) -> bool {
    &&& pattern_compiles(pattern)
    &&& group_count_of(pattern) >= 2
    &&& !groupless_match(pattern, lines)
}

/// What a successful reordering of `text` with `pattern` establishes.
pub open spec fn sort_succeeds(pattern: Seq<char>, text: Seq<char>) -> bool {
    let b = body_lines(split_newlines(text));
    &&& pattern_usable(pattern, b)
    &&& forall|i: int| 0 <= i < b.len() ==> #[trigger] key_within(pattern, b[i])
}

proof fn lemma_insert_keyed_count(sorted: Seq<Entry>, e: Entry)
    ensures
        keyed_count(insert_entry(sorted, e)) == keyed_count(sorted) + if e.1 is Some {
            1nat
        } else {
            0nat
        },
    decreases sorted.len(),
{
    if sorted.len() == 0 || may_follow(sorted.last(), e) {
        assert(sorted.push(e).drop_last() =~= sorted);
    } else {
        let d = sorted.drop_last();
        lemma_insert_keyed_count(d, e);
        let inner = insert_entry(d, e);
        assert(inner.push(sorted.last()).drop_last() =~= inner);
        assert(d.push(sorted.last()) =~= sorted);
    }
}

proof fn lemma_reordered_keyed_count(s: Seq<Entry>)
    ensures
        keyed_count(reordered(s)) == keyed_count(s),
    decreases s.len(),
{
    if s.len() > 0 {
        lemma_reordered_keyed_count(s.drop_last());
        lemma_insert_keyed_count(reordered(s.drop_last()), s.last());
    }
}

/// When the last line of a sequence has a nonempty text, so does the last
/// line of its reordering, provided every key is a part of its line.
proof fn lemma_reordered_last_nonempty(pattern: Seq<char>, s: Seq<Entry>)
    requires
        s.len() > 0,
        s.last().0.len() > 0,
        forall|j: int|
            0 <= j < s.len() ==> (#[trigger] s[j]).1 == key_of_group(first_group(pattern, s[j].0))
                && key_within(pattern, s[j].0),
    ensures
        reordered(s).last().0.len() > 0,
{
    let d = s.drop_last();
    let e = s.last();
    let rd = reordered(d);
    let r = reordered(s);
    assert(r == insert_entry(rd, e));
    lemma_insert_shape(rd, e);
    if insert_pos(rd, e) < rd.len() {
        assert(!may_follow(rd.last(), e));
        assert(r.last() == rd.last());
        lemma_reordered_member(s, r.len() - 1);
        let j = choose|j: int| 0 <= j < s.len() && s[j] == r[r.len() - 1];
        let k = rd.last().1->0;
        assert(k.len() > 0);
        assert(key_within(pattern, s[j].0));
        assert(first_group(pattern, s[j].0) == Some(Some(k)));
    }
}

/// What reordering does to the lines of a text: the lines of the output,
/// with their keys, are the reordering of the lines of the input. So every
/// keyless line keeps its place and its text, each run of keyed lines comes
/// out in key order, no line is added, dropped or moved past a keyless
/// line, and reordering the
/// output again succeeds with the same count and changes nothing.
pub proof fn lemma_sort_text_lines(pattern: Seq<char>, text: Seq<char>)
    requires
        sort_succeeds(pattern, text),
    ensures
        text_entries(pattern, sorted_text(pattern, text)) == reordered(text_entries(pattern, text)),
        keyless_fixed(text_entries(pattern, text), text_entries(pattern, sorted_text(pattern, text))),
        runs_sorted(text_entries(pattern, sorted_text(pattern, text))),
        text_entries(pattern, sorted_text(pattern, text)).to_multiset() == text_entries(
            pattern,
            text,
        ).to_multiset(),
        forall|k: int|
            0 <= k < text_entries(pattern, text).len() && (#[trigger] text_entries(
                pattern,
                text,
            )[k]).1 is None ==> text_entries(pattern, sorted_text(pattern, text)).take(
                k,
            ).to_multiset() == text_entries(pattern, text).take(k).to_multiset(),
        sort_succeeds(pattern, sorted_text(pattern, text)),
        keyed_count(text_entries(pattern, sorted_text(pattern, text))) == keyed_count(
            text_entries(pattern, text),
        ),
        sorted_text(pattern, sorted_text(pattern, text)) == sorted_text(pattern, text),
{
    broadcast use vstd::seq_lib::group_to_multiset_ensures;

    let p = split_newlines(text);
    let b = body_lines(p);
    let e = keyed(pattern, b);
    let r = reordered(e);
    let q = texts(r) + tail_piece(p);
    let out = sorted_text(pattern, text);
    lemma_split_nonempty(text);
    lemma_split_no_newline(text);
    lemma_reordered_permutes(e);
    assert(r.len() == e.len()) by {
        assert(r.to_multiset().len() == e.to_multiset().len());
    }
    assert forall|j: int| 0 <= j < e.len() implies (#[trigger] e[j]).1 == key_of_group(
        first_group(pattern, e[j].0),
    ) && key_within(pattern, e[j].0) by {
        assert(key_within(pattern, b[j]));
    }
    assert forall|i: int| 0 <= i < r.len() implies {
        &&& (#[trigger] r[i]).1 == key_of_group(first_group(pattern, r[i].0))
        &&& !r[i].0.contains('\n')
        &&& key_within(pattern, r[i].0)
        &&& first_group(pattern, r[i].0) != Some(None::<Seq<char>>)
    } by {
        lemma_reordered_member(e, i);
        let j = choose|j: int| 0 <= j < e.len() && e[j] == r[i];
        assert(b[j] == p[j]);
        assert(!p[j].contains('\n'));
        assert(key_within(pattern, b[j]));
        if first_group(pattern, b[j]) == Some(None::<Seq<char>>) {
            assert(groupless_match(pattern, b));
        }
    }
    assert forall|i: int| 0 <= i < q.len() implies !(#[trigger] q[i]).contains('\n') by {
        if i < r.len() {
            assert(q[i] == r[i].0);
        } else {
            assert(q[i] =~= Seq::<char>::empty());
            assert(!Seq::<char>::empty().contains('\n'));
        }
    }
    lemma_split_join(q);
    assert(split_newlines(out) == q);
    if tail_piece(p).len() == 0 {
        assert(b == p);
        lemma_reordered_last_nonempty(pattern, e);
        assert(q =~= texts(r));
        assert(q.last() == r.last().0);
        assert(body_lines(q) == q);
    } else {
        assert(q.last() =~= Seq::<char>::empty());
        assert(body_lines(q) =~= texts(r));
    }
    assert(body_lines(q) =~= texts(r));
    assert(keyed(pattern, texts(r)) =~= r);
    lemma_reordered_keyless_fixed(e);
    lemma_reordered_sorted(e);
    lemma_reordered_keyed_count(e);
    let bo = body_lines(split_newlines(out));
    assert forall|i: int| 0 <= i < bo.len() implies #[trigger] key_within(pattern, bo[i]) by {
        assert(bo[i] == r[i].0);
    }
    assert(!groupless_match(pattern, bo)) by {
        if groupless_match(pattern, bo) {
            let i = choose|i: int| 0 <= i < bo.len() && first_group(pattern, #[trigger] bo[i])
                == Some(None::<Seq<char>>);
            assert(bo[i] == r[i].0);
        }
    }
    assert forall|k: int| 0 <= k < e.len() && (#[trigger] e[k]).1 is None implies r.take(
        k,
    ).to_multiset() == e.take(k).to_multiset() by {
        lemma_reordered_runs_permuted(e, k);
    }
    lemma_sort_text_idempotent(pattern, text);
}

/// The sentence that describes a reordering error.
pub open spec fn reorder_message(e: ReorderError) -> Seq<char> {
    match e {
        ReorderError::InvalidPattern(p) => "Invalid regex: `"@ + p@ + "`"@,
        ReorderError::MissingCaptureGroup(p) => "No capture group in regex: `"@ + p@
            + "`, the sort key has to be in a capture group"@,
    }
}

/// Why a text could not be reordered.
#[derive(Debug, PartialEq, Eq)]
pub enum ReorderError {
    /// The pattern is not a valid regular expression.
    InvalidPattern(String),
    /// The pattern matched a line but has no first capture group.
    MissingCaptureGroup(String),
}

impl ReorderError {
    /// A sentence that describes the error.
    pub fn message(&self) -> (r: String)
        ensures
            r@ == reorder_message(*self),
    {
        match self {
            ReorderError::InvalidPattern(p) => {
                let mut m = String::from_str("Invalid regex: `");
                m.append(p.as_str());
                m.append("`");
                assert(m@ =~= "Invalid regex: `"@ + p@ + "`"@);
                m
            },
            ReorderError::MissingCaptureGroup(p) => {
                let mut m = String::from_str("No capture group in regex: `");
                m.append(p.as_str());
                m.append("`, the sort key has to be in a capture group");
                assert(m@ =~= "No capture group in regex: `"@ + p@
                    + "`, the sort key has to be in a capture group"@);
                m
            },
        }
    }
}

/// Reorders the lines of `text`: the first capture group of `pattern` is a
/// line's key, a line that does not match has none. Returns the new text
/// and the number of lines that had a key.
pub fn sort_text(pattern: &str, text: &str) -> (r: Result<(String, usize), ReorderError>)
    ensures
        r matches Err(ReorderError::InvalidPattern(p)) <==> !pattern_compiles(pattern@),
        r matches Err(ReorderError::MissingCaptureGroup(_)) <==> pattern_compiles(pattern@) && (
        group_count_of(pattern@) < 2 || groupless_match(pattern@, body_lines(split_newlines(text@)))),
        r matches Err(ReorderError::InvalidPattern(p)) ==> p@ == pattern@,
        r matches Err(ReorderError::MissingCaptureGroup(p)) ==> p@ == pattern@,
        r matches Ok((out, n)) ==> out@ == sorted_text(pattern@, text@) && n == keyed_count(
            text_entries(pattern@, text@),
        ) && sort_succeeds(pattern@, text@),
{
    let kp = match KeyPattern::new(pattern) {
        Some(k) => k,
        None => return Err(ReorderError::InvalidPattern(pattern.to_string())),
    };
    if kp.group_count() < 2 {
        return Err(ReorderError::MissingCaptureGroup(pattern.to_string()));
    }
    let pieces = pieces_of(text);
    let ghost p = views(pieces@);
    let ends_with_newline = pieces[pieces.len() - 1].as_str().is_empty();
    assert(ends_with_newline == (p.last().len() == 0));
    let body_len: usize = if ends_with_newline { pieces.len() - 1 } else { pieces.len() };
    let ghost body = body_lines(p);
    assert(body =~= p.take(body_len as int));
    let mut lines: Vec<KeyedLine> = Vec::new();
    let mut count: usize = 0;
    let mut i: usize = 0;
    while i < body_len
        invariant
            i <= body_len <= pieces.len(),
            p == views(pieces@),
            body == p.take(body_len as int),
            kp.pattern() == pattern@,
            pattern_compiles(pattern@),
            group_count_of(pattern@) >= 2,
            body == body_lines(split_newlines(text@)),
            forall|j: int| 0 <= j < i ==> #[trigger] key_within(pattern@, body[j]),
            count <= i,
            entries(lines@) == keyed(pattern@, body.take(i as int)),
            count == keyed_count(keyed(pattern@, body.take(i as int))),
            forall|j: int| 0 <= j < i ==> first_group(pattern@, #[trigger] body[j]) != Some(
                None::<Seq<char>>,
            ),
        decreases body_len - i,
    {
        let line = pieces[i].clone();
        let g = kp.first_group(line.as_str());
        let ghost lv = line@;
        let ghost old_lines = lines@;
        let ghost e: Entry = (lv, key_of_group(first_group(pattern@, lv)));
        proof {
            let next = keyed(pattern@, body.take(i + 1));
            assert(next.drop_last() =~= keyed(pattern@, body.take(i as int)));
            assert(body[i as int] == line@);
        }
        match g {
            None => {
                lines.push(KeyedLine { text: line, key: None });
                assert(lines@.last()@ == e);
            },
            Some(None) => {
                assert(first_group(pattern@, body[i as int]) == Some(None::<Seq<char>>));
                assert(groupless_match(pattern@, body));
                return Err(ReorderError::MissingCaptureGroup(pattern.to_string()));
            },
            Some(Some(k)) => {
                lines.push(KeyedLine { text: line, key: Some(k) });
                assert(lines@.last()@ == e);
                count += 1;
            },
        }
        assert(lines@ =~= old_lines.push(lines@.last()));
        assert(entries(lines@) =~= entries(old_lines).push(e));
        assert(entries(lines@) =~= keyed(pattern@, body.take(i + 1)));
        i += 1;
    }
    assert(body.take(body_len as int) =~= body);
    let sorted = reorder_lines(lines);
    let mut out_pieces: Vec<String> = Vec::new();
    let mut k: usize = 0;
    while k < sorted.len()
        invariant
            k <= sorted.len(),
            views(out_pieces@) == texts(entries(sorted@)).take(k as int),
        decreases sorted.len() - k,
    {
        assert(texts(entries(sorted@))[k as int] == sorted@[k as int].text@);
        let ghost old_pieces = out_pieces@;
        out_pieces.push(sorted[k].text.clone());
        assert(views(out_pieces@) =~= views(old_pieces).push(sorted@[k as int].text@));
        assert(views(out_pieces@) =~= texts(entries(sorted@)).take(k + 1));
        k += 1;
    }
    let ghost before = out_pieces@;
    if ends_with_newline {
        out_pieces.push(String::new());
        assert(views(out_pieces@) =~= views(before).push(Seq::<char>::empty()));
    }
    assert(views(out_pieces@) =~= texts(entries(sorted@)) + tail_piece(p));
    Ok((join_pieces(&out_pieces), count))
}

} // verus!

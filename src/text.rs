//! A text as the sequence of its newline-separated pieces.

use vstd::prelude::*;

verus! {

/// The pieces of `t` between its newline characters, in order. A text
/// without a newline is one piece; a text that ends with a newline ends
/// with an empty piece.
pub open spec fn split_newlines(t: Seq<char>) -> Seq<Seq<char>>
    decreases t.len(),
{
    if t.len() == 0 {
        seq![t]
    } else if t.last() == '\n' {
        split_newlines(t.drop_last()).push(Seq::empty())
    } else {
        let s = split_newlines(t.drop_last());
        s.update(s.len() - 1, s.last().push(t.last()))
    }
}

/// The pieces joined by a newline character each.
pub open spec fn join_newlines(p: Seq<Seq<char>>) -> Seq<char>
    decreases p.len(),
{
    if p.len() == 0 {
        Seq::empty()
    } else if p.len() == 1 {
        p[0]
    } else {
        join_newlines(p.drop_last()) + seq!['\n'] + p.last()
    }
}

/// The views of a vector of strings.
pub open spec fn views(v: Seq<String>) -> Seq<Seq<char>> {
    v.map_values(|s: String| s@)
}

/// A text has at least one piece.
pub proof fn lemma_split_nonempty(t: Seq<char>)
    ensures
        split_newlines(t).len() >= 1,
    decreases t.len(),
{
    if t.len() > 0 {
        lemma_split_nonempty(t.drop_last());
    }
}

/// Joining the pieces of a text gives the text back.
pub proof fn lemma_join_split(t: Seq<char>)
    ensures
        join_newlines(split_newlines(t)) == t,
    decreases t.len(),
{
    if t.len() > 0 {
        let d = t.drop_last();
        let s = split_newlines(d);
        lemma_join_split(d);
        lemma_split_nonempty(d);
        if t.last() == '\n' {
            let r = s.push(Seq::empty());
            assert(r.drop_last() =~= s);
            assert(join_newlines(r) =~= d + seq!['\n']);
            assert(d + seq!['\n'] =~= t);
        } else {
            let r = s.update(s.len() - 1, s.last().push(t.last()));
            if s.len() == 1 {
                assert(r[0] =~= t);
            } else {
                assert(r.drop_last() =~= s.drop_last());
                assert(join_newlines(r) =~= join_newlines(s) + seq![t.last()]);
                assert(d + seq![t.last()] =~= t);
            }
        }
    }
}

/// No piece of a text holds a newline character.
pub proof fn lemma_split_no_newline(t: Seq<char>)
    ensures
        forall|i: int|
            0 <= i < split_newlines(t).len() ==> !(#[trigger] split_newlines(t)[i]).contains('\n'),
    decreases t.len(),
{
    if t.len() > 0 {
        let d = t.drop_last();
        lemma_split_no_newline(d);
        lemma_split_nonempty(d);
        let s = split_newlines(d);
        if t.last() != '\n' {
            let l = s.last().push(t.last());
            assert forall|k: int| 0 <= k < l.len() implies l[k] != '\n' by {
                if k < s.last().len() {
                    assert(l[k] == s.last()[k]);
                    assert(s[s.len() - 1] == s.last());
                }
            }
        } else {
            assert(!Seq::<char>::empty().contains('\n'));
        }
    }
}

proof fn lemma_split_after_newline(x: Seq<char>, l: Seq<char>)
    requires
        !l.contains('\n'),
    ensures
        split_newlines(x + seq!['\n'] + l) == split_newlines(x).push(l),
    decreases l.len(),
{
    let t = x + seq!['\n'] + l;
    if l.len() == 0 {
        assert(t.drop_last() =~= x);
        assert(l =~= Seq::<char>::empty());
    } else {
        let lp = l.drop_last();
        assert(!lp.contains('\n')) by {
            if lp.contains('\n') {
                let k = choose|k: int| 0 <= k < lp.len() && lp[k] == '\n';
                assert(l[k] == '\n');
            }
        }
        lemma_split_after_newline(x, lp);
        assert(t.drop_last() =~= x + seq!['\n'] + lp);
        assert(t.last() == l.last());
        assert(l.last() != '\n');
        assert(lp.push(l.last()) =~= l);
        assert(split_newlines(x).push(lp).update(split_newlines(x).len() as int, l)
            =~= split_newlines(x).push(l));
    }
}

proof fn lemma_split_single(l: Seq<char>)
    requires
        !l.contains('\n'),
    ensures
        split_newlines(l) == seq![l],
    decreases l.len(),
{
    if l.len() > 0 {
        let lp = l.drop_last();
        assert(!lp.contains('\n')) by {
            if lp.contains('\n') {
                let k = choose|k: int| 0 <= k < lp.len() && lp[k] == '\n';
                assert(l[k] == '\n');
            }
        }
        lemma_split_single(lp);
        assert(l.last() != '\n');
        assert(lp.push(l.last()) =~= l);
        assert(seq![lp].update(0, l) =~= seq![l]);
    } else {
        assert(l =~= Seq::<char>::empty());
    }
}

/// Splitting pieces that hold no newline, once joined, gives them back.
pub proof fn lemma_split_join(q: Seq<Seq<char>>)
    requires
        q.len() >= 1,
        forall|i: int| 0 <= i < q.len() ==> !(#[trigger] q[i]).contains('\n'),
    ensures
        split_newlines(join_newlines(q)) == q,
    decreases q.len(),
{
    if q.len() == 1 {
        lemma_split_single(q[0]);
        assert(seq![q[0]] =~= q);
    } else {
        let d = q.drop_last();
        assert forall|i: int| 0 <= i < d.len() implies !(#[trigger] d[i]).contains('\n') by {
            assert(d[i] == q[i]);
        }
        lemma_split_join(d);
        assert(q[q.len() - 1] == q.last());
        lemma_split_after_newline(join_newlines(d), q.last());
        assert(d.push(q.last()) =~= q);
    }
}

/// Relies on `str::split` with `'\n'`: the pieces of `text` between its
/// newline characters.
#[verifier::external_body]
fn split_text(text: &str) -> (r: Vec<String>)
    ensures
        views(r@) == split_newlines(text@),
{
    text.split('\n').map(|p| p.to_string()).collect()
}

/// Splits a text into its newline-separated pieces.
pub fn pieces_of(text: &str) -> (r: Vec<String>)
    ensures
        views(r@) == split_newlines(text@),
        r.len() >= 1,
{
    let r = split_text(text);
    proof {
        lemma_split_nonempty(text@);
    }
    r
}

/// Joins pieces with a newline character between each two.
pub fn join_pieces(pieces: &Vec<String>) -> (r: String)
    ensures
        r@ == join_newlines(views(pieces@)),
{
    let mut out = String::new();
    let mut i: usize = 0;
    while i < pieces.len()
        invariant
            i <= pieces.len(),
            out@ == join_newlines(views(pieces@).take(i as int)),
        decreases pieces.len() - i,
    {
        proof {
            let t = views(pieces@).take(i + 1);
            assert(t.drop_last() =~= views(pieces@).take(i as int));
            assert(t.last() == pieces@[i as int]@);
            reveal_strlit("\n");
        }
        if i > 0 {
            out.append("\n");
        }
        out.append(pieces[i].as_str());
        proof {
            let t = views(pieces@).take(i + 1);
            if i == 0 {
                assert(out@ =~= t[0]);
            } else {
                assert(out@ =~= join_newlines(t.drop_last()) + seq!['\n'] + t.last());
            }
        }
        i += 1;
    }
    assert(views(pieces@).take(i as int) =~= views(pieces@));
    out
}

} // verus!

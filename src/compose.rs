//! Joining the loaded support files and the test body into one script.

use vstd::prelude::*;
use vstd::string::StringExecFns;

verus! {

/// The contents of the loaded files, each followed by a newline.
pub open spec fn preamble_of(parts: Seq<Seq<char>>) -> Seq<char>
    decreases parts.len(),
{
    if parts.len() == 0 {
        Seq::empty()
    } else {
        preamble_of(parts.drop_last()) + parts.last() + seq!['\n']
    }
}

/// The script that runs a test: the preamble, then the unchanged test body.
pub open spec fn script_of(parts: Seq<Seq<char>>, body: Seq<char>) -> Seq<char> {
    preamble_of(parts) + body
}

/// Joins the contents of the loaded files, each followed by a newline, and
/// the test body, in that order.
pub fn compose_script(parts: &Vec<String>, body: &str) -> (r: String)
    ensures
        r@ == script_of(parts@.map_values(|s: String| s@), body@),
{
    let ghost views = parts@.map_values(|s: String| s@);
    let mut out = String::new();
    let mut i: usize = 0;
    while i < parts.len()
        invariant
            i <= parts.len(),
            views == parts@.map_values(|s: String| s@),
            out@ == preamble_of(views.take(i as int)),
        decreases parts.len() - i,
    {
        out.append(parts[i].as_str());
        out.append("\n");
        proof {
            reveal_strlit("\n");
            assert(views.take(i + 1).drop_last() =~= views.take(i as int));
        }
        i = i + 1;
    }
    assert(views.take(i as int) =~= views);
    out.append(body);
    out
}


/// One more file adds its contents and a newline at the end of the preamble.
pub proof fn lemma_preamble_push(p: Seq<Seq<char>>, x: Seq<char>)
    ensures
        preamble_of(p.push(x)) == preamble_of(p) + x + seq!['\n'],
{
    assert(p.push(x).drop_last() =~= p);
    assert(p.push(x).last() == x);
}

/// The preamble of four loaded files is each file's contents followed by a
/// newline, in the order given.
pub proof fn lemma_preamble_in_order(a: Seq<char>, b: Seq<char>, c: Seq<char>, d: Seq<char>)
    ensures
        preamble_of(seq![a, b, c, d]) == a + seq!['\n'] + b + seq!['\n'] + c + seq!['\n'] + d + seq!['\n'],
{
    let e = Seq::<Seq<char>>::empty();
    lemma_preamble_push(e, a);
    lemma_preamble_push(e.push(a), b);
    lemma_preamble_push(e.push(a).push(b), c);
    lemma_preamble_push(e.push(a).push(b).push(c), d);
    assert(e.push(a).push(b).push(c).push(d) =~= seq![a, b, c, d]);
    assert(preamble_of(seq![a, b, c, d]) =~= a + seq!['\n'] + b + seq!['\n'] + c + seq!['\n'] + d + seq!['\n']);
}

/// Adding files at the end of a list adds their contents, each with its
/// newline, at the end of the preamble.
pub proof fn lemma_preamble_append(p: Seq<Seq<char>>, q: Seq<Seq<char>>)
    ensures
        preamble_of(p + q) == preamble_of(p) + preamble_of(q),
    decreases q.len(),
{
    if q.len() == 0 {
        assert(p + q =~= p);
        assert(preamble_of(p) + Seq::<char>::empty() =~= preamble_of(p));
    } else {
        assert((p + q).drop_last() =~= p + q.drop_last());
        assert((p + q).last() == q.last());
        lemma_preamble_append(p, q.drop_last());
        assert(preamble_of(p + q) =~= preamble_of(p) + preamble_of(q));
    }
}

} // verus!

use vstd::prelude::*;

verus! {

/// The items of `out` tagged with source `s`, in output order.
pub open spec fn from_source<T>(out: Seq<(usize, T)>, s: int) -> Seq<T>
    decreases out.len(),
{
    if out.len() == 0 {
        Seq::empty()
    } else {
        let rest = from_source(out.drop_last(), s);
        if out.last().0 as int == s {
            rest.push(out.last().1)
        } else {
            rest
        }
    }
}

/// Appending an item tagged `s` extends the items of source `s` by it and
/// leaves every other source's items as they were.
pub proof fn lemma_from_source_push<T>(out: Seq<(usize, T)>, s: usize, x: T, t: int)
    ensures
        from_source(out.push((s, x)), t) == if t == s as int {
            from_source(out, t).push(x)
        } else {
            from_source(out, t)
        },
{
    assert(out.push((s, x)).drop_last() =~= out);
}

/// The items still pending in each source, appended to what has been
/// emitted from it, give that source's stream.
pub open spec fn accounted<T>(orig: Seq<Vec<T>>, pending: Seq<Vec<T>>, out: Seq<(usize, T)>) -> bool {
    &&& pending.len() == orig.len()
    &&& forall|k: int| 0 <= k < out.len() ==> out[k].0 < orig.len()
    &&& forall|t: int| 0 <= t < orig.len() ==> from_source(out, t) + pending[t]@ == orig[t]@
}

/// The contents of each source.
pub open spec fn contents<T>(p: Seq<Vec<T>>) -> Seq<Seq<T>> {
    p.map_values(|v: Vec<T>| v@)
}

/// The items of `q`, each tagged with source `s`.
pub open spec fn tagged<T>(s: usize, q: Seq<T>) -> Seq<(usize, T)> {
    q.map_values(|x: T| (s, x))
}

/// Following `schedule` from pending contents `p`: what is emitted, and
/// what is left pending. An entry naming a source with a pending item
/// emits it; any other entry is skipped.
pub open spec fn scheduled<T>(p: Seq<Seq<T>>, schedule: Seq<usize>) -> (Seq<(usize, T)>, Seq<Seq<T>>)
    decreases schedule.len(),
{
    if schedule.len() == 0 {
        (Seq::empty(), p)
    } else {
        let (out, rest) = scheduled(p, schedule.drop_last());
        let s = schedule.last();
        if s < rest.len() && rest[s as int].len() > 0 {
            (out.push((s, rest[s as int][0])), rest.update(s as int, rest[s as int].drop_first()))
        } else {
            (out, rest)
        }
    }
}

/// The pending items of the first `n` sources, source by source.
pub open spec fn drained<T>(rest: Seq<Seq<T>>, n: int) -> Seq<(usize, T)>
    decreases n,
{
    if n <= 0 {
        Seq::empty()
    } else {
        drained(rest, n - 1) + tagged((n - 1) as usize, rest[n - 1])
    }
}

/// The merged stream for a schedule: what the schedule emits, then what is
/// left, source by source.
pub open spec fn merged<T>(sources: Seq<Seq<T>>, schedule: Seq<usize>) -> Seq<(usize, T)> {
    let (out, rest) = scheduled(sources, schedule);
    out + drained(rest, rest.len() as int)
}

/// Moves the next pending item of source `s` to the output, tagged `s`.
fn emit_next<T>(pending: &mut Vec<Vec<T>>, out: &mut Vec<(usize, T)>, s: usize, Ghost(orig): Ghost<
    Seq<Vec<T>>,
>)
    requires
        accounted(orig, old(pending)@, old(out)@),
        s < old(pending)@.len(),
        old(pending)@[s as int]@.len() > 0,
    ensures
        accounted(orig, final(pending)@, final(out)@),
        final(pending)@[s as int]@ == old(pending)@[s as int]@.drop_first(),
        forall|t: int| 0 <= t < old(pending)@.len() && t != s ==> final(pending)@[t] == old(pending)@[t],
        final(out)@ == old(out)@.push((s, old(pending)@[s as int]@[0])),
{
    let ghost out0 = out@;
    let ghost p0 = pending@;
    let mut v = pending.remove(s);
    let x = v.remove(0);
    pending.insert(s, v);
    assert(pending@ =~= p0.update(s as int, pending@[s as int]));
    let ghost xg = x;
    out.push((s, x));
    assert forall|t: int| 0 <= t < orig.len() implies from_source(out@, t) + pending@[t]@
        == orig[t]@ by {
        lemma_from_source_push(out0, s, xg, t);
        if t == s {
            assert(from_source(out0, s as int) + p0[t]@ == orig[t]@);
            assert(p0[t]@[0] == xg);
            assert(from_source(out0, s as int).push(xg) + p0[t]@.drop_first() =~= from_source(out0, s as int)
                + p0[t]@);
        } else {
            assert(pending@[t] == p0[t]);
        }
    }
}

/// Merges source streams into one. `schedule` gives the order in which
/// sources have an item ready: each entry naming a source with a pending
/// item moves that item to the output, and the rest are ignored. The
/// merged stream ends only after every source has ended, so what is left
/// afterwards follows, source by source.
///
/// Every output item is tagged with its source, and the items tagged with a
/// source are exactly that source's stream in its order: nothing is lost,
/// duplicated or reordered within a source, whatever the schedule.
pub fn merge_streams<T>(sources: Vec<Vec<T>>, schedule: &Vec<usize>) -> (r: Vec<(usize, T)>)
    ensures
        forall|k: int| 0 <= k < r@.len() ==> r@[k].0 < sources@.len(),
        forall|s: int| 0 <= s < sources@.len() ==> from_source(r@, s) == sources@[s]@,
        r@ == merged(contents(sources@), schedule@),
{
    let ghost orig = sources@;
    let mut pending = sources;
    let mut out: Vec<(usize, T)> = Vec::new();
    assert forall|t: int| 0 <= t < orig.len() implies from_source(out@, t) + pending@[t]@
        == orig[t]@ by {
        assert(from_source(out@, t) + pending@[t]@ =~= pending@[t]@);
    }
    let mut k: usize = 0;
    assert(contents(pending@) =~= scheduled(contents(orig), schedule@.subrange(0, 0)).1);
    assert(out@ =~= scheduled(contents(orig), schedule@.subrange(0, 0)).0);
    while k < schedule.len()
        invariant
            k <= schedule@.len(),
            accounted(orig, pending@, out@),
            (out@, contents(pending@)) == scheduled(contents(orig), schedule@.subrange(0, k as int)),
        decreases schedule@.len() - k,
    {
        let s = schedule[k];
        let ghost p0 = pending@;
        assert(schedule@.subrange(0, k + 1).drop_last() =~= schedule@.subrange(0, k as int));
        if s < pending.len() && pending[s].len() > 0 {
            emit_next(&mut pending, &mut out, s, Ghost(orig));
            assert(contents(pending@) =~= contents(p0).update(s as int, contents(p0)[s as int].drop_first()));
        }
        k = k + 1;
    }
    assert(schedule@.subrange(0, k as int) =~= schedule@);
    let ghost base = out@;
    let ghost rest0 = contents(pending@);
    assert(out@ =~= base + drained(rest0, 0));
    let mut s: usize = 0;
    while s < pending.len()
        invariant
            s <= pending@.len(),
            rest0.len() == pending@.len(),
            accounted(orig, pending@, out@),
            forall|t: int| 0 <= t < s ==> pending@[t]@.len() == 0,
            forall|t: int| s <= t < pending@.len() ==> pending@[t]@ == rest0[t],
            out@ == base + drained(rest0, s as int),
        decreases pending@.len() - s,
    {
        let ghost j: int = 0;
        let ghost start = out@;
        assert(out@ =~= start + tagged(s, rest0[s as int].subrange(0, 0)));
        while pending[s].len() > 0
            invariant
                s < pending@.len(),
                rest0.len() == pending@.len(),
                accounted(orig, pending@, out@),
                forall|t: int| 0 <= t < s ==> pending@[t]@.len() == 0,
                forall|t: int| s < t < pending@.len() ==> pending@[t]@ == rest0[t],
                0 <= j <= rest0[s as int].len(),
                pending@[s as int]@ == rest0[s as int].subrange(j, rest0[s as int].len() as int),
                out@ == start + tagged(s, rest0[s as int].subrange(0, j)),
            decreases pending@[s as int]@.len(),
        {
            emit_next(&mut pending, &mut out, s, Ghost(orig));
            assert(tagged(s, rest0[s as int].subrange(0, j + 1)) =~= tagged(s, rest0[s as int].subrange(0, j)).push((s, rest0[s as int][j])));
            assert(pending@[s as int]@ =~= rest0[s as int].subrange(j + 1, rest0[s as int].len() as int));
            proof {
                j = j + 1;
            }
            assert(out@ =~= start + tagged(s, rest0[s as int].subrange(0, j)));
        }
        assert(rest0[s as int].subrange(0, j) =~= rest0[s as int]);
        assert(drained(rest0, s + 1) == drained(rest0, s as int) + tagged(s, rest0[s as int]));
        assert(out@ =~= base + drained(rest0, s + 1));
        s = s + 1;
    }
    assert forall|t: int| 0 <= t < orig.len() implies from_source(out@, t) == orig[t]@ by {
        assert(from_source(out@, t) + pending@[t]@ =~= from_source(out@, t));
    }
    out
}

} // verus!

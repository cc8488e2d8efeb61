//! Game events of a patch and their flattening into one time-ordered list.

use vstd::prelude::*;

verus! {

/// A named event that happens at each of a list of game-clock times.
#[derive(Clone)]
pub struct EventDef {
    pub name: &'static str,
    pub icon_file: &'static str,
    pub times: Vec<i64>,
}

/// One occurrence of an event, at one game-clock time.
#[derive(Clone, Copy)]
pub struct FlatEvent {
    pub time: i64,
    pub name: &'static str,
    pub icon_file: &'static str,
}

/// The occurrences of one definition, one per listed time, in listed order.
pub open spec fn occurrences(d: EventDef) -> Seq<FlatEvent> {
    d.times@.map_values(|t: i64| FlatEvent { time: t, name: d.name, icon_file: d.icon_file })
}

/// The occurrences of all definitions, definition by definition.
pub open spec fn flatten(defs: Seq<EventDef>) -> Seq<FlatEvent>
    decreases defs.len(),
{
    if defs.len() == 0 {
        Seq::<FlatEvent>::empty()
    } else {
        flatten(defs.drop_last()) + occurrences(defs.last())
    }
}

/// The predicate "happens at time `t`".
pub open spec fn time_is(t: int) -> spec_fn(FlatEvent) -> bool {
    |e: FlatEvent| e.time == t
}

/// The occurrences of `s` at time `t`, in the order in which `s` lists them.
pub open spec fn at_time(s: Seq<FlatEvent>, t: int) -> Seq<FlatEvent> {
    s.filter(time_is(t))
}

/// Times never decrease along `s`.
pub open spec fn sorted_by_time(s: Seq<FlatEvent>) -> bool {
    forall|i: int, j: int| 0 <= i <= j < s.len() ==> s[i].time <= s[j].time
}

/// `out` is `input` sorted by time, with occurrences at equal times kept in
/// the order of `input`.
pub open spec fn stable_time_sort_of(out: Seq<FlatEvent>, input: Seq<FlatEvent>) -> bool {
    &&& out.len() == input.len()
    &&& sorted_by_time(out)
    &&& forall|t: int| #[trigger] at_time(out, t) == at_time(input, t)
}

proof fn lemma_filter_push(s: Seq<FlatEvent>, e: FlatEvent, t: int)
    ensures
        at_time(s.push(e), t) == if e.time == t { at_time(s, t).push(e) } else { at_time(s, t) },
{
    reveal(Seq::filter);
    assert(s.push(e).drop_last() == s);
}

proof fn lemma_filter_none(s: Seq<FlatEvent>, t: int)
    requires
        forall|i: int| 0 <= i < s.len() ==> s[i].time != t,
    ensures
        at_time(s, t) == Seq::<FlatEvent>::empty(),
    decreases s.len(),
{
    reveal(Seq::filter);
    if s.len() > 0 {
        lemma_filter_none(s.drop_last(), t);
    }
}

/// Inserting `e` after every occurrence no later than it, and before every
/// later one, keeps `s` sorted and adds `e` behind the occurrences at its time.
proof fn lemma_insert_at_split(s: Seq<FlatEvent>, p: int, e: FlatEvent)
    requires
        0 <= p <= s.len(),
        sorted_by_time(s),
        forall|i: int| 0 <= i < p ==> s[i].time <= e.time,
        forall|i: int| p <= i < s.len() ==> s[i].time > e.time,
    ensures
        sorted_by_time(s.insert(p, e)),
        forall|t: int| #[trigger] at_time(s.insert(p, e), t) == at_time(s.push(e), t),
{
    let r = s.insert(p, e);
    assert(r == s.take(p) + seq![e] + s.skip(p));
    assert(s == s.take(p) + s.skip(p));
    assert forall|t: int| #[trigger] at_time(r, t) == at_time(s.push(e), t) by {
        let a = s.take(p);
        let b = s.skip(p);
        Seq::filter_distributes_over_add(a + seq![e], b, time_is(t));
        Seq::filter_distributes_over_add(a, seq![e], time_is(t));
        Seq::filter_distributes_over_add(a, b, time_is(t));
        lemma_filter_push(s, e, t);
        lemma_filter_push(Seq::<FlatEvent>::empty(), e, t);
        assert(Seq::<FlatEvent>::empty().push(e) == seq![e]);
        reveal(Seq::filter);
        if e.time == t {
            lemma_filter_none(b, t);
        }
    }
}

fn insert_sorted(out: &mut Vec<FlatEvent>, e: FlatEvent)
    requires
        sorted_by_time(old(out)@),
    ensures
        final(out)@.len() == old(out)@.len() + 1,
        sorted_by_time(final(out)@),
        forall|t: int| #[trigger] at_time(final(out)@, t) == at_time(old(out)@.push(e), t),
{
    let mut p = out.len();
    while p > 0 && out[p - 1].time > e.time
        invariant
            p <= out.len(),
            sorted_by_time(out@),
            forall|i: int| p <= i < out.len() ==> out@[i].time > e.time,
        decreases p,
    {
        p = p - 1;
    }
    proof {
        lemma_insert_at_split(out@, p as int, e);
    }
    out.insert(p, e);
}

/// All occurrences of all definitions, sorted by time; occurrences at the
/// same time keep the order of the definitions and of their time lists.
pub fn generate(defs: Vec<EventDef>) -> (out: Vec<FlatEvent>)
    ensures
        stable_time_sort_of(out@, flatten(defs@)),
{
    let mut out: Vec<FlatEvent> = Vec::new();
    let mut k: usize = 0;
    assert(defs@.take(0) == Seq::<EventDef>::empty());
    while k < defs.len()
        invariant
            k <= defs.len(),
            stable_time_sort_of(out@, flatten(defs@.take(k as int))),
        decreases defs.len() - k,
    {
        let def = &defs[k];
        let ghost before = flatten(defs@.take(k as int));
        let mut j: usize = 0;
        assert(occurrences(*def).take(0) == Seq::<FlatEvent>::empty());
        assert(before + Seq::<FlatEvent>::empty() == before);
        while j < def.times.len()
            invariant
                j <= def.times.len(),
                k < defs.len(),
                def == defs@[k as int],
                stable_time_sort_of(out@, before + occurrences(*def).take(j as int)),
            decreases def.times.len() - j,
        {
            let e = FlatEvent { time: def.times[j], name: def.name, icon_file: def.icon_file };
            let ghost prev = before + occurrences(*def).take(j as int);
            let ghost out_before = out@;
            insert_sorted(&mut out, e);
            proof {
                assert(before + occurrences(*def).take(j + 1) == prev.push(e));
                assert forall|t: int| #[trigger] at_time(out@, t) == at_time(prev.push(e), t) by {
                    lemma_filter_push(prev, e, t);
                    lemma_filter_push(out_before, e, t);
                }
            }
            j = j + 1;
        }
        proof {
            assert(occurrences(*def).take(def.times.len() as int) == occurrences(*def));
            assert(defs@.take(k + 1).drop_last() == defs@.take(k as int));
        }
        k = k + 1;
    }
    assert(defs@.take(defs.len() as int) == defs@);
    out
}

/// Times within `[lo, hi]` stay within it: every occurrence that a stable
/// sort of the flattened definitions holds happens at a time that one of
/// the definitions lists.
pub proof fn law_sorted_events_keep_time_bounds(
    defs: Seq<EventDef>,
    out: Seq<FlatEvent>,
    lo: int,
    hi: int,
    k: int,
)
    requires
        stable_time_sort_of(out, flatten(defs)),
        forall|i: int, j: int|
            0 <= i < defs.len() && 0 <= j < defs[i].times@.len() ==> lo <= #[trigger] defs[i].times@[j]
                <= hi,
        0 <= k < out.len(),
    ensures
        lo <= out[k].time <= hi,
{
    let e = out[k];
    let t = e.time as int;
    out.lemma_filter_contains(time_is(t), k);
    assert(at_time(out, t).contains(e));
    flatten(defs).lemma_filter_contains_rev(time_is(t), e);
    let n = choose|n: int| 0 <= n < flatten(defs).len() && flatten(defs)[n] == e;
    lemma_flatten_times(defs, lo, hi, n);
}

proof fn lemma_flatten_times(defs: Seq<EventDef>, lo: int, hi: int, n: int)
    requires
        forall|i: int, j: int|
            0 <= i < defs.len() && 0 <= j < defs[i].times@.len() ==> lo <= #[trigger] defs[i].times@[j]
                <= hi,
        0 <= n < flatten(defs).len(),
    ensures
        lo <= flatten(defs)[n].time <= hi,
    decreases defs.len(),
{
    let init = defs.drop_last();
    let f = flatten(init);
    let last = defs.last();
    assert(flatten(defs) == f + occurrences(last));
    if n < f.len() {
        assert forall|i: int, j: int|
            0 <= i < init.len() && 0 <= j < init[i].times@.len() implies lo <= #[trigger] init[i].times@[j]
                <= hi by {
            assert(init[i] == defs[i]);
        }
        lemma_flatten_times(init, lo, hi, n);
    } else {
        let j = n - f.len();
        assert(last == defs[defs.len() - 1]);
        assert(occurrences(last)[j].time == last.times@[j]);
    }
}

} // verus!

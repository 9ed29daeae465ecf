//! The order in which the installed models are offered to the user: the one
//! changed last comes first, and models changed at the same time come by
//! name.

use crate::registry::ModelInfo;
use crate::text::{chars_of, same_text};
use vstd::prelude::*;

verus! {

/// Whether `a` comes before `b` when texts are ordered character by
/// character, a text before each of its extensions.
pub open spec fn text_before(a: Seq<char>, b: Seq<char>) -> bool
    decreases a.len(),
{
    if b.len() == 0 {
        false
    } else if a.len() == 0 {
        true
    } else if a[0] != b[0] {
        a[0] < b[0]
    } else {
        text_before(a.drop_first(), b.drop_first())
    }
}

/// Whether the time `a` comes before the time `b`: a missing time before
/// every time that is there, and the others as their texts do.
pub open spec fn time_before(a: Option<Seq<char>>, b: Option<Seq<char>>) -> bool {
    match (a, b) {
        (None, Some(_)) => true,
        (Some(x), Some(y)) => text_before(x, y),
        _ => false,
    }
}

/// The time of the model's last change, as a text.
pub open spec fn changed_at(model: ModelInfo) -> Option<Seq<char>> {
    match model.modified_at {
        Some(at) => Some(at@),
        None => None,
    }
}

/// Whether `a` is shown before `b` on account of what they hold: `a` was
/// changed later, or both at the same time and `a` has the name that comes
/// first.
pub open spec fn shown_before(a: ModelInfo, b: ModelInfo) -> bool {
    time_before(changed_at(b), changed_at(a)) || (changed_at(a) == changed_at(b) && text_before(
        a.name@,
        b.name@,
    ))
}

/// Whether the model at `i` is offered before the model at `j`: it is shown
/// before it or, where neither is shown before the other, it stands before
/// it in the list.
pub open spec fn offered_before(models: Seq<ModelInfo>, i: int, j: int) -> bool {
    shown_before(models[i], models[j]) || (!shown_before(models[j], models[i]) && i < j)
}

/// Whether `order` lists the positions of all the models, each once, in the
/// order in which they are offered.
pub open spec fn is_selection_order(models: Seq<ModelInfo>, order: Seq<usize>) -> bool {
    &&& order.len() == models.len()
    &&& forall|p: int| 0 <= p < order.len() ==> (#[trigger] order[p]) < models.len()
    &&& forall|p: int, q: int|
        0 <= p < q < order.len() ==> offered_before(
            models,
            (#[trigger] order[p]) as int,
            (#[trigger] order[q]) as int,
        )
}

/// Of two texts one comes before the other, or they are the same; and
/// never both come before each other.
pub proof fn lemma_text_order_is_total(a: Seq<char>, b: Seq<char>)
    ensures
        text_before(a, b) || text_before(b, a) || a == b,
        !(text_before(a, b) && text_before(b, a)),
    decreases a.len(),
{
    if a.len() > 0 && b.len() > 0 && a[0] == b[0] {
        lemma_text_order_is_total(a.drop_first(), b.drop_first());
        if a.drop_first() == b.drop_first() {
            assert(a =~= seq![a[0]] + a.drop_first());
            assert(b =~= seq![b[0]] + b.drop_first());
        }
    } else if a.len() == 0 && b.len() == 0 {
        assert(a =~= b);
    }
}

/// What comes before a text comes before all that the text comes before.
pub proof fn lemma_text_order_is_transitive(a: Seq<char>, b: Seq<char>, c: Seq<char>)
    requires
        text_before(a, b),
        text_before(b, c),
    ensures
        text_before(a, c),
    decreases a.len(),
{
    if a.len() > 0 && a[0] == b[0] && b[0] == c[0] {
        lemma_text_order_is_transitive(a.drop_first(), b.drop_first(), c.drop_first());
    }
}

proof fn lemma_time_order(a: Option<Seq<char>>, b: Option<Seq<char>>, c: Option<Seq<char>>)
    ensures
        time_before(a, b) || time_before(b, a) || a == b,
        !(time_before(a, b) && time_before(b, a)),
        time_before(a, b) && time_before(b, c) ==> time_before(a, c),
{
    match (a, b) {
        (Some(x), Some(y)) => {
            lemma_text_order_is_total(x, y);
            match c {
                Some(z) => {
                    if text_before(x, y) && text_before(y, z) {
                        lemma_text_order_is_transitive(x, y, z);
                    }
                },
                None => {},
            }
        },
        _ => {},
    }
}

/// Where `a` is shown before `x`, and `y` is not shown before `x`, `a` is
/// shown before `y` too; and no model is shown before itself or before one
/// that is shown before it.
pub proof fn lemma_shown_before_is_an_order(a: ModelInfo, x: ModelInfo, y: ModelInfo)
    ensures
        shown_before(a, x) && !shown_before(y, x) ==> shown_before(a, y),
        !(shown_before(a, x) && shown_before(x, a)),
{
    let (ta, tx, ty) = (changed_at(a), changed_at(x), changed_at(y));
    lemma_time_order(tx, ta, ty);
    lemma_time_order(ta, tx, ty);
    lemma_time_order(tx, ty, ta);
    lemma_time_order(ty, tx, ta);
    lemma_time_order(ty, ta, tx);
    lemma_text_order_is_total(a.name@, x.name@);
    lemma_text_order_is_total(x.name@, y.name@);
    lemma_text_order_is_total(a.name@, y.name@);
    if text_before(a.name@, x.name@) && text_before(x.name@, y.name@) {
        lemma_text_order_is_transitive(a.name@, x.name@, y.name@);
    }
}

/// The order in which the models are offered is settled by what
/// `is_selection_order` asks: two such orders are the same.
pub proof fn lemma_selection_order_is_unique(
    models: Seq<ModelInfo>,
    first: Seq<usize>,
    second: Seq<usize>,
)
    requires
        is_selection_order(models, first),
        is_selection_order(models, second),
    ensures
        first == second,
{
    assert forall|p: int| 0 <= p < first.len() implies first[p] == second[p] by {
        lemma_same_place(models, first, second, p);
    }
    assert(first =~= second);
}

proof fn lemma_offered_before_is_total(models: Seq<ModelInfo>, i: int, j: int)
    ensures
        i != j ==> (offered_before(models, i, j) != offered_before(models, j, i)),
        !offered_before(models, i, i),
{
    let (a, b) = (models[i], models[j]);
    lemma_shown_before_is_an_order(a, b, b);
    lemma_shown_before_is_an_order(b, a, a);
    lemma_shown_before_is_an_order(a, a, a);
}

/// Whether `v` stands at one of the places.
spec fn occurs(places: Seq<int>, v: int) -> bool {
    exists|k: int| 0 <= k < places.len() && #[trigger] places[k] == v
}

/// A list of numbers below `len`, none of them twice, holds at most `len`
/// numbers, and where it holds `len` of them it holds every number below
/// `len`.
proof fn lemma_pigeons(places: Seq<int>, len: int)
    requires
        0 <= len,
        forall|k: int| 0 <= k < places.len() ==> 0 <= #[trigger] places[k] < len,
        forall|k: int, l: int|
            0 <= k < l < places.len() ==> #[trigger] places[k] != #[trigger] places[l],
    ensures
        places.len() <= len,
        places.len() == len ==> forall|v: int| 0 <= v < len ==> #[trigger] occurs(places, v),
    decreases len,
{
    if len == 0 {
        if places.len() > 0 {
            assert(places[0] < len);
        }
    } else {
        let top = len - 1;
        if occurs(places, top) {
            let k = choose|k: int| 0 <= k < places.len() && #[trigger] places[k] == top;
            let rest = places.remove(k);
            assert forall|m: int| 0 <= m < rest.len() implies 0 <= #[trigger] rest[m] < top by {
                if m < k {
                    assert(rest[m] == places[m]);
                } else {
                    assert(rest[m] == places[m + 1]);
                }
            }
            assert forall|m: int, l: int| 0 <= m < l < rest.len() implies #[trigger] rest[m]
                != #[trigger] rest[l] by {
                let mm = if m < k {
                    m
                } else {
                    m + 1
                };
                let ll = if l < k {
                    l
                } else {
                    l + 1
                };
                assert(rest[m] == places[mm] && rest[l] == places[ll]);
            }
            lemma_pigeons(rest, top);
            if places.len() == len {
                assert forall|v: int| 0 <= v < len implies #[trigger] occurs(places, v) by {
                    if v != top {
                        assert(occurs(rest, v));
                        let j = choose|j: int| 0 <= j < rest.len() && #[trigger] rest[j] == v;
                        let jj = if j < k {
                            j
                        } else {
                            j + 1
                        };
                        assert(places[jj] == v);
                    }
                }
            }
        } else {
            assert forall|m: int| 0 <= m < places.len() implies 0 <= #[trigger] places[m]
                < top by {
                if places[m] == top {
                    assert(occurs(places, top));
                }
            }
            lemma_pigeons(places, top);
        }
    }
}

/// The place at which a selection order holds the position `v`.
proof fn lemma_place_of(models: Seq<ModelInfo>, order: Seq<usize>, v: int) -> (p: int)
    requires
        is_selection_order(models, order),
        0 <= v < models.len(),
    ensures
        0 <= p < order.len(),
        order[p] == v,
{
    let places = Seq::new(order.len(), |k: int| order[k] as int);
    assert forall|k: int, l: int| 0 <= k < l < places.len() implies #[trigger] places[k]
        != #[trigger] places[l] by {
        assert(offered_before(models, order[k] as int, order[l] as int));
        lemma_offered_before_is_total(models, order[k] as int, order[k] as int);
    }
    lemma_pigeons(places, models.len() as int);
    assert(occurs(places, v));
    let p = choose|k: int| 0 <= k < places.len() && #[trigger] places[k] == v;
    assert(places[p] == order[p]);
    p
}

/// The positions that stand before place `p` of one selection order stand
/// before the place of `first[p]` in every other, so that place is not
/// before `p`.
proof fn lemma_place_is_not_earlier(
    models: Seq<ModelInfo>,
    first: Seq<usize>,
    second: Seq<usize>,
    p: int,
    q: int,
)
    requires
        is_selection_order(models, first),
        is_selection_order(models, second),
        0 <= p < first.len(),
        0 <= q < second.len(),
        second[q] == first[p],
    ensures
        p <= q,
{
    let v = first[p] as int;
    let moved = Seq::new(
        p as nat,
        |k: int| choose|l: int| 0 <= l < second.len() && second[l] == first[k],
    );
    assert forall|k: int| 0 <= k < moved.len() implies 0 <= #[trigger] moved[k] < q && second[moved[k]]
        == first[k] by {
        let l0 = lemma_place_of(models, second, first[k] as int);
        let l = moved[k];
        assert(0 <= l < second.len() && second[l] == first[k]);
        assert(offered_before(models, first[k] as int, v));
        lemma_offered_before_is_total(models, first[k] as int, v);
        lemma_offered_before_is_total(models, v, v);
        if l > q {
            assert(offered_before(models, second[q] as int, second[l] as int));
        }
    }
    assert forall|k: int, l: int| 0 <= k < l < moved.len() implies #[trigger] moved[k]
        != #[trigger] moved[l] by {
        assert(second[moved[k]] == first[k]);
        assert(second[moved[l]] == first[l]);
        assert(offered_before(models, first[k] as int, first[l] as int));
        lemma_offered_before_is_total(models, first[k] as int, first[k] as int);
    }
    lemma_pigeons(moved, q);
}

proof fn lemma_same_place(models: Seq<ModelInfo>, first: Seq<usize>, second: Seq<usize>, p: int)
    requires
        is_selection_order(models, first),
        is_selection_order(models, second),
        0 <= p < first.len(),
    ensures
        first[p] == second[p],
{
    let q = lemma_place_of(models, second, first[p] as int);
    lemma_place_is_not_earlier(models, first, second, p, q);
    lemma_place_is_not_earlier(models, second, first, q, p);
}

/// Tests whether `a` comes before `b` in the order of texts.
pub fn text_comes_before(a: &Vec<char>, b: &Vec<char>) -> (r: bool)
    ensures
        r == text_before(a@, b@),
{
    let mut i: usize = 0;
    assert(a@.skip(0) =~= a@ && b@.skip(0) =~= b@);
    loop
        invariant
            i <= a.len(),
            i <= b.len(),
            text_before(a@, b@) == text_before(a@.skip(i as int), b@.skip(i as int)),
        decreases a.len() - i,
    {
        let ghost ra = a@.skip(i as int);
        let ghost rb = b@.skip(i as int);
        if i >= b.len() {
            return false;
        }
        if i >= a.len() {
            return true;
        }
        proof {
            assert(ra[0] == a@[i as int] && rb[0] == b@[i as int]);
            assert(ra.drop_first() =~= a@.skip(i + 1));
            assert(rb.drop_first() =~= b@.skip(i + 1));
        }
        if a[i] != b[i] {
            return a[i] < b[i];
        }
        i += 1;
    }
}

/// Tests whether `a` is shown before `b`.
pub fn is_shown_before(a: &ModelInfo, b: &ModelInfo) -> (r: bool)
    ensures
        r == shown_before(*a, *b),
{
    let by_name = text_comes_before(&chars_of(a.name.as_str()), &chars_of(b.name.as_str()));
    match (&a.modified_at, &b.modified_at) {
        (Some(x), Some(y)) => {
            let vx = chars_of(x.as_str());
            let vy = chars_of(y.as_str());
            if text_comes_before(&vy, &vx) {
                true
            } else {
                same_text(x.as_str(), y.as_str()) && by_name
            }
        },
        (Some(_), None) => true,
        (None, Some(_)) => false,
        (None, None) => by_name,
    }
}

/// Lists the positions of the models in the order in which they are
/// offered for selection.
pub fn selection_order(models: &Vec<ModelInfo>) -> (order: Vec<usize>)
    ensures
        is_selection_order(models@, order@),
{
    let mut order: Vec<usize> = Vec::new();
    let mut i: usize = 0;
    while i < models.len()
        invariant
            i <= models.len(),
            order.len() == i,
            forall|p: int| 0 <= p < order.len() ==> (#[trigger] order@[p]) < i,
            forall|p: int, q: int|
                0 <= p < q < order.len() ==> offered_before(
                    models@,
                    (#[trigger] order@[p]) as int,
                    (#[trigger] order@[q]) as int,
                ),
        decreases models.len() - i,
    {
        let mut at: usize = order.len();
        while at > 0 && is_shown_before(&models[i], &models[order[at - 1]])
            invariant
                at <= order.len(),
                i < models.len(),
                order.len() == i,
                forall|p: int| 0 <= p < order.len() ==> (#[trigger] order@[p]) < i,
                forall|q: int|
                    at <= q < order.len() ==> shown_before(
                        models@[i as int],
                        models@[(#[trigger] order@[q]) as int],
                    ),
            decreases at,
        {
            at -= 1;
        }
        let ghost before = order@;
        order.insert(at, i);
        proof {
            let after = order@;
            assert forall|p: int| 0 <= p < after.len() implies (#[trigger] after[p]) < i + 1 by {
                if p < at {
                    assert(after[p] == before[p]);
                } else if p > at {
                    assert(after[p] == before[p - 1]);
                }
            }
            assert forall|p: int, q: int| 0 <= p < q < after.len() implies offered_before(
                models@,
                (#[trigger] after[p]) as int,
                (#[trigger] after[q]) as int,
            ) by {
                let bp = if p < at {
                    p
                } else {
                    p - 1
                };
                let bq = if q < at {
                    q
                } else {
                    q - 1
                };
                if p != at {
                    assert(after[p] == before[bp]);
                }
                if q != at {
                    assert(after[q] == before[bq]);
                }
                if p == at {
                    assert(after[p] == i);
                    assert(shown_before(models@[i as int], models@[before[bq] as int]));
                } else if q == at {
                    assert(after[q] == i);
                    // before[p] stands before place `at`, and the model at
                    // place `at - 1` is one that `i` is not shown before.
                    let last = before[at - 1];
                    assert(!shown_before(models@[i as int], models@[last as int]));
                    if p < at - 1 {
                        assert(offered_before(models@, before[p] as int, last as int));
                        lemma_shown_before_is_an_order(
                            models@[last as int],
                            models@[before[p] as int],
                            models@[before[p] as int],
                        );
                    }
                    lemma_shown_before_is_an_order(
                        models@[i as int],
                        models@[before[p] as int],
                        models@[last as int],
                    );
                    assert(!shown_before(models@[i as int], models@[before[p] as int]));
                    assert(before[p] < i);
                } else {
                    assert(offered_before(models@, before[bp] as int, before[bq] as int));
                }
            }
        }
        i += 1;
    }
    order
}

/// Why no model can be offered: none is installed.
#[derive(Clone, Copy, Debug)]
pub struct NothingToSelect;

impl NothingToSelect {
    /// The text shown where no model is installed.
    pub fn message(&self) -> (r: &'static str)
        ensures
            r@ == "No models found. Use `ollama pull ...` first."@,
    {
        "No models found. Use `ollama pull ...` first."
    }
}

/// Lists the positions of the models in the order in which they are
/// offered, or reports that there is none to offer.
pub fn offer(models: &Vec<ModelInfo>) -> (r: Result<Vec<usize>, NothingToSelect>)
    ensures
        r is Err <==> models.len() == 0,
        r matches Ok(order) ==> is_selection_order(models@, order@),
{
    if models.len() == 0 {
        Err(NothingToSelect)
    } else {
        Ok(selection_order(models))
    }
}

} // verus!

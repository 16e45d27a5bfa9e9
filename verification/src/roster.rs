//! The list of services that is kept for a scope, and how a new list is merged
//! into it.

use vstd::prelude::*;

use crate::dinit::{DinitService, ServiceView};

verus! {

/// Where the first service called `name` stands in `list`: its length if nowhere.
pub open spec fn place(list: Seq<ServiceView>, name: Seq<char>) -> nat
    decreases list.len(),
{
    if list.len() == 0 || list[0].name == name {
        0
    } else {
        1 + place(list.drop_first(), name)
    }
}

/// The first service called `name` in `list`.
pub open spec fn lookup(list: Seq<ServiceView>, name: Seq<char>) -> Option<ServiceView> {
    if place(list, name) < list.len() {
        Some(list[place(list, name) as int])
    } else {
        None
    }
}

/// Whether `list` has a service called `name`.
pub open spec fn has_name(list: Seq<ServiceView>, name: Seq<char>) -> bool {
    exists|i: int| 0 <= i < list.len() && (#[trigger] list[i]).name == name
}

/// Whether two records tell the same of a service's states.
pub open spec fn same_states(a: ServiceView, b: ServiceView) -> bool {
    &&& a.active_state == b.active_state
    &&& a.sub_state == b.sub_state
    &&& a.load_state == b.load_state
    &&& a.unit_file_state == b.unit_file_state
}

/// `list` with `s` in place of the first service of its name.
pub open spec fn put(list: Seq<ServiceView>, s: ServiceView) -> Seq<ServiceView> {
    if place(list, s.name) < list.len() {
        list.update(place(list, s.name) as int, s)
    } else {
        list
    }
}

/// `list` after news of one service: a service that is not there is added at the
/// end, and a record is replaced only if the states have changed, so that details
/// that were looked up stay.
pub open spec fn absorb(list: Seq<ServiceView>, s: ServiceView) -> Seq<ServiceView> {
    match lookup(list, s.name) {
        Some(known) => if same_states(known, s) {
            list
        } else {
            put(list, s)
        },
        None => list.push(s),
    }
}

/// `list` after news of several services, one after the other.
pub open spec fn absorb_all(list: Seq<ServiceView>, news: Seq<ServiceView>) -> Seq<ServiceView>
    decreases news.len(),
{
    if news.len() == 0 {
        list
    } else {
        absorb(absorb_all(list, news.drop_last()), news.last())
    }
}

/// `list` after a new list has come: it is taken over as it is if nothing was
/// there; else it is merged in, and services that it does not have leave.
pub open spec fn refreshed(list: Seq<ServiceView>, news: Seq<ServiceView>) -> Seq<ServiceView> {
    if list.len() == 0 {
        news
    } else {
        absorb_all(list, news).filter(|s: ServiceView| has_name(news, s.name))
    }
}

/// The place of a name is the first one.
pub proof fn lemma_place(list: Seq<ServiceView>, name: Seq<char>)
    ensures
        place(list, name) <= list.len(),
        forall|i: int| 0 <= i < place(list, name) ==> (#[trigger] list[i]).name != name,
        place(list, name) < list.len() ==> list[place(list, name) as int].name == name,
        place(list, name) < list.len() <==> has_name(list, name),
    decreases list.len(),
{
    if list.len() > 0 && list[0].name != name {
        let t = list.drop_first();
        lemma_place(t, name);
        assert forall|i: int| 0 <= i < place(list, name) implies (#[trigger] list[i]).name
            != name by {
            if i > 0 {
                assert(list[i] == t[i - 1]);
            }
        }
    }
}

/// A place that is the first one of a name is its place.
pub proof fn lemma_place_is(list: Seq<ServiceView>, name: Seq<char>, n: nat)
    requires
        n <= list.len(),
        forall|i: int| 0 <= i < n ==> (#[trigger] list[i]).name != name,
        n < list.len() ==> list[n as int].name == name,
    ensures
        place(list, name) == n,
{
    lemma_place(list, name);
    if place(list, name) < n {
        assert(list[place(list, name) as int].name != name);
    }
}

/// Where the first service called `name` stands in `list`: its length if nowhere.
pub fn position(list: &Vec<DinitService>, name: &String) -> (n: usize)
    ensures
        n == place(list.deep_view(), name@),
        n <= list@.len(),
{
    let mut i: usize = 0;
    let ghost all = list.deep_view();
    while i < list.len()
        invariant
            all == list.deep_view(),
            i <= list@.len(),
            forall|j: int| 0 <= j < i ==> (#[trigger] all[j]).name != name@,
        decreases list@.len() - i,
    {
        if list[i].name == *name {
            proof {
                lemma_place_is(all, name@, i as nat);
            }
            return i;
        }
        i += 1;
    }
    proof {
        lemma_place_is(all, name@, i as nat);
    }
    i
}

/// The value of an optional service.
pub open spec fn opt_service(s: Option<DinitService>) -> Option<ServiceView> {
    match s {
        Some(t) => Some(t@),
        None => None,
    }
}

/// The first service called `name` in `list`.
pub fn find_service(list: &Vec<DinitService>, name: &String) -> (s: Option<DinitService>)
    ensures
        opt_service(s) == lookup(list.deep_view(), name@),
{
    let i = position(list, name);
    if i < list.len() {
        Some(list[i].clone())
    } else {
        None
    }
}

/// Puts `s` in the place of the first service of its name, if there is one.
pub fn replace_service(list: &mut Vec<DinitService>, s: DinitService)
    ensures
        final(list).deep_view() == put(old(list).deep_view(), s@),
{
    let i = position(list, &s.name);
    let ghost before = list.deep_view();
    if i < list.len() {
        list.set(i, s);
        assert(list.deep_view() == before.update(i as int, s@));
    }
}

fn states_changed(a: &DinitService, b: &DinitService) -> (r: bool)
    ensures
        r == !same_states(a@, b@),
{
    a.active_state != b.active_state || a.sub_state != b.sub_state || a.load_state != b.load_state
        || a.unit_file_state != b.unit_file_state
}

/// Takes news of one service into `list`.
pub fn absorb_service(list: &mut Vec<DinitService>, s: &DinitService)
    ensures
        final(list).deep_view() == absorb(old(list).deep_view(), s@),
{
    let i = position(list, &s.name);
    let ghost before = list.deep_view();
    if i < list.len() {
        if states_changed(&list[i], s) {
            replace_service(list, s.clone());
        }
    } else {
        let t = s.clone();
        list.push(t);
        assert(list.deep_view() == before.push(s@));
    }
}

/// Merges a new list into `list`.
pub fn refresh_services(list: &mut Vec<DinitService>, news: Vec<DinitService>)
    ensures
        final(list).deep_view() == refreshed(old(list).deep_view(), news.deep_view()),
{
    let ghost start = list.deep_view();
    let ghost all = news.deep_view();
    if list.len() == 0 {
        *list = news;
        return;
    }
    let mut i: usize = 0;
    assert(all.take(0) == Seq::<ServiceView>::empty());
    while i < news.len()
        invariant
            all == news.deep_view(),
            i <= news@.len(),
            list.deep_view() == absorb_all(start, all.take(i as int)),
        decreases news@.len() - i,
    {
        proof {
            assert(all[i as int] == news@[i as int]@);
            assert(all.take(i + 1).drop_last() == all.take(i as int));
        }
        absorb_service(list, &news[i]);
        i += 1;
    }
    assert(all.take(all.len() as int) == all);
    let ghost merged = list.deep_view();
    let ghost keep = |s: ServiceView| has_name(all, s.name);
    let mut kept: Vec<DinitService> = Vec::new();
    let mut k: usize = 0;
    proof {
        reveal(Seq::filter);
        assert(merged.take(0) == Seq::<ServiceView>::empty());
        assert(kept.deep_view() == Seq::<ServiceView>::empty());
    }
    while k < list.len()
        invariant
            all == news.deep_view(),
            merged == list.deep_view(),
            keep == (|s: ServiceView| has_name(all, s.name)),
            k <= list@.len(),
            kept.deep_view() == merged.take(k as int).filter(keep),
        decreases list@.len() - k,
    {
        let ghost before = kept.deep_view();
        proof {
            assert(merged[k as int] == list@[k as int]@);
            assert(merged.take(k + 1) == merged.take(k as int).push(merged[k as int]));
            merged.take(k as int).lemma_filter_push(merged[k as int], keep);
            lemma_place(all, list@[k as int].name@);
        }
        if position(&news, &list[k].name) < news.len() {
            let s = list[k].clone();
            kept.push(s);
            assert(kept.deep_view() == before.push(s@));
        }
        k += 1;
    }
    assert(merged.take(merged.len() as int) == merged);
    *list = kept;
}

} // verus!

//! What holds of every merge of a new list into the list that is kept.

use vstd::prelude::*;

use crate::dinit::ServiceView;
use crate::roster::{
    absorb, absorb_all, has_name, lemma_place, lemma_place_is, lookup, place, put, refreshed,
    same_states,
};

verus! {

/// No two services of a list have the same name.
pub open spec fn distinct_names(list: Seq<ServiceView>) -> bool {
    forall|i: int, j: int|
        0 <= i < j < list.len() ==> (#[trigger] list[i]).name != (#[trigger] list[j]).name
}

/// The names of a list, in its order.
pub open spec fn names(list: Seq<ServiceView>) -> Seq<Seq<char>> {
    list.map_values(|s: ServiceView| s.name)
}

proof fn lemma_has_name_push(list: Seq<ServiceView>, s: ServiceView, name: Seq<char>)
    ensures
        has_name(list.push(s), name) <==> has_name(list, name) || s.name == name,
{
    if has_name(list, name) {
        let i = choose|i: int| 0 <= i < list.len() && (#[trigger] list[i]).name == name;
        assert(list.push(s)[i].name == name);
    }
    if s.name == name {
        assert(list.push(s)[list.len() as int].name == name);
    }
    if has_name(list.push(s), name) {
        let i = choose|i: int|
            0 <= i < list.push(s).len() && (#[trigger] list.push(s)[i]).name == name;
        if i < list.len() {
            assert(list[i].name == name);
        }
    }
}

proof fn lemma_lookup_push(list: Seq<ServiceView>, s: ServiceView, name: Seq<char>)
    ensures
        lookup(list.push(s), name) == (match lookup(list, name) {
            Some(k) => Some(k),
            None => if s.name == name {
                Some(s)
            } else {
                None
            },
        }),
{
    let p = list.push(s);
    lemma_place(list, name);
    if place(list, name) < list.len() {
        assert(p[place(list, name) as int] == list[place(list, name) as int]);
        lemma_place_is(p, name, place(list, name));
    } else if s.name == name {
        lemma_place_is(p, name, list.len());
    } else {
        lemma_place_is(p, name, p.len());
    }
}

/// A service that is put in the place of its name is found there, and every other
/// name is found as before.
proof fn lemma_put(list: Seq<ServiceView>, s: ServiceView, name: Seq<char>)
    ensures
        put(list, s).len() == list.len(),
        names(put(list, s)) == names(list),
        has_name(put(list, s), name) <==> has_name(list, name),
        lookup(put(list, s), name) == (if name == s.name && has_name(list, name) {
            Some(s)
        } else {
            lookup(list, name)
        }),
{
    let q = put(list, s);
    lemma_place(list, s.name);
    lemma_place(list, name);
    assert forall|i: int| 0 <= i < list.len() implies (#[trigger] q[i]).name == list[i].name by {}
    assert(names(q) == names(list));
    lemma_place_is(q, name, place(list, name));
    lemma_place(q, name);
}

/// News of a service concern that service alone.
proof fn lemma_absorb(list: Seq<ServiceView>, s: ServiceView, name: Seq<char>)
    ensures
        has_name(absorb(list, s), name) <==> has_name(list, name) || s.name == name,
        name != s.name ==> lookup(absorb(list, s), name) == lookup(list, name),
        lookup(absorb(list, s), s.name) == (match lookup(list, s.name) {
            Some(k) if same_states(k, s) => Some(k),
            _ => Some(s),
        }),
        names(absorb(list, s)) == (if has_name(list, s.name) {
            names(list)
        } else {
            names(list).push(s.name)
        }),
{
    lemma_place(list, s.name);
    match lookup(list, s.name) {
        Some(k) => {
            lemma_put(list, s, name);
            lemma_put(list, s, s.name);
        },
        None => {
            lemma_has_name_push(list, s, name);
            lemma_lookup_push(list, s, name);
            lemma_lookup_push(list, s, s.name);
            assert(names(list.push(s)) == names(list).push(s.name));
        },
    }
}

proof fn lemma_has_name_last(news: Seq<ServiceView>, name: Seq<char>)
    requires
        news.len() > 0,
    ensures
        has_name(news, name) <==> has_name(news.drop_last(), name) || news.last().name == name,
{
    lemma_has_name_push(news.drop_last(), news.last(), name);
    assert(news.drop_last().push(news.last()) == news);
}

proof fn lemma_distinct_drop_last(news: Seq<ServiceView>)
    requires
        distinct_names(news),
        news.len() > 0,
    ensures
        distinct_names(news.drop_last()),
        !has_name(news.drop_last(), news.last().name),
{
    let d = news.drop_last();
    assert forall|i: int, j: int| 0 <= i < j < d.len() implies (#[trigger] d[i]).name != (
    #[trigger] d[j]).name by {
        assert(news[i].name != news[j].name);
    }
    if has_name(d, news.last().name) {
        let i = choose|i: int| 0 <= i < d.len() && (#[trigger] d[i]).name == news.last().name;
        assert(news[i].name != news[news.len() - 1].name);
    }
}

proof fn lemma_absorb_all_names(list: Seq<ServiceView>, news: Seq<ServiceView>, name: Seq<char>)
    ensures
        has_name(absorb_all(list, news), name) <==> has_name(list, name) || has_name(news, name),
    decreases news.len(),
{
    if news.len() > 0 {
        lemma_absorb_all_names(list, news.drop_last(), name);
        lemma_absorb(absorb_all(list, news.drop_last()), news.last(), name);
        lemma_has_name_last(news, name);
    }
}

proof fn lemma_absorb_all_lookup(list: Seq<ServiceView>, news: Seq<ServiceView>, name: Seq<char>)
    requires
        distinct_names(news),
    ensures
        lookup(absorb_all(list, news), name) == (match lookup(news, name) {
            Some(s) => match lookup(list, name) {
                Some(k) if same_states(k, s) => Some(k),
                _ => Some(s),
            },
            None => lookup(list, name),
        }),
    decreases news.len(),
{
    if news.len() > 0 {
        let d = news.drop_last();
        let s = news.last();
        lemma_distinct_drop_last(news);
        lemma_absorb_all_lookup(list, d, name);
        lemma_absorb(absorb_all(list, d), s, name);
        lemma_lookup_push(d, s, name);
        assert(d.push(s) == news);
        lemma_place(d, name);
    }
}

proof fn lemma_distinct_push(list: Seq<ServiceView>, s: ServiceView)
    requires
        distinct_names(list),
        !has_name(list, s.name),
    ensures
        distinct_names(list.push(s)),
{
    let p = list.push(s);
    assert forall|i: int, j: int| 0 <= i < j < p.len() implies (#[trigger] p[i]).name != (
    #[trigger] p[j]).name by {
        assert(p[i] == list[i]);
        if j < list.len() {
            assert(p[j] == list[j]);
        }
    }
}

proof fn lemma_distinct_same_names(a: Seq<ServiceView>, b: Seq<ServiceView>)
    requires
        distinct_names(a),
        names(a) == names(b),
    ensures
        distinct_names(b),
{
    assert(a.len() == names(a).len() && b.len() == names(b).len());
    assert forall|i: int, j: int| 0 <= i < j < b.len() implies (#[trigger] b[i]).name != (
    #[trigger] b[j]).name by {
        assert(names(b)[i] == b[i].name && names(b)[j] == b[j].name);
        assert(names(a)[i] == a[i].name && names(a)[j] == a[j].name);
    }
}

proof fn lemma_absorb_all_distinct(list: Seq<ServiceView>, news: Seq<ServiceView>)
    requires
        distinct_names(list),
    ensures
        distinct_names(absorb_all(list, news)),
    decreases news.len(),
{
    if news.len() > 0 {
        let l = absorb_all(list, news.drop_last());
        let s = news.last();
        lemma_absorb_all_distinct(list, news.drop_last());
        lemma_absorb(l, s, s.name);
        lemma_place(l, s.name);
        if has_name(l, s.name) {
            lemma_distinct_same_names(l, absorb(l, s));
        } else {
            lemma_distinct_push(l, s);
        }
    }
}

/// What a filter by name keeps of a list: of the names that it lets pass,
/// everything; of others, nothing.
proof fn lemma_filter(list: Seq<ServiceView>, pass: spec_fn(Seq<char>) -> bool, name: Seq<char>)
    ensures
        has_name(list.filter(|s: ServiceView| pass(s.name)), name) <==> has_name(list, name)
            && pass(name),
        pass(name) ==> lookup(list.filter(|s: ServiceView| pass(s.name)), name) == lookup(
            list,
            name,
        ),
    decreases list.len(),
{
    reveal(Seq::filter);
    let p = |s: ServiceView| pass(s.name);
    if list.len() > 0 {
        let d = list.drop_last();
        let s = list.last();
        lemma_filter(d, pass, name);
        assert(d.push(s) == list);
        lemma_has_name_push(d, s, name);
        lemma_lookup_push(d, s, name);
        lemma_has_name_push(d.filter(p), s, name);
        lemma_lookup_push(d.filter(p), s, name);
    }
}

proof fn lemma_filter_names(list: Seq<ServiceView>, pass: spec_fn(Seq<char>) -> bool)
    ensures
        names(list.filter(|s: ServiceView| pass(s.name))) == names(list).filter(pass),
    decreases list.len(),
{
    reveal(Seq::filter);
    let p = |s: ServiceView| pass(s.name);
    if list.len() > 0 {
        let d = list.drop_last();
        let s = list.last();
        lemma_filter_names(d, pass);
        assert(names(list).drop_last() == names(d));
        assert(names(list).last() == s.name);
        assert(names(d.filter(p).push(s)) == names(d.filter(p)).push(s.name));
    } else {
        assert(names(list) == Seq::<Seq<char>>::empty());
        assert(names(list.filter(p)) == Seq::<Seq<char>>::empty());
    }
}

proof fn lemma_filter_distinct(list: Seq<ServiceView>, pass: spec_fn(Seq<char>) -> bool)
    requires
        distinct_names(list),
    ensures
        distinct_names(list.filter(|s: ServiceView| pass(s.name))),
    decreases list.len(),
{
    reveal(Seq::filter);
    let p = |s: ServiceView| pass(s.name);
    if list.len() > 0 {
        let d = list.drop_last();
        let s = list.last();
        lemma_distinct_drop_last(list);
        lemma_filter_distinct(d, pass);
        lemma_filter(d, pass, s.name);
        if p(s) {
            lemma_distinct_push(d.filter(p), s);
        }
    }
}

proof fn lemma_filter_by_news(list: Seq<ServiceView>, news: Seq<ServiceView>)
    ensures
        list.filter(|s: ServiceView| has_name(news, s.name)) == list.filter(
            |s: ServiceView| (|n: Seq<char>| has_name(news, n))(s.name),
        ),
{
    assert((|s: ServiceView| has_name(news, s.name)) =~= (|s: ServiceView|
        (|n: Seq<char>| has_name(news, n))(s.name)));
}

/// After a refresh the list has exactly the services, by name, of the new list:
/// new ones have been added, and those that no longer exist have left.
pub proof fn law_refresh_takes_over_the_names(
    list: Seq<ServiceView>,
    news: Seq<ServiceView>,
    name: Seq<char>,
)
    ensures
        has_name(refreshed(list, news), name) <==> has_name(news, name),
{
    if list.len() > 0 {
        lemma_absorb_all_names(list, news, name);
        lemma_filter(absorb_all(list, news), |n: Seq<char>| has_name(news, n), name);
        lemma_filter_by_news(absorb_all(list, news), news);
    }
}

/// A refresh brings no name in twice: a list with distinct names stays one. What
/// is kept counts, or the new list where nothing is kept yet.
pub proof fn law_refresh_keeps_names_distinct(list: Seq<ServiceView>, news: Seq<ServiceView>)
    requires
        list.len() > 0 ==> distinct_names(list),
        list.len() == 0 ==> distinct_names(news),
    ensures
        distinct_names(refreshed(list, news)),
{
    if list.len() > 0 {
        lemma_absorb_all_distinct(list, news);
        lemma_filter_distinct(absorb_all(list, news), |n: Seq<char>| has_name(news, n));
        lemma_filter_by_news(absorb_all(list, news), news);
    }
}

/// After a refresh each service has the states that the new list gives. Its
/// record is the one that was kept, with the details that were looked up, if the
/// states have not changed; else it is the new one.
pub proof fn law_refresh_updates_only_what_changed(
    list: Seq<ServiceView>,
    news: Seq<ServiceView>,
    i: int,
)
    requires
        distinct_names(news),
        0 <= i < news.len(),
    ensures
        lookup(refreshed(list, news), news[i].name) == (match lookup(list, news[i].name) {
            Some(k) if same_states(k, news[i]) => Some(k),
            _ => Some(news[i]),
        }),
        lookup(refreshed(list, news), news[i].name) matches Some(r) && same_states(r, news[i]),
{
    let name = news[i].name;
    assert(has_name(news, name));
    assert forall|j: int| 0 <= j < i implies (#[trigger] news[j]).name != name by {
        assert(news[j].name != news[i].name);
    }
    lemma_place_is(news, name, i as nat);
    if list.len() > 0 {
        lemma_absorb_all_lookup(list, news, name);
        lemma_filter(absorb_all(list, news), |n: Seq<char>| has_name(news, n), name);
        lemma_filter_by_news(absorb_all(list, news), news);
    }
}

proof fn lemma_absorb_all_order(list: Seq<ServiceView>, news: Seq<ServiceView>)
    requires
        distinct_names(news),
    ensures
        names(absorb_all(list, news)) == names(list) + names(news).filter(
            |n: Seq<char>| !has_name(list, n),
        ),
    decreases news.len(),
{
    reveal(Seq::filter);
    let fresh = |n: Seq<char>| !has_name(list, n);
    if news.len() > 0 {
        let d = news.drop_last();
        let s = news.last();
        lemma_distinct_drop_last(news);
        lemma_absorb_all_order(list, d);
        lemma_absorb_all_names(list, d, s.name);
        lemma_absorb(absorb_all(list, d), s, s.name);
        assert(names(news).drop_last() == names(d));
        assert(names(news).last() == s.name);
        if fresh(s.name) {
            assert(names(news).filter(fresh) == names(d).filter(fresh).push(s.name));
        }
    } else {
        assert(names(news) == Seq::<Seq<char>>::empty());
        assert(names(list) + names(news).filter(fresh) == names(list));
    }
}

proof fn lemma_filter_all<A>(s: Seq<A>, p: spec_fn(A) -> bool)
    requires
        forall|i: int| 0 <= i < s.len() ==> p(#[trigger] s[i]),
    ensures
        s.filter(p) == s,
    decreases s.len(),
{
    reveal(Seq::filter);
    if s.len() > 0 {
        let d = s.drop_last();
        assert forall|i: int| 0 <= i < d.len() implies p(#[trigger] d[i]) by {
            assert(d[i] == s[i]);
        }
        lemma_filter_all(d, p);
        assert(p(s[s.len() - 1]));
        assert(d.push(s.last()) == s);
    }
}

/// A refresh keeps the order: what stays comes first, as it stood, and what is
/// new follows in the order of the new list.
pub proof fn law_refresh_keeps_the_order(list: Seq<ServiceView>, news: Seq<ServiceView>)
    requires
        distinct_names(news),
    ensures
        names(refreshed(list, news)) == names(list).filter(|n: Seq<char>| has_name(news, n))
            + names(news).filter(|n: Seq<char>| !has_name(list, n)),
{
    let known = |n: Seq<char>| has_name(news, n);
    let fresh = |n: Seq<char>| !has_name(list, n);
    let added = names(news).filter(fresh);
    if list.len() > 0 {
        let all = absorb_all(list, news);
        lemma_absorb_all_order(list, news);
        lemma_filter_by_news(all, news);
        lemma_filter_names(all, known);
        Seq::filter_distributes_over_add(names(list), added, known);
        assert forall|i: int| 0 <= i < added.len() implies known(#[trigger] added[i]) by {
            assert(added.contains(added[i]));
            names(news).lemma_filter_contains_rev(fresh, added[i]);
            let j = choose|j: int| 0 <= j < names(news).len() && names(news)[j] == added[i];
            assert(news[j].name == added[i]);
        }
        lemma_filter_all(added, known);
    } else {
        assert forall|i: int| 0 <= i < names(news).len() implies fresh(#[trigger] names(news)[i]) by {
            assert(!has_name(list, names(news)[i]));
        }
        lemma_filter_all(names(news), fresh);
        assert(names(list) == Seq::<Seq<char>>::empty());
        reveal(Seq::filter);
        assert(names(list).filter(known) + names(news) == names(news));
    }
}

proof fn lemma_absorb_all_known(list: Seq<ServiceView>, news: Seq<ServiceView>)
    requires
        forall|i: int|
            0 <= i < news.len() ==> (lookup(list, (#[trigger] news[i]).name) matches Some(k)
                && same_states(k, news[i])),
    ensures
        absorb_all(list, news) == list,
    decreases news.len(),
{
    if news.len() > 0 {
        let d = news.drop_last();
        assert forall|i: int| 0 <= i < d.len() implies (lookup(list, (#[trigger] d[i]).name)
            matches Some(k) && same_states(k, d[i])) by {
            assert(d[i] == news[i]);
        }
        lemma_absorb_all_known(list, d);
        assert(news.last() == news[news.len() - 1]);
    }
}

/// A second refresh with the same list changes nothing.
pub proof fn law_refresh_twice_is_refresh_once(list: Seq<ServiceView>, news: Seq<ServiceView>)
    requires
        distinct_names(news),
    ensures
        refreshed(refreshed(list, news), news) == refreshed(list, news),
{
    let r = refreshed(list, news);
    if r.len() > 0 {
        assert forall|i: int| 0 <= i < news.len() implies (lookup(r, (#[trigger] news[i]).name)
            matches Some(k) && same_states(k, news[i])) by {
            law_refresh_updates_only_what_changed(list, news, i);
        }
        lemma_absorb_all_known(r, news);
        let p = |s: ServiceView| has_name(news, s.name);
        assert forall|i: int| 0 <= i < r.len() implies p(#[trigger] r[i]) by {
            assert(has_name(r, r[i].name));
            law_refresh_takes_over_the_names(list, news, r[i].name);
        }
        lemma_filter_all(r, p);
    } else if news.len() > 0 {
        assert(has_name(news, news[0].name));
        law_refresh_takes_over_the_names(list, news, news[0].name);
    }
}

/// Putting a service in the place of its name changes that place alone: all names
/// stay where they are.
pub proof fn law_put_keeps_the_names(list: Seq<ServiceView>, s: ServiceView)
    ensures
        names(put(list, s)) == names(list),
        forall|i: int|
            0 <= i < list.len() && i != place(list, s.name) ==> #[trigger] put(list, s)[i]
                == list[i],
        distinct_names(list) ==> distinct_names(put(list, s)),
{
    lemma_put(list, s, s.name);
    if distinct_names(list) {
        lemma_distinct_same_names(list, put(list, s));
    }
}

/// What is found under a name is the first service of that name, and nothing is
/// found just when there is none.
pub proof fn law_the_first_of_a_name_is_found(list: Seq<ServiceView>, name: Seq<char>, i: int)
    ensures
        0 <= i < list.len() && list[i].name == name && (forall|j: int|
            0 <= j < i ==> (#[trigger] list[j]).name != name) ==> lookup(list, name) == Some(
            list[i],
        ),
        (forall|j: int| 0 <= j < list.len() ==> (#[trigger] list[j]).name != name) ==> lookup(
            list,
            name,
        ) is None,
{
    lemma_place(list, name);
    if 0 <= i < list.len() && list[i].name == name && (forall|j: int|
        0 <= j < i ==> (#[trigger] list[j]).name != name) {
        lemma_place_is(list, name, i as nat);
    }
    if forall|j: int| 0 <= j < list.len() ==> (#[trigger] list[j]).name != name {
        lemma_place_is(list, name, list.len());
    }
}

/// A list that comes where nothing is kept is taken over as it is, names that come
/// twice among it.
pub proof fn law_first_list_is_taken_over(news: Seq<ServiceView>)
    ensures
        refreshed(Seq::<ServiceView>::empty(), news) == news,
{
}

/// A service that is put into a list goes to the first place of its name, and to
/// none if its name is not there.
pub proof fn law_put_goes_to_the_first_place(list: Seq<ServiceView>, s: ServiceView, i: int)
    ensures
        0 <= i < list.len() && list[i].name == s.name && (forall|j: int|
            0 <= j < i ==> (#[trigger] list[j]).name != s.name) ==> put(list, s) == list.update(
            i,
            s,
        ),
        !has_name(list, s.name) ==> put(list, s) == list,
{
    lemma_place(list, s.name);
    if 0 <= i < list.len() && list[i].name == s.name && (forall|j: int|
        0 <= j < i ==> (#[trigger] list[j]).name != s.name) {
        lemma_place_is(list, s.name, i as nat);
    }
}

/// After a refresh a service has each of the four states that the new list gives,
/// and its name. If all four are those that were known, the record that was known
/// stays whole, with its path and its process ID; if one differs, the new record
/// takes its place whole.
pub proof fn law_each_state_counts(list: Seq<ServiceView>, news: Seq<ServiceView>, i: int)
    requires
        distinct_names(news),
        0 <= i < news.len(),
    ensures
        ({
            let found = lookup(refreshed(list, news), news[i].name);
            &&& found is Some
            &&& found->0.name == news[i].name
            &&& found->0.active_state == news[i].active_state
            &&& found->0.sub_state == news[i].sub_state
            &&& found->0.load_state == news[i].load_state
            &&& found->0.unit_file_state == news[i].unit_file_state
            &&& lookup(list, news[i].name) is None ==> found->0 == news[i]
            &&& lookup(list, news[i].name) matches Some(k) ==> if k.active_state
                == news[i].active_state && k.sub_state == news[i].sub_state && k.load_state
                == news[i].load_state && k.unit_file_state == news[i].unit_file_state {
                found->0 == k
            } else {
                found->0 == news[i]
            }
        }),
{
    law_refresh_updates_only_what_changed(list, news, i);
    lemma_place(list, news[i].name);
}

proof fn lemma_absorb_all_others(list: Seq<ServiceView>, news: Seq<ServiceView>, name: Seq<char>)
    requires
        !has_name(news, name),
    ensures
        lookup(absorb_all(list, news), name) == lookup(list, name),
    decreases news.len(),
{
    if news.len() > 0 {
        lemma_has_name_last(news, name);
        lemma_absorb_all_others(list, news.drop_last(), name);
        lemma_absorb(absorb_all(list, news.drop_last()), news.last(), name);
    }
}

/// One more service at the end of a new list changes what is found under its own
/// name and no other. Under its name is then what the list without it gave, or
/// what was known if that did not have the name, unless one of the four states
/// differs: then it is the service that came. This holds of lists with names that
/// come twice too.
pub proof fn law_one_more_service(
    list: Seq<ServiceView>,
    news: Seq<ServiceView>,
    s: ServiceView,
    name: Seq<char>,
)
    requires
        list.len() > 0,
    ensures
        name != s.name ==> lookup(refreshed(list, news.push(s)), name) == lookup(
            refreshed(list, news),
            name,
        ),
        ({
            let known = if has_name(news, s.name) {
                lookup(refreshed(list, news), s.name)
            } else {
                lookup(list, s.name)
            };
            let found = lookup(refreshed(list, news.push(s)), s.name);
            &&& known is None ==> found == Some(s)
            &&& known matches Some(k) ==> if k.active_state == s.active_state && k.sub_state
                == s.sub_state && k.load_state == s.load_state && k.unit_file_state
                == s.unit_file_state {
                found == Some(k)
            } else {
                found == Some(s)
            }
        }),
{
    let more = news.push(s);
    let all = absorb_all(list, news);
    assert(more.drop_last() == news);
    assert(more.last() == s);
    lemma_has_name_push(news, s, name);
    lemma_has_name_push(news, s, s.name);
    lemma_absorb(all, s, name);
    lemma_filter_by_news(all, news);
    lemma_filter_by_news(absorb(all, s), more);
    lemma_filter(all, |n: Seq<char>| has_name(news, n), name);
    lemma_filter(all, |n: Seq<char>| has_name(news, n), s.name);
    lemma_filter(absorb(all, s), |n: Seq<char>| has_name(more, n), name);
    lemma_filter(absorb(all, s), |n: Seq<char>| has_name(more, n), s.name);
    lemma_place(refreshed(list, news), name);
    lemma_place(refreshed(list, more), name);
    if !has_name(news, s.name) {
        lemma_absorb_all_others(list, news, s.name);
    }
}

/// Every record of a refreshed list was known or has come: none is made up.
pub proof fn law_records_are_known_or_new(list: Seq<ServiceView>, news: Seq<ServiceView>, i: int)
    requires
        0 <= i < refreshed(list, news).len(),
    ensures
        list.contains(refreshed(list, news)[i]) || news.contains(refreshed(list, news)[i]),
{
    let r = refreshed(list, news);
    if list.len() > 0 {
        let keep = |s: ServiceView| has_name(news, s.name);
        let all = absorb_all(list, news);
        assert(r.contains(r[i]));
        all.lemma_filter_contains_rev(keep, r[i]);
        let k = choose|k: int| 0 <= k < all.len() && all[k] == r[i];
        lemma_absorb_all_records(list, news, k);
    } else {
        assert(news[i] == r[i]);
    }
}

proof fn lemma_absorb_all_records(list: Seq<ServiceView>, news: Seq<ServiceView>, k: int)
    requires
        0 <= k < absorb_all(list, news).len(),
    ensures
        list.contains(absorb_all(list, news)[k]) || news.contains(absorb_all(list, news)[k]),
    decreases news.len(),
{
    let all = absorb_all(list, news);
    if news.len() == 0 {
        assert(list[k] == all[k]);
    } else {
        let d = news.drop_last();
        let s = news.last();
        let before = absorb_all(list, d);
        assert(news[news.len() - 1] == s);
        if all[k] != s {
            assert(all[k] == before[k]);
            lemma_absorb_all_records(list, d, k);
            if d.contains(all[k]) {
                let j = choose|j: int| 0 <= j < d.len() && d[j] == all[k];
                assert(news[j] == all[k]);
            }
        }
    }
}

} // verus!

//! The almanac screen: its animation name, and the message listing assets that failed to load.

use vstd::prelude::*;
use crate::text::{decimal, decimal_string};
use crate::stream::views;
use crate::animation::AnimDesc;
use crate::cached::{has_entry_with_key, EntryWithKey};

verus! {

/// Plugin for the almanac screen, showing the animation of the given name.
#[derive(Debug)]
pub struct AlmanacPlugin {
    anim_name: String,
}

impl AlmanacPlugin {
    /// Name of the animation shown.
    pub closed spec fn spec_anim_name(self) -> Seq<char> {
        self.anim_name@
    }

    /// Create almanac plugin with specified animation name.
    pub fn new(anim_name: String) -> (p: AlmanacPlugin)
        ensures
            p.spec_anim_name() == anim_name@,
    {
        AlmanacPlugin { anim_name }
    }

    /// Name of the animation shown.
    pub fn anim_name(&self) -> (name: &str)
        ensures
            name@ == self.spec_anim_name(),
    {
        self.anim_name.as_str()
    }
}

/// How `n` items are shown with room for `k` of them: how many are listed one by one, and how
/// many are summed up in a count, if any. Nothing is shown for no item; up to `k + 1` items are
/// all listed (a count of one would take as much room); beyond that, `k` items are listed and
/// the rest counted.
pub open spec fn first_k_and_rest(k: nat, n: nat) -> Option<(nat, Option<nat>)> {
    if n == 0 {
        None
    } else if n <= k + 1 {
        Some((n, None))
    } else {
        Some((k, Some((n - k) as nat)))
    }
}

/// How many of `n` items go one by one to `first_k`: all of them when there are at most
/// `k + 1`, else `k`.
pub open spec fn first_k_count(k: nat, n: nat) -> nat {
    if n <= k + 1 {
        n
    } else {
        k
    }
}

/// Do the states follow one another from `init` through `first_k` over the first items:
/// `states[0]` is what `init` gave, and each next state what `first_k` gave (as `Ok`) from the
/// state before and the next item?
pub open spec fn first_k_chain<T, E, X, I: FnOnce() -> T, F: Fn(T, X) -> Result<T, E>>(
    init: I,
    first_k: F,
    items: Seq<X>,
    states: Seq<T>,
) -> bool {
    &&& 1 <= states.len() <= items.len() + 1
    &&& call_ensures(init, (), states[0])
    &&& forall|j: int| 0 <= j < states.len() - 1 ==> call_ensures(first_k, (states[j], items[j]), Ok::<T, E>(#[trigger] states[j + 1]))
}

/// Fold the items into a state with room for `k` of them: nothing for no item; else `init`,
/// then `first_k` on each of the first items in order (all of them when there are at most
/// `k + 1`, else `k`), then, when more than `k + 1` remain in all, `rest` once with the number
/// of the others. The first error stops the fold and is returned.
pub fn try_first_k_and_rest<T, E, X, I: FnOnce() -> T, F: Fn(T, X) -> Result<T, E>, R: FnOnce(T, usize) -> Result<T, E>>(
    k: usize,
    items: Vec<X>,
    init: I,
    first_k: F,
    rest: R,
) -> (r: Result<Option<T>, E>)
    requires
        k != 0,
        call_requires(init, ()),
        forall|t: T, x: X| call_requires(first_k, (t, x)),
        forall|t: T, m: usize| call_requires(rest, (t, m)),
    ensures
        (r matches Ok(None)) <==> items@.len() == 0,
        r matches Ok(Some(t)) ==> exists|states: Seq<T>| {
            &&& #[trigger] first_k_chain(init, first_k, items@, states)
            &&& states.len() - 1 == first_k_count(k as nat, items@.len())
            &&& if items@.len() > k + 1 {
                call_ensures(rest, (states.last(), (items@.len() - k) as usize), Ok::<T, E>(t))
            } else {
                t == states.last()
            }
        },
        r matches Err(e) ==> items@.len() > 0 && exists|states: Seq<T>| {
            &&& #[trigger] first_k_chain(init, first_k, items@, states)
            &&& {
                ||| states.len() - 1 < first_k_count(k as nat, items@.len()) && call_ensures(
                    first_k,
                    (states.last(), items@[states.len() - 1]),
                    Err::<T, E>(e),
                )
                ||| states.len() - 1 == first_k_count(k as nat, items@.len()) && items@.len() > k + 1
                    && call_ensures(rest, (states.last(), (items@.len() - k) as usize), Err::<T, E>(e))
            }
        },
{
    let n: usize = items.len();
    if n == 0 {
        return Ok(None);
    }
    let m: usize = if n - 1 <= k { n } else { k };
    let ghost all = items@;
    let mut remaining = items;
    let mut state = init();
    let ghost mut states: Seq<T> = seq![state];
    let mut i: usize = 0;
    assert(remaining@ =~= all.skip(0));
    while i < m
        invariant
            n == all.len(),
            m == first_k_count(k as nat, n as nat),
            m <= n,
            i <= m,
            remaining@ == all.skip(i as int),
            all == items@,
            forall|t: T, x: X| call_requires(first_k, (t, x)),
            first_k_chain(init, first_k, all, states),
            states.len() == i + 1,
            states.last() == state,
        decreases m - i,
    {
        let ghost before = remaining@;
        let x = remaining.remove(0);
        proof {
            assert(before[0] == all[i as int]);
            assert(remaining@ =~= all.skip(i + 1));
        }
        let ghost prev = state;
        match first_k(state, x) {
            Ok(next) => {
                state = next;
                proof {
                    let old_states = states;
                    states = states.push(next);
                    assert forall|j: int| 0 <= j < states.len() - 1 implies call_ensures(
                        first_k,
                        (states[j], all[j]),
                        Ok::<T, E>(#[trigger] states[j + 1]),
                    ) by {
                        if j < old_states.len() - 1 {
                            assert(states[j] == old_states[j] && states[j + 1] == old_states[j + 1]);
                        }
                    }
                }
            },
            Err(e) => {
                proof {
                    assert(states.last() == prev);
                    assert(first_k_chain(init, first_k, all, states));
                }
                return Err(e);
            },
        }
        i = i + 1;
    }
    if n - 1 > k {
        match rest(state, n - k) {
            Ok(t) => Ok(Some(t)),
            Err(e) => {
                assert(first_k_chain(init, first_k, all, states));
                Err(e)
            },
        }
    } else {
        assert(first_k_chain(init, first_k, all, states));
        Ok(Some(state))
    }
}

/// First line of the message.
pub open spec fn failure_header() -> Seq<char> {
    seq![
        'F', 'a', 'i', 'l', 'e', 'd', ' ', 't', 'o', ' ', 'l', 'o', 'a', 'd', ' ', 't', 'h', 'e', 's', 'e', ' ',
        'a', 's', 's', 'e', 't', 's', ':', '\n',
    ]
}

/// A line naming one asset.
pub open spec fn bullet_line(name: Seq<char>) -> Seq<char> {
    seq!['•', ' '] + name + seq!['\n']
}

/// Lines naming the given assets, in order.
pub open spec fn bullet_lines(names: Seq<Seq<char>>) -> Seq<char>
    decreases names.len(),
{
    if names.len() == 0 {
        Seq::empty()
    } else {
        bullet_lines(names.drop_last()) + bullet_line(names.last())
    }
}

/// The line counting the assets not named.
pub open spec fn others_line(n: nat) -> Seq<char> {
    seq!['.', '.', '.', ' ', 'a', 'n', 'd', ' '] + decimal(n) + seq![' ', 'o', 't', 'h', 'e', 'r', 's', '\n']
}

/// The message listing the assets that failed to load: none if none failed; otherwise the
/// header, then the first three names (all four, if there are four), then a count of the
/// others.
pub open spec fn failure_message(names: Seq<Seq<char>>) -> Option<Seq<char>> {
    match first_k_and_rest(3, names.len()) {
        None => None,
        Some((listed, rest)) => Some(
            failure_header() + bullet_lines(names.take(listed as int)) + match rest {
                Some(m) => others_line(m),
                None => Seq::empty(),
            },
        ),
    }
}

/// Over a chain of states from a message header through one line per name, each state is the
/// header followed by the lines of the names so far.
proof fn lemma_listed<I: FnOnce() -> String, F: Fn(String, String) -> Result<String, ()>>(
    init: I,
    first_k: F,
    items: Seq<String>,
    states: Seq<String>,
    j: int,
)
    requires
        first_k_chain(init, first_k, items, states),
        0 <= j < states.len(),
        forall|r: String| call_ensures(init, (), r) ==> r@ == failure_header(),
        forall|m: String, x: String, r: Result<String, ()>|
            call_ensures(first_k, (m, x), r) ==> (r matches Ok(m2) && m2@ == m@ + bullet_line(x@)),
    ensures
        states[j]@ == failure_header() + bullet_lines(views(items).take(j)),
    decreases j,
{
    if j == 0 {
        assert(views(items).take(0) =~= Seq::<Seq<char>>::empty());
    } else {
        lemma_listed(init, first_k, items, states, j - 1);
        let p = j - 1;
        assert(call_ensures(first_k, (states[p], items[p]), Ok::<String, ()>(states[p + 1])));
        assert(states[p + 1] == states[j]);
        assert(views(items).take(j).drop_last() =~= views(items).take(j - 1));
        assert(views(items).take(j).last() == items[j - 1]@);
    }
}

/// The message listing the assets that failed to load (see [`failure_message`]): a header,
/// a line for each of the first names, and a count of the others.
pub fn check_failure(failed: &Vec<String>) -> (msg: Option<String>)
    ensures
        match (msg, failure_message(views(failed@))) {
            (Some(m), Some(s)) => m@ == s,
            (None, None) => true,
            _ => false,
        },
{
    let mut names: Vec<String> = Vec::new();
    let mut i: usize = 0;
    while i < failed.len()
        invariant
            i <= failed@.len(),
            views(names@) == views(failed@).take(i as int),
        decreases failed@.len() - i,
    {
        let c = failed[i].clone();
        let ghost before = names@;
        names.push(c);
        assert(names@ == before.push(c));
        assert(c@ == failed@[i as int]@);
        assert(views(failed@).take(i + 1) =~= views(failed@).take(i as int).push(failed@[i as int]@));
        assert(views(names@) =~= views(before).push(c@));
        i = i + 1;
    }
    assert(views(names@) =~= views(failed@));
    let ghost all = names@;
    let init = || -> (r: String)
        ensures
            r@ == failure_header(),
    {
        proof {
            reveal_strlit("Failed to load these assets:\n");
            assert("Failed to load these assets:\n"@ =~= failure_header());
        }
        String::from_str("Failed to load these assets:\n")
    };
    let first_k = |msg: String, name: String| -> (r: Result<String, ()>)
        ensures
            r matches Ok(m) && m@ == msg@ + bullet_line(name@),
    {
        proof {
            reveal_strlit("• ");
            reveal_strlit("\n");
            assert("• "@ =~= seq!['•', ' ']);
            assert("\n"@ =~= seq!['\n']);
        }
        let mut msg = msg;
        let ghost before = msg@;
        msg.append("• ");
        msg.append(name.as_str());
        msg.append("\n");
        assert(msg@ =~= before + bullet_line(name@));
        Ok(msg)
    };
    let rest = |msg: String, n: usize| -> (r: Result<String, ()>)
        ensures
            r matches Ok(m) && m@ == msg@ + others_line(n as nat),
    {
        proof {
            reveal_strlit("... and ");
            reveal_strlit(" others\n");
            assert("... and "@ =~= seq!['.', '.', '.', ' ', 'a', 'n', 'd', ' ']);
            assert(" others\n"@ =~= seq![' ', 'o', 't', 'h', 'e', 'r', 's', '\n']);
        }
        let mut msg = msg;
        let ghost before = msg@;
        msg.append("... and ");
        let count = decimal_string(n);
        msg.append(count.as_str());
        msg.append(" others\n");
        assert(msg@ =~= before + others_line(n as nat));
        Ok(msg)
    };
    match try_first_k_and_rest(3, names, init, first_k, rest) {
        Ok(None) => None,
        Ok(Some(m)) => {
            proof {
                let states = choose|states: Seq<String>| {
                    &&& #[trigger] first_k_chain(init, first_k, all, states)
                    &&& states.len() - 1 == first_k_count(3, all.len())
                    &&& if all.len() > 4 {
                        call_ensures(rest, (states.last(), (all.len() - 3) as usize), Ok::<String, ()>(m))
                    } else {
                        m == states.last()
                    }
                };
                assert forall|m0: String, x: String, r: Result<String, ()>|
                    call_ensures(first_k, (m0, x), r) implies (r matches Ok(m2) && m2@ == m0@ + bullet_line(x@)) by {}
                lemma_listed(init, first_k, all, states, states.len() - 1);
                assert(views(all) == views(failed@));
            }
            Some(m)
        },
        Err(_) => {
            proof {
                let states = choose|states: Seq<String>| {
                    &&& #[trigger] first_k_chain(init, first_k, all, states)
                    &&& {
                        ||| states.len() - 1 < first_k_count(3, all.len()) && call_ensures(
                            first_k,
                            (states.last(), all[states.len() - 1]),
                            Err::<String, ()>(()),
                        )
                        ||| states.len() - 1 == first_k_count(3, all.len()) && all.len() > 4
                            && call_ensures(rest, (states.last(), (all.len() - 3) as usize), Err::<String, ()>(()))
                    }
                };
            }
            Some(String::from_str("double failure:\n• failed to load some assets\n• cannot show which assets failed"))
        },
    }
}

/// The meta track selected when the almanac opens: the one named `anim_idle`, if there is one,
/// else the first.
pub fn initial_meta(desc: &AnimDesc) -> (k: usize)
    ensures
        has_entry_with_key(desc.meta.entries(), Some("anim_idle"@)) ==> k < desc.meta.entries().len()
            && desc.meta.entries()[k as int].name@ == "anim_idle"@,
        !has_entry_with_key(desc.meta.entries(), Some("anim_idle"@)) ==> k == 0,
{
    match desc.get_meta("anim_idle") {
        Some((k, m)) => {
            assert(desc.meta.entries()[k as int].spec_key() == Some("anim_idle"@));
            k
        },
        None => 0,
    }
}

} // verus!

use crate::text::same_text;
use vstd::prelude::*;
use vstd::string::*;

verus! {

/// The texts that `v` holds.
pub open spec fn texts(v: Seq<String>) -> Seq<Seq<char>> {
    v.map_values(|s: String| s@)
}

/// A set kept as a list without repeats, after `x` was toggled: taken out
/// where it was in, put at the end where it was not.
pub open spec fn toggled<A>(set: Seq<A>, x: A) -> Seq<A> {
    if set.contains(x) {
        set.remove(set.index_of(x))
    } else {
        set.push(x)
    }
}

/// The items of `items` in their order, each only where it first occurs.
pub open spec fn without_repeats<A>(items: Seq<A>) -> Seq<A>
    decreases items.len(),
{
    if items.len() == 0 {
        items
    } else {
        let front = without_repeats(items.drop_last());
        if front.contains(items.last()) {
            front
        } else {
            front.push(items.last())
        }
    }
}

/// A list without repeats holds exactly the items of the list it was made
/// from.
pub proof fn lemma_without_repeats<A>(items: Seq<A>)
    ensures
        without_repeats(items).no_duplicates(),
        forall|x: A| #[trigger] without_repeats(items).contains(x) <==> items.contains(x),
        without_repeats(items).len() <= items.len(),
    decreases items.len(),
{
    if items.len() > 0 {
        let front_items = items.drop_last();
        lemma_without_repeats(front_items);
        let front = without_repeats(front_items);
        let out = without_repeats(items);
        assert forall|x: A| #[trigger] out.contains(x) <==> items.contains(x) by {
            assert(without_repeats(front_items).contains(x) <==> front_items.contains(x));
            if out.contains(x) {
                let i = choose|i: int| 0 <= i < out.len() && out[i] == x;
                if i < front.len() {
                    assert(front.contains(x));
                    let j = choose|j: int| 0 <= j < front_items.len() && front_items[j] == x;
                    assert(items[j] == x);
                } else {
                    assert(items[items.len() - 1] == x);
                }
            }
            if items.contains(x) {
                let j = choose|j: int| 0 <= j < items.len() && items[j] == x;
                if j < items.len() - 1 {
                    assert(front_items[j] == x);
                    assert(front.contains(x));
                    let i = choose|i: int| 0 <= i < front.len() && front[i] == x;
                    assert(out[i] == x);
                } else {
                    if front.contains(x) {
                    } else {
                        assert(out[out.len() - 1] == x);
                    }
                }
            }
        }
    }
}

/// Toggling keeps a list free of repeats.
pub proof fn lemma_toggled_no_duplicates<A>(set: Seq<A>, x: A)
    requires
        set.no_duplicates(),
    ensures
        toggled(set, x).no_duplicates(),
        toggled(set, x).contains(x) <==> !set.contains(x),
        forall|y: A| y != x ==> (toggled(set, x).contains(y) <==> set.contains(y)),
{
    let out = toggled(set, x);
    if set.contains(x) {
        let i = set.index_of(x);
        assert forall|a: int, b: int| 0 <= a < out.len() && 0 <= b < out.len() && a != b implies out[a]
            != out[b] by {
            let oa = if a < i { a } else { a + 1 };
            let ob = if b < i { b } else { b + 1 };
            assert(out[a] == set[oa] && out[b] == set[ob]);
        }
        if out.contains(x) {
            let a = choose|a: int| 0 <= a < out.len() && out[a] == x;
            let oa = if a < i { a } else { a + 1 };
            assert(out[a] == set[oa]);
        }
        assert forall|y: A| y != x implies (out.contains(y) <==> set.contains(y)) by {
            if out.contains(y) {
                let a = choose|a: int| 0 <= a < out.len() && out[a] == y;
                let oa = if a < i { a } else { a + 1 };
                assert(set[oa] == y);
            }
            if set.contains(y) {
                let b = choose|b: int| 0 <= b < set.len() && set[b] == y;
                let nb = if b < i { b } else { b - 1 };
                assert(out[nb] == y);
            }
        }
    } else {
        assert(out[out.len() - 1] == x);
        assert forall|y: A| y != x implies (out.contains(y) <==> set.contains(y)) by {
            if out.contains(y) {
                let a = choose|a: int| 0 <= a < out.len() && out[a] == y;
                assert(set[a] == y);
            }
            if set.contains(y) {
                let b = choose|b: int| 0 <= b < set.len() && set[b] == y;
                assert(out[b] == y);
            }
        }
    }
}

/// The place of `id` in `set`, if it is there.
pub fn find_id(set: &Vec<u32>, id: u32) -> (place: Option<usize>)
    ensures
        match place {
            Some(i) => i < set.len() && set@[i as int] == id,
            None => !set@.contains(id),
        },
{
    let mut i: usize = 0;
    while i < set.len()
        invariant
            i <= set.len(),
            forall|k: int| 0 <= k < i ==> set@[k] != id,
        decreases set.len() - i,
    {
        if set[i] == id {
            return Some(i);
        }
        i += 1;
    }
    None
}

/// Takes `id` out of the set where it is in, and puts it in where it is not.
pub fn toggle_id(set: &mut Vec<u32>, id: u32)
    requires
        old(set)@.no_duplicates(),
    ensures
        final(set)@ == toggled(old(set)@, id),
        final(set)@.no_duplicates(),
{
    proof {
        lemma_toggled_no_duplicates(set@, id);
    }
    match find_id(set, id) {
        Some(i) => {
            assert(set@.contains(id));
            assert(set@.index_of(id) == i);
            set.remove(i);
        },
        None => {
            set.push(id);
        },
    }
}

/// The place of the text `name` in `set`, if it is there.
pub fn find_text(set: &Vec<String>, name: &str) -> (place: Option<usize>)
    ensures
        match place {
            Some(i) => i < set.len() && texts(set@)[i as int] == name@,
            None => !texts(set@).contains(name@),
        },
{
    let mut i: usize = 0;
    while i < set.len()
        invariant
            i <= set.len(),
            forall|k: int| 0 <= k < i ==> texts(set@)[k] != name@,
        decreases set.len() - i,
    {
        if same_text(set[i].as_str(), name) {
            return Some(i);
        }
        i += 1;
    }
    None
}

/// Takes `name` out of the set where it is in, and puts it in where it is
/// not.
pub fn toggle_text(set: &mut Vec<String>, name: &str)
    requires
        texts(old(set)@).no_duplicates(),
    ensures
        texts(final(set)@) == toggled(texts(old(set)@), name@),
        texts(final(set)@).no_duplicates(),
{
    proof {
        lemma_toggled_no_duplicates(texts(set@), name@);
    }
    match find_text(set, name) {
        Some(i) => {
            assert(texts(set@).contains(name@));
            assert(texts(set@).index_of(name@) == i);
            set.remove(i);
            assert(texts(set@) =~= texts(old(set)@).remove(i as int));
        },
        None => {
            set.push(String::from_str(name));
            assert(texts(set@) =~= texts(old(set)@).push(name@));
        },
    }
}

/// Whether no identifier stands twice in `set`.
pub fn ids_distinct(set: &Vec<u32>) -> (b: bool)
    ensures
        b == set@.no_duplicates(),
{
    let mut i: usize = 0;
    while i < set.len()
        invariant
            i <= set.len(),
            forall|a: int, b: int| 0 <= a < b < i ==> set@[a] != set@[b],
        decreases set.len() - i,
    {
        let mut j: usize = 0;
        while j < i
            invariant
                j <= i < set.len(),
                forall|a: int| 0 <= a < j ==> set@[a] != set@[i as int],
            decreases i - j,
        {
            if set[j] == set[i] {
                return false;
            }
            j += 1;
        }
        i += 1;
    }
    true
}

/// Whether no text stands twice in `set`.
pub fn texts_distinct(set: &Vec<String>) -> (b: bool)
    ensures
        b == texts(set@).no_duplicates(),
{
    let mut i: usize = 0;
    while i < set.len()
        invariant
            i <= set.len(),
            forall|a: int, b: int| 0 <= a < b < i ==> texts(set@)[a] != texts(set@)[b],
        decreases set.len() - i,
    {
        let mut j: usize = 0;
        while j < i
            invariant
                j <= i < set.len(),
                forall|a: int| 0 <= a < j ==> texts(set@)[a] != texts(set@)[i as int],
            decreases i - j,
        {
            if same_text(set[j].as_str(), set[i].as_str()) {
                assert(texts(set@)[j as int] == texts(set@)[i as int]);
                return false;
            }
            j += 1;
        }
        i += 1;
    }
    true
}

} // verus!

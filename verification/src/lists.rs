use vstd::prelude::*;
use vstd::string::*;

verus! {

/// The items of `v` in the opposite order.
pub fn reversed<T>(v: Vec<T>) -> (r: Vec<T>)
    ensures
        r@ == v@.reverse(),
{
    let mut v = v;
    let ghost all = v@;
    let mut r: Vec<T> = Vec::new();
    while v.len() > 0
        invariant
            v@ == all.take(v.len() as int),
            r.len() + v.len() == all.len(),
            forall|k: int| 0 <= k < r.len() ==> r@[k] == all[all.len() - 1 - k],
        decreases v.len(),
    {
        let x = v.pop().unwrap();
        r.push(x);
    }
    assert(r@ =~= all.reverse());
    r
}

/// A copy of a list of texts.
pub fn clone_texts(v: &Vec<String>) -> (c: Vec<String>)
    ensures
        c@ == v@,
{
    let mut c: Vec<String> = Vec::new();
    let mut i: usize = 0;
    while i < v.len()
        invariant
            i <= v.len(),
            c@ == v@.take(i as int),
        decreases v.len() - i,
    {
        c.push(v[i].clone());
        assert(c@ =~= v@.take(i + 1));
        i += 1;
    }
    assert(v@.take(v.len() as int) =~= v@);
    c
}

/// A copy of a list of identifiers.
pub fn copy_ids(v: &Vec<u32>) -> (c: Vec<u32>)
    ensures
        c@ == v@,
{
    let mut c: Vec<u32> = Vec::new();
    let mut i: usize = 0;
    while i < v.len()
        invariant
            i <= v.len(),
            c@ == v@.take(i as int),
        decreases v.len() - i,
    {
        c.push(v[i]);
        assert(c@ =~= v@.take(i + 1));
        i += 1;
    }
    assert(v@.take(v.len() as int) =~= v@);
    c
}

/// A copy of an optional text.
pub fn clone_text_option(t: &Option<String>) -> (c: Option<String>)
    ensures
        c == *t,
{
    match t {
        Some(s) => Some(s.clone()),
        None => None,
    }
}

} // verus!

//! Backing stores for tables and for the registry.
//!
//! A table is stored as a vector of key/value pairs with pairwise-distinct
//! keys; a pair whose value is nil is a tombstone and does not belong to the
//! table's mathematical content.  The registry is stored as a vector of slots
//! indexed by key minus one, so keys are never reused.

use vstd::prelude::*;
use crate::model::{LuaVal, tbl_get, tbl_set};
use crate::value::{Value, value_eq};

verus! {

/// No two pairs bind the same key.
pub open spec fn keys_distinct(s: Seq<(Value, Value)>) -> bool {
    forall|i: int, j: int| 0 <= i < j < s.len() ==> s[i].0@ != s[j].0@
}

/// The table that a pair list denotes: later pairs win, nil values erase.
pub open spec fn assoc_view(s: Seq<(Value, Value)>) -> Map<LuaVal, LuaVal>
    decreases s.len(),
{
    if s.len() == 0 {
        Map::empty()
    } else {
        let rest = assoc_view(s.drop_last());
        if s.last().1@ == LuaVal::Nil {
            rest.remove(s.last().0@)
        } else {
            rest.insert(s.last().0@, s.last().1@)
        }
    }
}

/// A key bound by no pair is not in the table.
pub proof fn lemma_view_absent(s: Seq<(Value, Value)>, k: LuaVal)
    requires
        forall|i: int| 0 <= i < s.len() ==> s[i].0@ != k,
    ensures
        !assoc_view(s).dom().contains(k),
    decreases s.len(),
{
    if s.len() > 0 {
        lemma_view_absent(s.drop_last(), k);
    }
}

/// Everything in the table comes from some pair of the list.
pub proof fn lemma_view_members(s: Seq<(Value, Value)>)
    ensures
        forall|k: LuaVal| #[trigger] assoc_view(s).dom().contains(k)
            ==> exists|i: int| 0 <= i < s.len() && s[i].0@ == k
                && s[i].1@ == assoc_view(s)[k] && s[i].1@ != LuaVal::Nil,
    decreases s.len(),
{
    if s.len() > 0 {
        lemma_view_members(s.drop_last());
        assert forall|k: LuaVal| #[trigger] assoc_view(s).dom().contains(k)
            implies exists|i: int| 0 <= i < s.len() && s[i].0@ == k
                && s[i].1@ == assoc_view(s)[k] && s[i].1@ != LuaVal::Nil by {
            if k == s.last().0@ {
                assert(s[s.len() - 1].0@ == k && s[s.len() - 1].1@ == assoc_view(s)[k]);
            } else {
                assert(assoc_view(s.drop_last()).dom().contains(k));
                let i = choose|i: int| 0 <= i < s.len() - 1 && s.drop_last()[i].0@ == k
                    && s.drop_last()[i].1@ == assoc_view(s.drop_last())[k]
                    && s.drop_last()[i].1@ != LuaVal::Nil;
                assert(s[i].0@ == k && s[i].1@ == assoc_view(s)[k] && s[i].1@ != LuaVal::Nil);
            }
        }
    }
}

/// What the pair at position `i` says about the table, given distinct keys.
pub proof fn lemma_view_found(s: Seq<(Value, Value)>, i: int)
    requires
        keys_distinct(s),
        0 <= i < s.len(),
    ensures
        s[i].1@ == LuaVal::Nil ==> !assoc_view(s).dom().contains(s[i].0@),
        s[i].1@ != LuaVal::Nil ==> assoc_view(s).dom().contains(s[i].0@)
            && assoc_view(s)[s[i].0@] == s[i].1@,
    decreases s.len(),
{
    if i == s.len() - 1 {
        assert(forall|j: int| 0 <= j < s.len() - 1 ==> s.drop_last()[j].0@ != s[i].0@);
        lemma_view_absent(s.drop_last(), s[i].0@);
    } else {
        lemma_view_found(s.drop_last(), i);
        assert(s.drop_last()[i] == s[i]);
        assert(s.last().0@ != s[i].0@);
    }
}

/// Replacing the pair at `i` by one with an equal key updates the table at
/// that key.
pub proof fn lemma_view_update(s: Seq<(Value, Value)>, i: int, p: (Value, Value))
    requires
        keys_distinct(s),
        0 <= i < s.len(),
        p.0@ == s[i].0@,
    ensures
        keys_distinct(s.update(i, p)),
        assoc_view(s.update(i, p)) == tbl_set(assoc_view(s), p.0@, p.1@),
    decreases s.len(),
{
    let s2 = s.update(i, p);
    let k = p.0@;
    let v = p.1@;
    assert(keys_distinct(s2));
    if i == s.len() - 1 {
        assert(s2.drop_last() =~= s.drop_last());
        let rest = assoc_view(s.drop_last());
        assert(forall|j: int| 0 <= j < s.len() - 1 ==> s.drop_last()[j].0@ != k);
        lemma_view_absent(s.drop_last(), k);
        if v == LuaVal::Nil {
            assert(assoc_view(s2) =~= tbl_set(assoc_view(s), k, v));
        } else {
            assert(assoc_view(s2) =~= tbl_set(assoc_view(s), k, v));
        }
    } else {
        assert(s2.drop_last() =~= s.drop_last().update(i, p));
        assert(forall|a: int, b: int| 0 <= a < b < s.len() - 1
            ==> s.drop_last()[a].0@ != s.drop_last()[b].0@);
        lemma_view_update(s.drop_last(), i, p);
        let rest = assoc_view(s.drop_last());
        let lk = s.last().0@;
        let lv = s.last().1@;
        assert(s2.last() == s.last());
        assert(lk != k);
        if lv == LuaVal::Nil {
            if v == LuaVal::Nil {
                assert(rest.remove(k).remove(lk) =~= rest.remove(lk).remove(k));
            } else {
                assert(rest.insert(k, v).remove(lk) =~= rest.remove(lk).insert(k, v));
            }
        } else {
            if v == LuaVal::Nil {
                assert(rest.remove(k).insert(lk, lv) =~= rest.insert(lk, lv).remove(k));
            } else {
                assert(rest.insert(k, v).insert(lk, lv) =~= rest.insert(lk, lv).insert(k, v));
            }
        }
    }
}

/// Appending a pair with a fresh key and a non-nil value inserts it.
pub proof fn lemma_view_push(s: Seq<(Value, Value)>, p: (Value, Value))
    requires
        keys_distinct(s),
        forall|i: int| 0 <= i < s.len() ==> s[i].0@ != p.0@,
        p.1@ != LuaVal::Nil,
    ensures
        keys_distinct(s.push(p)),
        assoc_view(s.push(p)) == assoc_view(s).insert(p.0@, p.1@),
{
    assert(s.push(p).drop_last() =~= s);
    assert(forall|i: int| 0 <= i < s.len() ==> s.push(p)[i] == s[i]);
}

/// Reads the value bound to `k`, nil when the table does not hold the key.
pub fn assoc_get(t: &Vec<(Value, Value)>, k: &Value) -> (r: Value)
    requires
        keys_distinct(t@),
    ensures
        r@ == tbl_get(assoc_view(t@), k@),
{
    let n = t.len();
    let mut i: usize = 0;
    while i < n
        invariant
            n == t@.len(),
            keys_distinct(t@),
            forall|j: int| 0 <= j < i ==> t@[j].0@ != k@,
        decreases n - i,
    {
        if value_eq(&t[i].0, &k) {
            proof {
                lemma_view_found(t@, i as int);
            }
            return t[i].1.duplicate();
        }
        i = i + 1;
    }
    proof {
        lemma_view_absent(t@, k@);
    }
    Value::Nil
}

/// Binds `k` to `v`; binding nil erases the key.
pub fn assoc_set(t: &mut Vec<(Value, Value)>, k: Value, v: Value)
    requires
        keys_distinct(old(t)@),
        k@ != LuaVal::Nil,
    ensures
        keys_distinct(final(t)@),
        assoc_view(final(t)@) == tbl_set(assoc_view(old(t)@), k@, v@),
    {
    let n = t.len();
    let mut i: usize = 0;
    while i < n
        invariant
            n == t@.len(),
            t@ == old(t)@,
            keys_distinct(t@),
            k@ != LuaVal::Nil,
            forall|j: int| 0 <= j < i ==> t@[j].0@ != k@,
        decreases n - i,
    {
        if value_eq(&t[i].0, &k) {
            proof {
                lemma_view_update(t@, i as int, (k, v));
            }
            t[i] = (k, v);
            return;
        }
        i = i + 1;
    }
    if let Value::Nil = v {
        proof {
            lemma_view_absent(t@, k@);
            assert(assoc_view(t@) =~= tbl_set(assoc_view(old(t)@), k@, v@));
        }
    } else {
        proof {
            lemma_view_push(t@, (k, v));
        }
        t.push((k, v));
    }
}

/// The registry that a slot vector denotes: slot `k - 1` backs key `k`.
pub open spec fn reg_view(s: Seq<Option<Value>>) -> Map<int, LuaVal> {
    Map::new(
        |k: int| 1 <= k <= s.len() && s[k - 1] is Some,
        |k: int| s[k - 1]->Some_0@,
    )
}

/// Roots `v` under a fresh key and returns the key.
pub fn reg_alloc(s: &mut Vec<Option<Value>>, v: Value) -> (key: i32)
    requires
        old(s)@.len() + 1 < i32::MAX,
    ensures
        key == old(s)@.len() + 1,
        final(s)@.len() == old(s)@.len() + 1,
        reg_view(final(s)@) == reg_view(old(s)@).insert(key as int, v@),
    {
    let ghost pre = s@;
    let key = (s.len() + 1) as i32;
    proof {
        assert(reg_view(pre.push(Some(v))) =~= reg_view(pre).insert(pre.len() as int + 1, v@));
    }
    s.push(Some(v));
    key
}

/// Reads the value rooted under `key`.
pub fn reg_fetch(s: &Vec<Option<Value>>, key: i32) -> (r: Value)
    requires
        reg_view(s@).dom().contains(key as int),
    ensures
        r@ == reg_view(s@)[key as int],
    {
    let i = (key - 1) as usize;
    match &s[i] {
        Some(v) => v.duplicate(),
        None => Value::Nil,
    }
}

/// Releases the key; keys the registry does not hold are ignored.
pub fn reg_drop(s: &mut Vec<Option<Value>>, key: i32)
    ensures
        final(s)@.len() == old(s)@.len(),
        reg_view(final(s)@) == reg_view(old(s)@).remove(key as int),
    {
    if key >= 1 && (key as usize) <= s.len() {
        let i = (key - 1) as usize;
        s[i] = None;
        proof {
            assert(reg_view(s@) =~= reg_view(old(s)@).remove(key as int));
        }
    } else {
        proof {
            assert(reg_view(s@) =~= reg_view(old(s)@).remove(key as int));
        }
    }
}

} // verus!

//! The laws of the bridge, proved from the contracts the modules state.

use vstd::prelude::*;
use vstd::std_specs::cmp::PartialEqSpec;
use crate::model::{Interp, LuaVal, tbl_get, tbl_set};
use crate::marshal::{LuaRead, LuaWrite, DecodeError};
use crate::table::Table;
use crate::union::LuaValue;

verus! {

/// Round trip for booleans: a written boolean decodes back to itself,
/// exactly.
pub proof fn lemma_round_trip_bool(v: bool, r: bool)
    requires
        <bool as LuaRead>::decoded(v.write_view(), r),
    ensures
        <bool as LuaRead>::decodes(v.write_view()),
        r == v,
{
}

/// Round trip for strings: a written string decodes back with the same
/// characters, exactly.
pub proof fn lemma_round_trip_str(v: &str, r: String)
    requires
        <String as LuaRead>::decoded(v.write_view(), r),
    ensures
        <String as LuaRead>::decodes(v.write_view()),
        r@ == v@,
{
}

/// Round trip for `i8` numbers: a written value decodes back to itself,
/// exactly.
pub proof fn lemma_round_trip_i8(v: i8, r: i8)
    requires
        <i8 as LuaRead>::decoded(v.write_view(), r),
    ensures
        <i8 as LuaRead>::decodes(v.write_view()),
        r == v,
{
}

/// Round trip for `i16` numbers.
pub proof fn lemma_round_trip_i16(v: i16, r: i16)
    requires
        <i16 as LuaRead>::decoded(v.write_view(), r),
    ensures
        <i16 as LuaRead>::decodes(v.write_view()),
        r == v,
{
}

/// Round trip for `i32` numbers.
pub proof fn lemma_round_trip_i32(v: i32, r: i32)
    requires
        <i32 as LuaRead>::decoded(v.write_view(), r),
    ensures
        <i32 as LuaRead>::decodes(v.write_view()),
        r == v,
{
}

/// Round trip for `u8` numbers.
pub proof fn lemma_round_trip_u8(v: u8, r: u8)
    requires
        <u8 as LuaRead>::decoded(v.write_view(), r),
    ensures
        <u8 as LuaRead>::decodes(v.write_view()),
        r == v,
{
}

/// Round trip for `u16` numbers.
pub proof fn lemma_round_trip_u16(v: u16, r: u16)
    requires
        <u16 as LuaRead>::decoded(v.write_view(), r),
    ensures
        <u16 as LuaRead>::decodes(v.write_view()),
        r == v,
{
}

/// Round trip for `u32` numbers.
pub proof fn lemma_round_trip_u32(v: u32, r: u32)
    requires
        <u32 as LuaRead>::decoded(v.write_view(), r),
    ensures
        <u32 as LuaRead>::decodes(v.write_view()),
        r == v,
{
}

/// Coverage of the typed union: every carried kind decodes to its matching
/// variant with an equivalent payload; a function or userdata slot is
/// rejected, and only with the explicit unsupported-kind failure — never a
/// silent nil.
pub proof fn lemma_union_coverage(v: LuaVal, r: LuaValue, e: DecodeError)
    ensures
        <LuaValue as LuaRead>::decodes(v) <==> !(v is Fun || v is User),
        v is Nil && <LuaValue as LuaRead>::decoded(v, r) ==> r == LuaValue::Nil,
        v is Bool && <LuaValue as LuaRead>::decoded(v, r) ==> r == LuaValue::LuaBoolean(
            v->Bool_0,
        ),
        v is Num && <LuaValue as LuaRead>::decoded(v, r) ==> r == LuaValue::LuaNumber(v->Num_0),
        v is Str && <LuaValue as LuaRead>::decoded(v, r) ==> r is LuaString
            && r->LuaString_0@ == v->Str_0,
        v is Table && <LuaValue as LuaRead>::decoded(v, r) ==> r is LuaTable
            && r->LuaTable_0.obj_id() == v->Table_0,
        <LuaValue as LuaRead>::decode_err(v, e) ==> (v is Fun || v is User)
            && e == DecodeError::Unsupported,
{
}

/// Reference identity: a table reference written to the stack decodes back
/// to a reference the interpreter reports equal to the original, whatever
/// registry key roots it.
pub proof fn lemma_reference_identity(t: &Table, r: Table)
    requires
        <Table as LuaRead>::decoded(t.write_view(), r),
    ensures
        <Table as LuaRead>::decodes(t.write_view()),
        r.eq_spec(t),
{
}

/// Table inequality: references to distinct heap objects are reported
/// not-equal, however equal their contents; in particular two fresh empty
/// tables differ, since [`Table::new`] ensures a fresh object each time.
pub proof fn lemma_table_inequality(a: &Table, b: &Table)
    requires
        a.obj_id() != b.obj_id(),
    ensures
        !a.eq_spec(b),
{
}

/// Keyed-access symmetry: after binding a key, reading that key yields
/// exactly the bound value, and every other key reads as before.  Binding
/// nil erases the key.
pub proof fn lemma_keyed_access(t: Map<LuaVal, LuaVal>, k: LuaVal, v: LuaVal)
    ensures
        v != LuaVal::Nil ==> tbl_get(tbl_set(t, k, v), k) == v,
        v == LuaVal::Nil ==> tbl_get(tbl_set(t, k, v), k) == LuaVal::Nil,
        forall|k2: LuaVal| k2 != k ==> #[trigger] tbl_get(tbl_set(t, k, v), k2) == tbl_get(t, k2),
{
}

/// Keyed round trip for `i32`: binding a key to a written number and
/// decoding what the key then holds yields exactly the number, in the global
/// environment and in any table alike.
pub proof fn lemma_keyed_round_trip_i32(t: Map<LuaVal, LuaVal>, k: LuaVal, v: i32, r: i32)
    requires
        k != LuaVal::Nil,
        <i32 as LuaRead>::decoded(tbl_get(tbl_set(t, k, v.write_view()), k), r),
    ensures
        <i32 as LuaRead>::decodes(tbl_get(tbl_set(t, k, v.write_view()), k)),
        r == v,
{
}

/// The instance after `k` single-owner releases.
pub open spec fn after_releases(m: Interp, k: nat) -> Interp
    decreases k,
{
    if k == 0 {
        m
    } else {
        after_releases(m, (k - 1) as nat).drop_owner()
    }
}

/// Releasing changes nothing but the owner count.
pub proof fn lemma_release_count(m: Interp, k: nat)
    ensures
        after_releases(m, k).owners == m.owners - k,
        after_releases(m, k).stack == m.stack,
        after_releases(m, k).tables == m.tables,
        after_releases(m, k).registry == m.registry,
    decreases k,
{
    if k > 0 {
        lemma_release_count(m, (k - 1) as nat);
    }
}

/// Lifecycle: with `n` owners, the first `n - 1` releases leave the instance
/// open, the `n`-th closes it, and no further release is possible — every
/// operation, release included, requires an open instance, so the close
/// happens exactly once.
pub proof fn lemma_lifecycle(m: Interp, n: nat)
    requires
        m.owners == n,
        n >= 1,
    ensures
        forall|k: nat| k < n ==> #[trigger] after_releases(m, k).is_open(),
        !after_releases(m, n).is_open(),
{
    assert forall|k: nat| k < n implies #[trigger] after_releases(m, k).is_open() by {
        lemma_release_count(m, k);
    }
    lemma_release_count(m, n);
}

} // verus!

//! Rooted references to interpreter heap objects, and keyed access.
//!
//! A [`Table`] pairs a registry key with the identity of the heap object the
//! key roots.  Two `Table` values are equal exactly when the interpreter
//! reports their heap objects equal — identity, not contents — so two
//! references with different registry keys to one object are equal, and two
//! fresh empty tables are not.

use vstd::prelude::*;
use crate::model::{Interp, LuaVal, MAX_STACK, tbl_get, tbl_set};
use crate::context::LuaContext;
use crate::marshal::{LuaRead, LuaWrite, DecodeError};

verus! {

/// A host-side reference to an interpreter value rooted in the registry.
pub trait LuaRef: Sized {
    /// The registry key rooting the reference.
    spec fn spec_refindex(self) -> int;

    /// The model value the reference denotes.
    spec fn ref_view(self) -> LuaVal;

    /// Which stack values the reference type can root.
    spec fn can_ref(v: LuaVal) -> bool;

    /// The reference is rooted in the instance: the registry binds its key
    /// to the value it denotes.
    spec fn valid(self, m: Interp) -> bool;

    /// The registry key, as stored.
    fn get_refindex(&self) -> (r: i32)
        ensures
            r as int == self.spec_refindex(),
    ;

    /// Pops the stack top and roots it in the registry under a fresh key.
    fn ref_from_stack(context: &mut LuaContext) -> (r: Self)
        requires
            old(context).wf(),
            old(context)@.is_open(),
            old(context)@.stack.len() >= 1,
            Self::can_ref(old(context)@.stack.last()),
            old(context)@.next_ref < i32::MAX,
        ensures
            final(context).wf(),
            r.spec_refindex() == old(context)@.next_ref,
            r.ref_view() == old(context)@.stack.last(),
            r.valid(final(context)@),
            final(context)@.stack == old(context)@.stack.drop_last(),
            final(context)@.registry == old(context)@.registry.insert(
                old(context)@.next_ref,
                old(context)@.stack.last(),
            ),
            final(context)@.next_ref == old(context)@.next_ref + 1,
            final(context)@.tables == old(context)@.tables,
            final(context)@.globals == old(context)@.globals,
            final(context)@.funs == old(context)@.funs,
            final(context)@.users == old(context)@.users,
            final(context)@.owners == old(context)@.owners,
    ;

    /// Pushes the referenced value back onto the stack.
    fn write_self(&self, context: &mut LuaContext)
        requires
            old(context).wf(),
            old(context)@.is_open(),
            old(context)@.stack.len() < MAX_STACK,
            self.valid(old(context)@),
        ensures
            final(context).wf(),
            final(context)@.same_heap(old(context)@),
            final(context)@.stack == old(context)@.stack.push(self.ref_view()),
    ;
}

/// A reference to an interpreter table.
#[derive(Debug)]
pub struct Table {
    refindex: i32,
    obj: usize,
}

impl Table {
    /// The registry key rooting this reference.
    pub closed spec fn key_id(self) -> int {
        self.refindex as int
    }

    /// The heap identity of the referenced table.
    pub closed spec fn obj_id(self) -> int {
        self.obj as int
    }

    /// The reference is rooted: the registry binds its key to its table.
    pub open spec fn table_valid(self, m: Interp) -> bool {
        &&& m.registry.dom().contains(self.key_id())
        &&& m.registry[self.key_id()] == LuaVal::Table(self.obj_id())
    }

    /// Creates a fresh empty table in the heap, roots it in the registry,
    /// and returns the reference.  The new table is its own object: it
    /// differs from every table the instance could reach before, and every
    /// reference rooted before stays rooted.
    pub fn new(context: &mut LuaContext) -> (r: Table)
        requires
            old(context).wf(),
            old(context)@.is_open(),
            old(context)@.stack.len() < MAX_STACK,
            old(context)@.next_ref < i32::MAX,
        ensures
            final(context).wf(),
            r.obj_id() == old(context)@.tables.len(),
            r.key_id() == old(context)@.next_ref,
            r.table_valid(final(context)@),
            final(context)@.stack == old(context)@.stack,
            final(context)@.tables == old(context)@.tables.push(Map::<LuaVal, LuaVal>::empty()),
            final(context)@.registry == old(context)@.registry.insert(
                old(context)@.next_ref,
                LuaVal::Table(old(context)@.tables.len() as int),
            ),
            final(context)@.next_ref == old(context)@.next_ref + 1,
            final(context)@.globals == old(context)@.globals,
            final(context)@.funs == old(context)@.funs,
            final(context)@.users == old(context)@.users,
            final(context)@.owners == old(context)@.owners,
            forall|t: Table| t.table_valid(old(context)@)
                ==> r.obj_id() != #[trigger] t.obj_id() && t.table_valid(final(context)@),
    {
        context.new_table();
        let obj = context.table_id(-1);
        let refindex = context.registry_ref();
        proof {
            assert(old(context)@.stack.push(LuaVal::Table(obj as int)).drop_last()
                =~= old(context)@.stack);
        }
        Table { refindex: refindex, obj: obj }
    }

    /// A second reference to the same table, rooted under a fresh registry
    /// key.  The clone and the original are equal — they denote one object —
    /// though their registry keys differ.
    pub fn clone_ref(&self, context: &mut LuaContext) -> (r: Table)
        requires
            old(context).wf(),
            old(context)@.is_open(),
            old(context)@.stack.len() < MAX_STACK,
            old(context)@.next_ref < i32::MAX,
            self.table_valid(old(context)@),
        ensures
            final(context).wf(),
            r.obj_id() == self.obj_id(),
            r.key_id() == old(context)@.next_ref,
            r.key_id() != self.key_id(),
            r.table_valid(final(context)@),
            self.table_valid(final(context)@),
            final(context)@.stack == old(context)@.stack,
            final(context)@.registry == old(context)@.registry.insert(
                old(context)@.next_ref,
                LuaVal::Table(self.obj_id()),
            ),
            final(context)@.next_ref == old(context)@.next_ref + 1,
            final(context)@.tables == old(context)@.tables,
            final(context)@.globals == old(context)@.globals,
            final(context)@.funs == old(context)@.funs,
            final(context)@.users == old(context)@.users,
            final(context)@.owners == old(context)@.owners,
    {
        context.push_registry(self.refindex);
        let refindex = context.registry_ref();
        proof {
            assert(old(context)@.stack.push(LuaVal::Table(self.obj_id())).drop_last()
                =~= old(context)@.stack);
        }
        Table { refindex: refindex, obj: self.obj }
    }

    /// Releases the registry key that roots this reference, balancing the
    /// registry.  The reference is consumed: a released key cannot be used
    /// again.
    pub fn release(self, context: &mut LuaContext)
        requires
            old(context).wf(),
            old(context)@.is_open(),
        ensures
            final(context).wf(),
            final(context)@.registry == old(context)@.registry.remove(self.key_id()),
            final(context)@.stack == old(context)@.stack,
            final(context)@.tables == old(context)@.tables,
            final(context)@.next_ref == old(context)@.next_ref,
            final(context)@.globals == old(context)@.globals,
            final(context)@.funs == old(context)@.funs,
            final(context)@.users == old(context)@.users,
            final(context)@.owners == old(context)@.owners,
    {
        context.registry_unref(self.refindex);
    }
}

impl LuaRef for Table {
    open spec fn spec_refindex(self) -> int {
        self.key_id()
    }

    open spec fn ref_view(self) -> LuaVal {
        LuaVal::Table(self.obj_id())
    }

    open spec fn can_ref(v: LuaVal) -> bool {
        v is Table
    }

    open spec fn valid(self, m: Interp) -> bool {
        self.table_valid(m)
    }

    fn get_refindex(&self) -> (r: i32) {
        self.refindex
    }

    fn ref_from_stack(context: &mut LuaContext) -> (r: Self) {
        let obj = context.table_id(-1);
        let refindex = context.registry_ref();
        Table { refindex: refindex, obj: obj }
    }

    fn write_self(&self, context: &mut LuaContext) {
        context.push_registry(self.refindex);
    }
}

impl PartialEq for Table {
    /// Interpreter equality: one heap object, regardless of registry keys.
    fn eq(&self, other: &Table) -> (r: bool) {
        self.obj == other.obj
    }
}

impl vstd::std_specs::cmp::PartialEqSpecImpl for Table {
    open spec fn obeys_eq_spec() -> bool {
        true
    }

    open spec fn eq_spec(&self, other: &Table) -> bool {
        self.obj_id() == other.obj_id()
    }
}

impl<'a> LuaWrite for &'a Table {
    open spec fn write_view(self) -> LuaVal {
        LuaVal::Table(self.obj_id())
    }

    open spec fn write_req(self, m: Interp) -> bool {
        self.table_valid(m)
    }

    proof fn write_req_stable(self, m1: Interp, m2: Interp) {
    }

    fn lua_write(context: &mut LuaContext, value: Self) {
        context.push_registry(value.refindex);
    }
}

impl LuaRead for Table {
    open spec fn decodes(v: LuaVal) -> bool {
        v is Table
    }

    open spec fn decoded(v: LuaVal, r: Self) -> bool {
        v == LuaVal::Table(r.obj_id())
    }

    open spec fn decode_err(v: LuaVal, e: DecodeError) -> bool {
        e == DecodeError::Mismatch
    }

    open spec fn read_effect(pre: Interp, post: Interp, r: Option<Self>) -> bool {
        match r {
            Some(t) => t.key_id() == pre.next_ref && post == pre.with_ref(
                pre.registry.insert(pre.next_ref, LuaVal::Table(t.obj_id())),
                pre.next_ref + 1,
            ),
            None => post == pre,
        }
    }

    open spec fn read_req(m: Interp) -> bool {
        m.next_ref < i32::MAX && m.stack.len() < MAX_STACK
    }

    open spec fn decoded_ok(r: Self, m: Interp) -> bool {
        r.table_valid(m)
    }

    proof fn decoded_ok_stable(r: Self, m1: Interp, m2: Interp) {
    }

    proof fn read_effect_frame(
        pre: Interp,
        post: Interp,
        pre2: Interp,
        post2: Interp,
        r: Option<Self>,
    ) {
        match r {
            Some(t) => {
                assert(post2 =~= pre2.with_ref(
                    pre2.registry.insert(pre2.next_ref, LuaVal::Table(t.obj_id())),
                    pre2.next_ref + 1,
                ));
            },
            None => {
                assert(post2 =~= pre2);
            },
        }
    }

    proof fn read_req_holds(m: Interp) {
    }

    fn lua_read_index(context: &mut LuaContext, index: i32) -> (r: Result<Self, DecodeError>) {
        if !context.is_table(index) {
            return Err(DecodeError::Mismatch);
        }
        let obj = context.table_id(index);
        context.push_value(index);
        let refindex = context.registry_ref();
        proof {
            assert(old(context)@.stack.push(old(context)@.at(index as int)).drop_last()
                =~= old(context)@.stack);
        }
        Ok(Table { refindex: refindex, obj: obj })
    }
}


/// Keyed access to a table-like container living in a context: reading
/// pushes the container, writes the key, performs the table read, decodes
/// the result, and pops what it pushed; writing does the same around a table
/// write.  Either way the stack ends exactly as it began.
pub trait LuaIndex {
    /// The heap identity of the addressed container.
    spec fn container(&self) -> int;

    /// The container is reachable in the instance.
    spec fn container_ok(&self, m: Interp) -> bool;

    /// Reads the value the container binds to `key` and decodes it to `V`.
    /// The stack is exactly as before the call.
    fn read<K: LuaWrite, V: LuaRead>(&self, context: &mut LuaContext, key: K) -> (r: Result<
        V,
        DecodeError,
    >)
        requires
            old(context).wf(),
            old(context)@.is_open(),
            self.container_ok(old(context)@),
            key.write_req(old(context)@),
            old(context)@.stack.len() + 2 < MAX_STACK,
            old(context)@.next_ref < i32::MAX,
        ensures
            final(context).wf(),
            final(context)@.stack == old(context)@.stack,
            final(context)@.tables == old(context)@.tables,
            final(context)@.globals == old(context)@.globals,
            final(context)@.funs == old(context)@.funs,
            final(context)@.users == old(context)@.users,
            final(context)@.owners == old(context)@.owners,
            old(context)@.registry_extends(final(context)@),
            ({
                let v = tbl_get(old(context)@.tables[self.container()], key.write_view());
                &&& (r is Ok) == V::decodes(v)
                &&& match r {
                    Ok(x) => V::decoded(v, x) && V::decoded_ok(x, final(context)@)
                        && V::read_effect(old(context)@, final(context)@, Some(x)),
                    Err(e) => V::decode_err(v, e)
                        && V::read_effect(old(context)@, final(context)@, None),
                }
            }),
    ;

    /// Binds `key` to `value` in the container; binding nil erases the key.
    /// The stack is exactly as before the call.
    fn set<K: LuaWrite, V: LuaWrite>(&self, context: &mut LuaContext, key: K, value: V)
        requires
            old(context).wf(),
            old(context)@.is_open(),
            self.container_ok(old(context)@),
            key.write_req(old(context)@),
            value.write_req(old(context)@),
            key.write_view() != LuaVal::Nil,
            old(context)@.stack.len() + 3 <= MAX_STACK,
        ensures
            final(context).wf(),
            final(context)@.stack == old(context)@.stack,
            final(context)@.tables == old(context)@.tables.update(
                self.container(),
                tbl_set(
                    old(context)@.tables[self.container()],
                    key.write_view(),
                    value.write_view(),
                ),
            ),
            final(context)@.registry == old(context)@.registry,
            final(context)@.next_ref == old(context)@.next_ref,
            final(context)@.globals == old(context)@.globals,
            final(context)@.funs == old(context)@.funs,
            final(context)@.users == old(context)@.users,
            final(context)@.owners == old(context)@.owners,
    ;

    /// Reads the value the container binds to `key`, escalating a decode
    /// failure into a usage error: the binding must already hold a value the
    /// target type accepts.  Call sites that need a recoverable outcome use
    /// [`LuaIndex::read`].
    fn get<K: LuaWrite, V: LuaRead>(&self, context: &mut LuaContext, key: K) -> (r: V)
        requires
            old(context).wf(),
            old(context)@.is_open(),
            self.container_ok(old(context)@),
            key.write_req(old(context)@),
            old(context)@.stack.len() + 2 < MAX_STACK,
            old(context)@.next_ref < i32::MAX,
            V::decodes(tbl_get(old(context)@.tables[self.container()], key.write_view())),
        ensures
            final(context).wf(),
            final(context)@.stack == old(context)@.stack,
            final(context)@.tables == old(context)@.tables,
            final(context)@.globals == old(context)@.globals,
            final(context)@.funs == old(context)@.funs,
            final(context)@.users == old(context)@.users,
            final(context)@.owners == old(context)@.owners,
            old(context)@.registry_extends(final(context)@),
            V::decoded(tbl_get(old(context)@.tables[self.container()], key.write_view()), r),
            V::decoded_ok(r, final(context)@),
            V::read_effect(old(context)@, final(context)@, Some(r)),
    ;
}

impl LuaIndex for Table {
    open spec fn container(&self) -> int {
        self.obj_id()
    }

    open spec fn container_ok(&self, m: Interp) -> bool {
        self.table_valid(m)
    }

    fn read<K: LuaWrite, V: LuaRead>(&self, context: &mut LuaContext, key: K) -> (r: Result<
        V,
        DecodeError,
    >) {
        let ghost pre = context@;
        context.push_registry(self.refindex);
        proof {
            key.write_req_stable(pre, context@);
        }
        K::lua_write(context, key);
        context.get_table(-2);
        proof {
            V::read_req_holds(context@);
            assert(context@.stack.last() == tbl_get(pre.tables[self.container()], key.write_view()));
        }
        let ghost m_in = context@;
        let r = V::lua_read_index(context, -1);
        let ghost mid = context@;
        context.pop(2);
        proof {
            assert(context@.stack =~= pre.stack);
            if r is Ok {
                V::decoded_ok_stable(r->Ok_0, mid, context@);
                V::read_effect_frame(m_in, mid, pre, context@, Some(r->Ok_0));
            } else {
                V::read_effect_frame(m_in, mid, pre, context@, None);
            }
        }
        r
    }

    fn set<K: LuaWrite, V: LuaWrite>(&self, context: &mut LuaContext, key: K, value: V) {
        let ghost pre = context@;
        context.push_registry(self.refindex);
        proof {
            key.write_req_stable(pre, context@);
        }
        K::lua_write(context, key);
        proof {
            value.write_req_stable(pre, context@);
        }
        V::lua_write(context, value);
        context.set_table(-3);
        context.pop(1);
        proof {
            assert(context@.stack =~= pre.stack);
            assert(context@.tables =~= pre.tables.update(
                self.obj_id(),
                tbl_set(pre.tables[self.obj_id()], key.write_view(), value.write_view()),
            ));
        }
    }

    fn get<K: LuaWrite, V: LuaRead>(&self, context: &mut LuaContext, key: K) -> (r: V) {
        match self.read::<K, V>(context, key) {
            Ok(v) => v,
            Err(_) => unreached(),
        }
    }
}

} // verus!

//! The top of the binding: a state owns a context and offers keyed access to
//! the global environment.

use vstd::prelude::*;
use crate::model::{LuaVal, MAX_STACK, tbl_get, tbl_set, stdlib_table_names, stdlib_fun_names, stdlib_key};
use crate::context::LuaContext;
use crate::marshal::{LuaRead, LuaWrite, DecodeError};
use crate::table::{Table, LuaRef};

verus! {

/// Owns one interpreter instance and exposes its global environment.
/// Reading and writing a global goes through the same stack protocol as any
/// table access and leaves the stack height unchanged.
pub struct State {
    /// The owned context; table operations borrow it.
    pub context: LuaContext,
}

impl State {
    /// A fresh state over a fresh instance, without the standard libraries.
    pub fn new() -> (r: State)
        ensures
            r.context.wf(),
            r.context@.stack.len() == 0,
            r.context@.tables.len() == 1,
            r.context@.globals == 0,
            r.context@.tables[0] == Map::<LuaVal, LuaVal>::empty(),
            r.context@.registry == Map::<int, LuaVal>::empty(),
            r.context@.next_ref == 1,
            r.context@.funs == 0,
            r.context@.users == 0,
            r.context@.owners == 1,
    {
        State { context: LuaContext::new() }
    }

    /// Opens the standard libraries: binds every standard library name in
    /// the globals to a fresh library table, the base functions, and `_G`.
    /// Repeating the call is safe; it binds the names again.
    pub fn openlibs(&mut self)
        requires
            old(self).context.wf(),
            old(self).context@.is_open(),
            old(self).context@.funs + stdlib_fun_names().len() <= usize::MAX,
        ensures
            final(self).context.wf(),
            final(self).context@.tables.len() == old(self).context@.tables.len()
                + stdlib_table_names().len(),
            forall|i: int| 0 <= i < stdlib_table_names().len()
                ==> tbl_get(
                    final(self).context@.global_table(),
                    LuaVal::Str(#[trigger] stdlib_table_names()[i]),
                ) == LuaVal::Table(old(self).context@.tables.len() + i),
            forall|i: int| 0 <= i < stdlib_fun_names().len()
                ==> tbl_get(
                    final(self).context@.global_table(),
                    LuaVal::Str(#[trigger] stdlib_fun_names()[i]),
                ) == LuaVal::Fun(old(self).context@.funs + i),
            tbl_get(final(self).context@.global_table(), LuaVal::Str("_G"@))
                == LuaVal::Table(old(self).context@.globals),
            final(self).context@.funs == old(self).context@.funs + stdlib_fun_names().len(),
            forall|k: LuaVal| !stdlib_key(k)
                ==> #[trigger] tbl_get(final(self).context@.global_table(), k)
                    == tbl_get(old(self).context@.global_table(), k),
            final(self).context@.stack == old(self).context@.stack,
            final(self).context@.registry == old(self).context@.registry,
            final(self).context@.next_ref == old(self).context@.next_ref,
            final(self).context@.globals == old(self).context@.globals,
            final(self).context@.users == old(self).context@.users,
            final(self).context@.owners == old(self).context@.owners,
    {
        self.context.open_stdlib();
    }

    /// A rooted reference to the table of globals.
    pub fn global(&mut self) -> (r: Table)
        requires
            old(self).context.wf(),
            old(self).context@.is_open(),
            old(self).context@.stack.len() < MAX_STACK,
            old(self).context@.next_ref < i32::MAX,
        ensures
            final(self).context.wf(),
            r.obj_id() == old(self).context@.globals,
            r.key_id() == old(self).context@.next_ref,
            r.table_valid(final(self).context@),
            final(self).context@.stack == old(self).context@.stack,
            final(self).context@.registry == old(self).context@.registry.insert(
                old(self).context@.next_ref,
                LuaVal::Table(old(self).context@.globals),
            ),
            final(self).context@.next_ref == old(self).context@.next_ref + 1,
            final(self).context@.tables == old(self).context@.tables,
            final(self).context@.globals == old(self).context@.globals,
            final(self).context@.funs == old(self).context@.funs,
            final(self).context@.users == old(self).context@.users,
            final(self).context@.owners == old(self).context@.owners,
    {
        self.context.push_global_table();
        let r = <Table as LuaRef>::ref_from_stack(&mut self.context);
        proof {
            assert(old(self).context@.stack.push(LuaVal::Table(old(self).context@.globals))
                .drop_last() =~= old(self).context@.stack);
        }
        r
    }

    /// Reads the global bound to `key` and decodes it to `V`.  The stack is
    /// exactly as before the call.
    pub fn read<K: LuaWrite, V: LuaRead>(&mut self, key: K) -> (r: Result<V, DecodeError>)
        requires
            old(self).context.wf(),
            old(self).context@.is_open(),
            key.write_req(old(self).context@),
            old(self).context@.stack.len() + 2 < MAX_STACK,
            old(self).context@.next_ref < i32::MAX,
        ensures
            final(self).context.wf(),
            final(self).context@.stack == old(self).context@.stack,
            final(self).context@.tables == old(self).context@.tables,
            final(self).context@.globals == old(self).context@.globals,
            final(self).context@.funs == old(self).context@.funs,
            final(self).context@.users == old(self).context@.users,
            final(self).context@.owners == old(self).context@.owners,
            old(self).context@.registry_extends(final(self).context@),
            ({
                let v = tbl_get(old(self).context@.global_table(), key.write_view());
                &&& (r is Ok) == V::decodes(v)
                &&& match r {
                    Ok(x) => V::decoded(v, x) && V::decoded_ok(x, final(self).context@)
                        && V::read_effect(old(self).context@, final(self).context@, Some(x)),
                    Err(e) => V::decode_err(v, e)
                        && V::read_effect(old(self).context@, final(self).context@, None),
                }
            }),
    {
        let ghost pre = self.context@;
        self.context.push_global_table();
        proof {
            key.write_req_stable(pre, self.context@);
        }
        K::lua_write(&mut self.context, key);
        self.context.get_table(-2);
        proof {
            V::read_req_holds(self.context@);
        }
        let ghost m_in = self.context@;
        let r = V::lua_read_index(&mut self.context, -1);
        let ghost mid = self.context@;
        self.context.pop(2);
        proof {
            assert(self.context@.stack =~= pre.stack);
            if r is Ok {
                V::decoded_ok_stable(r->Ok_0, mid, self.context@);
                V::read_effect_frame(m_in, mid, pre, self.context@, Some(r->Ok_0));
            } else {
                V::read_effect_frame(m_in, mid, pre, self.context@, None);
            }
        }
        r
    }

    /// Binds the global `key` to `value`; binding nil erases it.  The stack
    /// is exactly as before the call.
    pub fn set<K: LuaWrite, V: LuaWrite>(&mut self, key: K, value: V)
        requires
            old(self).context.wf(),
            old(self).context@.is_open(),
            key.write_req(old(self).context@),
            value.write_req(old(self).context@),
            key.write_view() != LuaVal::Nil,
            old(self).context@.stack.len() + 3 <= MAX_STACK,
        ensures
            final(self).context.wf(),
            final(self).context@.stack == old(self).context@.stack,
            final(self).context@.tables == old(self).context@.tables.update(
                old(self).context@.globals,
                tbl_set(
                    old(self).context@.global_table(),
                    key.write_view(),
                    value.write_view(),
                ),
            ),
            final(self).context@.registry == old(self).context@.registry,
            final(self).context@.next_ref == old(self).context@.next_ref,
            final(self).context@.globals == old(self).context@.globals,
            final(self).context@.funs == old(self).context@.funs,
            final(self).context@.users == old(self).context@.users,
            final(self).context@.owners == old(self).context@.owners,
    {
        let ghost pre = self.context@;
        self.context.push_global_table();
        proof {
            key.write_req_stable(pre, self.context@);
        }
        K::lua_write(&mut self.context, key);
        proof {
            value.write_req_stable(pre, self.context@);
        }
        V::lua_write(&mut self.context, value);
        self.context.set_table(-3);
        self.context.pop(1);
        proof {
            assert(self.context@.stack =~= pre.stack);
            assert(self.context@.tables =~= pre.tables.update(
                pre.globals,
                tbl_set(pre.global_table(), key.write_view(), value.write_view()),
            ));
        }
    }

    /// Reads the global bound to `key`, escalating a decode failure into a
    /// usage error: the global must already hold a value the target type
    /// accepts.  Call sites that need a recoverable outcome use
    /// [`State::read`].
    pub fn get<K: LuaWrite, V: LuaRead>(&mut self, key: K) -> (r: V)
        requires
            old(self).context.wf(),
            old(self).context@.is_open(),
            key.write_req(old(self).context@),
            old(self).context@.stack.len() + 2 < MAX_STACK,
            old(self).context@.next_ref < i32::MAX,
            V::decodes(tbl_get(old(self).context@.global_table(), key.write_view())),
        ensures
            final(self).context.wf(),
            final(self).context@.stack == old(self).context@.stack,
            final(self).context@.tables == old(self).context@.tables,
            final(self).context@.globals == old(self).context@.globals,
            final(self).context@.funs == old(self).context@.funs,
            final(self).context@.users == old(self).context@.users,
            final(self).context@.owners == old(self).context@.owners,
            old(self).context@.registry_extends(final(self).context@),
            V::decoded(tbl_get(old(self).context@.global_table(), key.write_view()), r),
            V::decoded_ok(r, final(self).context@),
            V::read_effect(old(self).context@, final(self).context@, Some(r)),
    {
        match self.read::<K, V>(key) {
            Ok(v) => v,
            Err(_) => unreached(),
        }
    }
}

} // verus!

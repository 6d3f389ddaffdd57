//! The marshalling protocol: how host values cross into and out of
//! interpreter stack slots.
//!
//! [`LuaWrite`] pushes exactly one slot and touches nothing else; the caller
//! removes what it pushed.  [`LuaRead`] inspects the slot at an index without
//! removing it and either decodes it or reports why not: a slot whose value
//! the target type rejects is a [`DecodeError::Mismatch`], a slot kind the
//! bridge does not carry is [`DecodeError::Unsupported`].  Coercion follows
//! the interpreter's own: a numeric string counts as a number, a number
//! counts as a string (its numeral), and a number the target type cannot
//! hold is rejected.

use vstd::prelude::*;
use crate::model::{Interp, LuaVal, MAX_STACK, num_coerce, text_coerce, truthy};
use crate::context::LuaContext;

verus! {

/// Why a stack slot did not decode to the requested type.
#[derive(Clone, Copy, PartialEq, Eq, Structural, Debug)]
pub enum DecodeError {
    /// The slot's value does not fit the requested type.
    Mismatch,
    /// The slot holds a kind the bridge does not carry (function, userdata).
    Unsupported,
}

/// A host type that can be pushed onto the interpreter stack.
pub trait LuaWrite: Sized {
    /// The model value the push leaves on the top.
    spec fn write_view(self) -> LuaVal;

    /// What must hold of the instance for the value to be pushable.
    spec fn write_req(self, m: Interp) -> bool;

    /// Pushability depends only on the heap, never on the stack.
    proof fn write_req_stable(self, m1: Interp, m2: Interp)
        requires
            self.write_req(m1),
            m1.tables == m2.tables,
            m1.registry == m2.registry,
            m1.funs == m2.funs,
            m1.users == m2.users,
        ensures
            self.write_req(m2),
    ;

    /// Pushes exactly one slot holding the value and touches nothing else.
    fn lua_write(context: &mut LuaContext, value: Self)
        requires
            old(context).wf(),
            old(context)@.is_open(),
            old(context)@.stack.len() < MAX_STACK,
            value.write_req(old(context)@),
        ensures
            final(context).wf(),
            final(context)@.same_heap(old(context)@),
            final(context)@.stack == old(context)@.stack.push(value.write_view()),
    ;
}

/// A host type that can be decoded from an interpreter stack slot.
pub trait LuaRead: Sized {
    /// Does a slot holding `v` decode to this type?
    spec fn decodes(v: LuaVal) -> bool;

    /// How the decoded result relates to the slot value.
    spec fn decoded(v: LuaVal, r: Self) -> bool;

    /// Which failure a slot holding `v` yields.
    spec fn decode_err(v: LuaVal, e: DecodeError) -> bool;

    /// The exact effect of the read on the instance: reference types root
    /// what they decode in the registry, everything else changes nothing.
    spec fn read_effect(pre: Interp, post: Interp, r: Option<Self>) -> bool;

    /// What must hold of the instance before a read.
    spec fn read_req(m: Interp) -> bool;

    /// The decoded value is usable in the instance: a reference result is
    /// rooted there, a scalar result always is.
    spec fn decoded_ok(r: Self, m: Interp) -> bool;

    /// Usability rests on the registry alone.
    proof fn decoded_ok_stable(r: Self, m1: Interp, m2: Interp)
        requires
            Self::decoded_ok(r, m1),
            m1.registry == m2.registry,
        ensures
            Self::decoded_ok(r, m2),
    ;

    /// The read effect constrains the registry and the key counter alone, so
    /// it carries from the states around the read itself to any pair of
    /// states that agree with them there and differ only by stack framing.
    proof fn read_effect_frame(pre: Interp, post: Interp, pre2: Interp, post2: Interp, r: Option<Self>)
        requires
            Self::read_effect(pre, post, r),
            pre2.registry == pre.registry,
            pre2.next_ref == pre.next_ref,
            post2.registry == post.registry,
            post2.next_ref == post.next_ref,
            post2.stack == pre2.stack,
            post2.tables == pre2.tables,
            post2.globals == pre2.globals,
            post2.funs == pre2.funs,
            post2.users == pre2.users,
            post2.owners == pre2.owners,
        ensures
            Self::read_effect(pre2, post2, r),
    ;

    /// A read asks at most for registry and stack headroom.
    proof fn read_req_holds(m: Interp)
        requires
            m.next_ref < i32::MAX,
            m.stack.len() < MAX_STACK,
        ensures
            Self::read_req(m),
    ;

    /// Inspects the slot at `index` without removing it and decodes it.
    /// Succeeds exactly on the values [`LuaRead::decodes`] accepts, leaves
    /// the stack as it was, and keeps every registry entry.
    fn lua_read_index(context: &mut LuaContext, index: i32) -> (r: Result<Self, DecodeError>)
        requires
            old(context).wf(),
            old(context)@.is_open(),
            old(context)@.valid_index(index as int),
            Self::read_req(old(context)@),
        ensures
            final(context).wf(),
            final(context)@.stack == old(context)@.stack,
            final(context)@.tables == old(context)@.tables,
            final(context)@.globals == old(context)@.globals,
            final(context)@.funs == old(context)@.funs,
            final(context)@.users == old(context)@.users,
            final(context)@.owners == old(context)@.owners,
            old(context)@.registry_extends(final(context)@),
            (r is Ok) == Self::decodes(old(context)@.at(index as int)),
            match r {
                Ok(x) => Self::decoded(old(context)@.at(index as int), x)
                    && Self::decoded_ok(x, final(context)@)
                    && Self::read_effect(old(context)@, final(context)@, Some(x)),
                Err(e) => Self::decode_err(old(context)@.at(index as int), e)
                    && Self::read_effect(old(context)@, final(context)@, None),
            },
    ;
}

impl LuaWrite for bool {
    open spec fn write_view(self) -> LuaVal {
        LuaVal::Bool(self)
    }

    open spec fn write_req(self, m: Interp) -> bool {
        true
    }

    proof fn write_req_stable(self, m1: Interp, m2: Interp) {
    }

    fn lua_write(context: &mut LuaContext, value: Self) {
        context.push_boolean(value);
    }
}

impl LuaRead for bool {
    open spec fn decodes(v: LuaVal) -> bool {
        true
    }

    open spec fn decoded(v: LuaVal, r: Self) -> bool {
        r == truthy(v)
    }

    open spec fn decode_err(v: LuaVal, e: DecodeError) -> bool {
        false
    }

    open spec fn read_effect(pre: Interp, post: Interp, r: Option<Self>) -> bool {
        post == pre
    }

    open spec fn read_req(m: Interp) -> bool {
        true
    }

    open spec fn decoded_ok(r: Self, m: Interp) -> bool {
        true
    }

    proof fn decoded_ok_stable(r: Self, m1: Interp, m2: Interp) {
    }

    proof fn read_effect_frame(
        pre: Interp,
        post: Interp,
        pre2: Interp,
        post2: Interp,
        r: Option<Self>,
    ) {
        assert(post2 =~= pre2);
    }

    proof fn read_req_holds(m: Interp) {
    }

    fn lua_read_index(context: &mut LuaContext, index: i32) -> (r: Result<Self, DecodeError>) {
        Ok(context.to_boolean(index))
    }
}

impl<'s> LuaWrite for &'s str {
    open spec fn write_view(self) -> LuaVal {
        LuaVal::Str(self@)
    }

    open spec fn write_req(self, m: Interp) -> bool {
        true
    }

    proof fn write_req_stable(self, m1: Interp, m2: Interp) {
    }

    fn lua_write(context: &mut LuaContext, value: Self) {
        context.push_string(value);
    }
}

impl LuaRead for String {
    open spec fn decodes(v: LuaVal) -> bool {
        text_coerce(v) is Some
    }

    open spec fn decoded(v: LuaVal, r: Self) -> bool {
        text_coerce(v) == Some(r@)
    }

    open spec fn decode_err(v: LuaVal, e: DecodeError) -> bool {
        e == DecodeError::Mismatch
    }

    open spec fn read_effect(pre: Interp, post: Interp, r: Option<Self>) -> bool {
        post == pre
    }

    open spec fn read_req(m: Interp) -> bool {
        true
    }

    open spec fn decoded_ok(r: Self, m: Interp) -> bool {
        true
    }

    proof fn decoded_ok_stable(r: Self, m1: Interp, m2: Interp) {
    }

    proof fn read_effect_frame(
        pre: Interp,
        post: Interp,
        pre2: Interp,
        post2: Interp,
        r: Option<Self>,
    ) {
        assert(post2 =~= pre2);
    }

    proof fn read_req_holds(m: Interp) {
    }

    fn lua_read_index(context: &mut LuaContext, index: i32) -> (r: Result<Self, DecodeError>) {
        match context.to_text(index) {
            Some(s) => Ok(s),
            None => Err(DecodeError::Mismatch),
        }
    }
}

/// Narrows a number to `i32`: the value when the type can hold it, the
/// mismatch failure when not.  This is the same narrowing the `i32` reader
/// performs on a slot, offered on plain values so an engine-facing caller
/// can make the identical decision.
pub fn number_to_i32(n: i64) -> (r: Result<i32, DecodeError>)
    ensures
        i32::MIN as i64 <= n <= i32::MAX as i64 ==> r == Ok::<i32, DecodeError>(n as i32),
        !(i32::MIN as i64 <= n <= i32::MAX as i64) ==> r == Err::<i32, DecodeError>(
            DecodeError::Mismatch,
        ),
{
    if n >= i32::MIN as i64 && n <= i32::MAX as i64 {
        Ok(n as i32)
    } else {
        Err(DecodeError::Mismatch)
    }
}

impl LuaWrite for i8 {
    open spec fn write_view(self) -> LuaVal {
        LuaVal::Num(self as i64)
    }

    open spec fn write_req(self, m: Interp) -> bool {
        true
    }

    proof fn write_req_stable(self, m1: Interp, m2: Interp) {
    }

    fn lua_write(context: &mut LuaContext, value: Self) {
        context.push_integer(value as i64);
    }
}

impl LuaRead for i8 {
    open spec fn decodes(v: LuaVal) -> bool {
        match num_coerce(v) {
            Some(n) => i8::MIN as i64 <= n <= i8::MAX as i64,
            None => false,
        }
    }

    open spec fn decoded(v: LuaVal, r: Self) -> bool {
        num_coerce(v) == Some(r as i64)
    }

    open spec fn decode_err(v: LuaVal, e: DecodeError) -> bool {
        e == DecodeError::Mismatch
    }

    open spec fn read_effect(pre: Interp, post: Interp, r: Option<Self>) -> bool {
        post == pre
    }

    open spec fn read_req(m: Interp) -> bool {
        true
    }

    open spec fn decoded_ok(r: Self, m: Interp) -> bool {
        true
    }

    proof fn decoded_ok_stable(r: Self, m1: Interp, m2: Interp) {
    }

    proof fn read_effect_frame(
        pre: Interp,
        post: Interp,
        pre2: Interp,
        post2: Interp,
        r: Option<Self>,
    ) {
        assert(post2 =~= pre2);
    }

    proof fn read_req_holds(m: Interp) {
    }

    fn lua_read_index(context: &mut LuaContext, index: i32) -> (r: Result<Self, DecodeError>) {
        match context.to_integer(index) {
            Some(n) => {
                if n >= i8::MIN as i64 && n <= i8::MAX as i64 {
                    Ok(n as i8)
                } else {
                    Err(DecodeError::Mismatch)
                }
            },
            None => Err(DecodeError::Mismatch),
        }
    }
}


impl LuaWrite for i16 {
    open spec fn write_view(self) -> LuaVal {
        LuaVal::Num(self as i64)
    }

    open spec fn write_req(self, m: Interp) -> bool {
        true
    }

    proof fn write_req_stable(self, m1: Interp, m2: Interp) {
    }

    fn lua_write(context: &mut LuaContext, value: Self) {
        context.push_integer(value as i64);
    }
}

impl LuaRead for i16 {
    open spec fn decodes(v: LuaVal) -> bool {
        match num_coerce(v) {
            Some(n) => i16::MIN as i64 <= n <= i16::MAX as i64,
            None => false,
        }
    }

    open spec fn decoded(v: LuaVal, r: Self) -> bool {
        num_coerce(v) == Some(r as i64)
    }

    open spec fn decode_err(v: LuaVal, e: DecodeError) -> bool {
        e == DecodeError::Mismatch
    }

    open spec fn read_effect(pre: Interp, post: Interp, r: Option<Self>) -> bool {
        post == pre
    }

    open spec fn read_req(m: Interp) -> bool {
        true
    }

    open spec fn decoded_ok(r: Self, m: Interp) -> bool {
        true
    }

    proof fn decoded_ok_stable(r: Self, m1: Interp, m2: Interp) {
    }

    proof fn read_effect_frame(
        pre: Interp,
        post: Interp,
        pre2: Interp,
        post2: Interp,
        r: Option<Self>,
    ) {
        assert(post2 =~= pre2);
    }

    proof fn read_req_holds(m: Interp) {
    }

    fn lua_read_index(context: &mut LuaContext, index: i32) -> (r: Result<Self, DecodeError>) {
        match context.to_integer(index) {
            Some(n) => {
                if n >= i16::MIN as i64 && n <= i16::MAX as i64 {
                    Ok(n as i16)
                } else {
                    Err(DecodeError::Mismatch)
                }
            },
            None => Err(DecodeError::Mismatch),
        }
    }
}


impl LuaWrite for i32 {
    open spec fn write_view(self) -> LuaVal {
        LuaVal::Num(self as i64)
    }

    open spec fn write_req(self, m: Interp) -> bool {
        true
    }

    proof fn write_req_stable(self, m1: Interp, m2: Interp) {
    }

    fn lua_write(context: &mut LuaContext, value: Self) {
        context.push_integer(value as i64);
    }
}

impl LuaRead for i32 {
    open spec fn decodes(v: LuaVal) -> bool {
        match num_coerce(v) {
            Some(n) => i32::MIN as i64 <= n <= i32::MAX as i64,
            None => false,
        }
    }

    open spec fn decoded(v: LuaVal, r: Self) -> bool {
        num_coerce(v) == Some(r as i64)
    }

    open spec fn decode_err(v: LuaVal, e: DecodeError) -> bool {
        e == DecodeError::Mismatch
    }

    open spec fn read_effect(pre: Interp, post: Interp, r: Option<Self>) -> bool {
        post == pre
    }

    open spec fn read_req(m: Interp) -> bool {
        true
    }

    open spec fn decoded_ok(r: Self, m: Interp) -> bool {
        true
    }

    proof fn decoded_ok_stable(r: Self, m1: Interp, m2: Interp) {
    }

    proof fn read_effect_frame(
        pre: Interp,
        post: Interp,
        pre2: Interp,
        post2: Interp,
        r: Option<Self>,
    ) {
        assert(post2 =~= pre2);
    }

    proof fn read_req_holds(m: Interp) {
    }

    fn lua_read_index(context: &mut LuaContext, index: i32) -> (r: Result<Self, DecodeError>) {
        match context.to_integer(index) {
            Some(n) => number_to_i32(n),
            None => Err(DecodeError::Mismatch),
        }
    }
}


impl LuaWrite for u8 {
    open spec fn write_view(self) -> LuaVal {
        LuaVal::Num(self as i64)
    }

    open spec fn write_req(self, m: Interp) -> bool {
        true
    }

    proof fn write_req_stable(self, m1: Interp, m2: Interp) {
    }

    fn lua_write(context: &mut LuaContext, value: Self) {
        context.push_integer(value as i64);
    }
}

impl LuaRead for u8 {
    open spec fn decodes(v: LuaVal) -> bool {
        match num_coerce(v) {
            Some(n) => 0 <= n <= u8::MAX as i64,
            None => false,
        }
    }

    open spec fn decoded(v: LuaVal, r: Self) -> bool {
        num_coerce(v) == Some(r as i64)
    }

    open spec fn decode_err(v: LuaVal, e: DecodeError) -> bool {
        e == DecodeError::Mismatch
    }

    open spec fn read_effect(pre: Interp, post: Interp, r: Option<Self>) -> bool {
        post == pre
    }

    open spec fn read_req(m: Interp) -> bool {
        true
    }

    open spec fn decoded_ok(r: Self, m: Interp) -> bool {
        true
    }

    proof fn decoded_ok_stable(r: Self, m1: Interp, m2: Interp) {
    }

    proof fn read_effect_frame(
        pre: Interp,
        post: Interp,
        pre2: Interp,
        post2: Interp,
        r: Option<Self>,
    ) {
        assert(post2 =~= pre2);
    }

    proof fn read_req_holds(m: Interp) {
    }

    fn lua_read_index(context: &mut LuaContext, index: i32) -> (r: Result<Self, DecodeError>) {
        match context.to_integer(index) {
            Some(n) => {
                if n >= 0 && n <= u8::MAX as i64 {
                    Ok(n as u8)
                } else {
                    Err(DecodeError::Mismatch)
                }
            },
            None => Err(DecodeError::Mismatch),
        }
    }
}


impl LuaWrite for u16 {
    open spec fn write_view(self) -> LuaVal {
        LuaVal::Num(self as i64)
    }

    open spec fn write_req(self, m: Interp) -> bool {
        true
    }

    proof fn write_req_stable(self, m1: Interp, m2: Interp) {
    }

    fn lua_write(context: &mut LuaContext, value: Self) {
        context.push_integer(value as i64);
    }
}

impl LuaRead for u16 {
    open spec fn decodes(v: LuaVal) -> bool {
        match num_coerce(v) {
            Some(n) => 0 <= n <= u16::MAX as i64,
            None => false,
        }
    }

    open spec fn decoded(v: LuaVal, r: Self) -> bool {
        num_coerce(v) == Some(r as i64)
    }

    open spec fn decode_err(v: LuaVal, e: DecodeError) -> bool {
        e == DecodeError::Mismatch
    }

    open spec fn read_effect(pre: Interp, post: Interp, r: Option<Self>) -> bool {
        post == pre
    }

    open spec fn read_req(m: Interp) -> bool {
        true
    }

    open spec fn decoded_ok(r: Self, m: Interp) -> bool {
        true
    }

    proof fn decoded_ok_stable(r: Self, m1: Interp, m2: Interp) {
    }

    proof fn read_effect_frame(
        pre: Interp,
        post: Interp,
        pre2: Interp,
        post2: Interp,
        r: Option<Self>,
    ) {
        assert(post2 =~= pre2);
    }

    proof fn read_req_holds(m: Interp) {
    }

    fn lua_read_index(context: &mut LuaContext, index: i32) -> (r: Result<Self, DecodeError>) {
        match context.to_integer(index) {
            Some(n) => {
                if n >= 0 && n <= u16::MAX as i64 {
                    Ok(n as u16)
                } else {
                    Err(DecodeError::Mismatch)
                }
            },
            None => Err(DecodeError::Mismatch),
        }
    }
}


impl LuaWrite for u32 {
    open spec fn write_view(self) -> LuaVal {
        LuaVal::Num(self as i64)
    }

    open spec fn write_req(self, m: Interp) -> bool {
        true
    }

    proof fn write_req_stable(self, m1: Interp, m2: Interp) {
    }

    fn lua_write(context: &mut LuaContext, value: Self) {
        context.push_integer(value as i64);
    }
}

impl LuaRead for u32 {
    open spec fn decodes(v: LuaVal) -> bool {
        match num_coerce(v) {
            Some(n) => 0 <= n <= u32::MAX as i64,
            None => false,
        }
    }

    open spec fn decoded(v: LuaVal, r: Self) -> bool {
        num_coerce(v) == Some(r as i64)
    }

    open spec fn decode_err(v: LuaVal, e: DecodeError) -> bool {
        e == DecodeError::Mismatch
    }

    open spec fn read_effect(pre: Interp, post: Interp, r: Option<Self>) -> bool {
        post == pre
    }

    open spec fn read_req(m: Interp) -> bool {
        true
    }

    open spec fn decoded_ok(r: Self, m: Interp) -> bool {
        true
    }

    proof fn decoded_ok_stable(r: Self, m1: Interp, m2: Interp) {
    }

    proof fn read_effect_frame(
        pre: Interp,
        post: Interp,
        pre2: Interp,
        post2: Interp,
        r: Option<Self>,
    ) {
        assert(post2 =~= pre2);
    }

    proof fn read_req_holds(m: Interp) {
    }

    fn lua_read_index(context: &mut LuaContext, index: i32) -> (r: Result<Self, DecodeError>) {
        match context.to_integer(index) {
            Some(n) => {
                if n >= 0 && n <= u32::MAX as i64 {
                    Ok(n as u32)
                } else {
                    Err(DecodeError::Mismatch)
                }
            },
            None => Err(DecodeError::Mismatch),
        }
    }
}

} // verus!

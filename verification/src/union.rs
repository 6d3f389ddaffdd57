//! The tagged union over every value kind the bridge carries.
//!
//! [`LuaValue`] is the fallback representation for call sites that do not
//! know a slot's type ahead of decoding.  Decoding dispatches on the slot's
//! type tag; a function or userdata slot is an explicit
//! [`DecodeError::Unsupported`] failure, never silently nil.

use vstd::prelude::*;
use crate::model::{Interp, LuaVal, MAX_STACK};
use crate::context::{LuaContext, LuaType};
use crate::marshal::{LuaRead, LuaWrite, DecodeError};
use crate::table::Table;

verus! {

/// One interpreter value of any carried kind.  Equality is structural except
/// for the table variant, which compares by heap object identity, as the
/// interpreter itself does.
#[derive(Debug, PartialEq)]
pub enum LuaValue {
    LuaBoolean(bool),
    LuaNumber(i64),
    LuaString(String),
    LuaTable(Table),
    Nil,
}

impl View for LuaValue {
    type V = LuaVal;

    open spec fn view(&self) -> LuaVal {
        match self {
            LuaValue::LuaBoolean(b) => LuaVal::Bool(*b),
            LuaValue::LuaNumber(n) => LuaVal::Num(*n),
            LuaValue::LuaString(s) => LuaVal::Str(s@),
            LuaValue::LuaTable(t) => LuaVal::Table(t.obj_id()),
            LuaValue::Nil => LuaVal::Nil,
        }
    }
}

/// A host number type a [`LuaValue`] number can be made from.
pub trait AsLuaNumber: Sized {
    /// The number the value denotes.
    spec fn num_view(self) -> i64;

    /// The number, widened.
    fn as_lua_number(self) -> (r: i64)
        ensures
            r == self.num_view(),
    ;
}

/// A host text type a [`LuaValue`] string can be made from.
pub trait AsLuaText: Sized {
    /// The characters the value denotes.
    spec fn text_view(self) -> Seq<char>;

    /// The text, owned.
    fn into_lua_text(self) -> (r: String)
        ensures
            r@ == self.text_view(),
    ;
}

impl LuaValue {
    /// Wraps a boolean.
    pub fn from_bool(b: bool) -> (r: Self)
        ensures
            r == LuaValue::LuaBoolean(b),
    {
        LuaValue::LuaBoolean(b)
    }

    /// Wraps any host number.
    pub fn from_number<N: AsLuaNumber>(number: N) -> (r: Self)
        ensures
            r == LuaValue::LuaNumber(number.num_view()),
    {
        LuaValue::LuaNumber(number.as_lua_number())
    }

    /// Wraps any host text.
    pub fn from_string<S: AsLuaText>(s: S) -> (r: Self)
        ensures
            r@ == LuaVal::Str(s.text_view()),
    {
        LuaValue::LuaString(s.into_lua_text())
    }
}

impl AsLuaNumber for i8 {
    open spec fn num_view(self) -> i64 {
        self as i64
    }

    fn as_lua_number(self) -> (r: i64) {
        self as i64
    }
}

impl AsLuaNumber for i16 {
    open spec fn num_view(self) -> i64 {
        self as i64
    }

    fn as_lua_number(self) -> (r: i64) {
        self as i64
    }
}

impl AsLuaNumber for i32 {
    open spec fn num_view(self) -> i64 {
        self as i64
    }

    fn as_lua_number(self) -> (r: i64) {
        self as i64
    }
}

impl AsLuaNumber for u8 {
    open spec fn num_view(self) -> i64 {
        self as i64
    }

    fn as_lua_number(self) -> (r: i64) {
        self as i64
    }
}

impl AsLuaNumber for u16 {
    open spec fn num_view(self) -> i64 {
        self as i64
    }

    fn as_lua_number(self) -> (r: i64) {
        self as i64
    }
}

impl AsLuaNumber for u32 {
    open spec fn num_view(self) -> i64 {
        self as i64
    }

    fn as_lua_number(self) -> (r: i64) {
        self as i64
    }
}

impl AsLuaText for String {
    open spec fn text_view(self) -> Seq<char> {
        self@
    }

    fn into_lua_text(self) -> (r: String) {
        self
    }
}

impl<'s> AsLuaText for &'s str {
    open spec fn text_view(self) -> Seq<char> {
        self@
    }

    fn into_lua_text(self) -> (r: String) {
        self.to_owned()
    }
}

impl LuaWrite for LuaValue {
    open spec fn write_view(self) -> LuaVal {
        self@
    }

    open spec fn write_req(self, m: Interp) -> bool {
        match self {
            LuaValue::LuaTable(t) => t.table_valid(m),
            _ => true,
        }
    }

    proof fn write_req_stable(self, m1: Interp, m2: Interp) {
    }

    fn lua_write(context: &mut LuaContext, value: Self) {
        match value {
            LuaValue::LuaBoolean(b) => context.push_boolean(b),
            LuaValue::LuaNumber(n) => context.push_integer(n),
            LuaValue::LuaString(st) => context.push_string(st.as_str()),
            LuaValue::LuaTable(t) => <&Table as LuaWrite>::lua_write(context, &t),
            LuaValue::Nil => context.push_nil(),
        }
    }
}

impl LuaRead for LuaValue {
    open spec fn decodes(v: LuaVal) -> bool {
        !(v is Fun || v is User)
    }

    open spec fn decoded(v: LuaVal, r: Self) -> bool {
        match v {
            LuaVal::Nil => r == LuaValue::Nil,
            LuaVal::Bool(b) => r == LuaValue::LuaBoolean(b),
            LuaVal::Num(n) => r == LuaValue::LuaNumber(n),
            LuaVal::Str(s) => r is LuaString && r->LuaString_0@ == s,
            LuaVal::Table(id) => r is LuaTable && r->LuaTable_0.obj_id() == id,
            _ => false,
        }
    }

    open spec fn decode_err(v: LuaVal, e: DecodeError) -> bool {
        (v is Fun || v is User) && e == DecodeError::Unsupported
    }

    open spec fn read_effect(pre: Interp, post: Interp, r: Option<Self>) -> bool {
        match r {
            Some(LuaValue::LuaTable(t)) => t.key_id() == pre.next_ref && post == pre.with_ref(
                pre.registry.insert(pre.next_ref, LuaVal::Table(t.obj_id())),
                pre.next_ref + 1,
            ),
            _ => post == pre,
        }
    }

    open spec fn read_req(m: Interp) -> bool {
        m.next_ref < i32::MAX && m.stack.len() < MAX_STACK
    }

    open spec fn decoded_ok(r: Self, m: Interp) -> bool {
        match r {
            LuaValue::LuaTable(t) => t.table_valid(m),
            _ => true,
        }
    }

    proof fn decoded_ok_stable(r: Self, m1: Interp, m2: Interp) {
    }

    proof fn read_effect_frame(
        pre: Interp,
        post: Interp,
        pre2: Interp,
        post2: Interp,
        r: Option<Self>,
    ) {
        match r {
            Some(LuaValue::LuaTable(t)) => {
                assert(post2 =~= pre2.with_ref(
                    pre2.registry.insert(pre2.next_ref, LuaVal::Table(t.obj_id())),
                    pre2.next_ref + 1,
                ));
            },
            _ => {
                assert(post2 =~= pre2);
            },
        }
    }

    proof fn read_req_holds(m: Interp) {
    }

    fn lua_read_index(context: &mut LuaContext, index: i32) -> (r: Result<Self, DecodeError>) {
        match context.type_of(index) {
            LuaType::Nil => Ok(LuaValue::Nil),
            LuaType::Boolean => match bool::lua_read_index(context, index) {
                Ok(b) => Ok(LuaValue::LuaBoolean(b)),
                Err(e) => Err(e),
            },
            LuaType::Number => match context.to_integer(index) {
                Some(n) => Ok(LuaValue::LuaNumber(n)),
                None => unreached(),
            },
            LuaType::String => match String::lua_read_index(context, index) {
                Ok(s) => Ok(LuaValue::LuaString(s)),
                Err(_) => unreached(),
            },
            LuaType::Table => match Table::lua_read_index(context, index) {
                Ok(t) => Ok(LuaValue::LuaTable(t)),
                Err(_) => unreached(),
            },
            LuaType::Function => Err(DecodeError::Unsupported),
            LuaType::Userdata => Err(DecodeError::Unsupported),
        }
    }
}

} // verus!

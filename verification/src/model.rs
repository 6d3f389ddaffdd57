//! The mathematical model of one interpreter instance.
//!
//! The interpreter keeps a single value stack, a heap of tables addressed by
//! identity, and a registry that roots heap values under integer keys so they
//! survive independently of the stack.  [`Interp`] is the spec-level picture
//! of that state; every executable operation of the crate is specified as a
//! transformation of an [`Interp`].

use vstd::prelude::*;

verus! {

/// The deepest stack the interpreter accepts; pushing past it is an error of
/// the caller, so every push requires headroom below this bound.
pub const MAX_STACK: usize = 1000000;

/// One interpreter value, as the model sees it.  Tables, functions and
/// userdata are heap objects: the payload is the identity of the object, and
/// two such values are equal exactly when they denote the same object.
#[verifier::ext_equal]
pub enum LuaVal {
    Nil,
    Bool(bool),
    Num(i64),
    Str(Seq<char>),
    Table(int),
    Fun(int),
    User(int),
}

/// The state of one interpreter instance.
#[verifier::ext_equal]
pub struct Interp {
    /// The value stack; index 0 is the bottom.
    pub stack: Seq<LuaVal>,
    /// The table heap; a `LuaVal::Table(id)` denotes `tables[id]`.
    pub tables: Seq<Map<LuaVal, LuaVal>>,
    /// The registry: rooted values by integer key.
    pub registry: Map<int, LuaVal>,
    /// The next registry key to hand out; keys below it are never reused.
    pub next_ref: int,
    /// The heap identity of the table of globals.
    pub globals: int,
    /// How many function objects exist; ids below this are in use.
    pub funs: int,
    /// How many userdata objects exist; ids below this are in use.
    pub users: int,
    /// How many logical owners the instance has; it is closed at zero.
    pub owners: int,
}

/// Reading a key that a table does not hold yields nil.
pub open spec fn tbl_get(t: Map<LuaVal, LuaVal>, k: LuaVal) -> LuaVal {
    if t.dom().contains(k) {
        t[k]
    } else {
        LuaVal::Nil
    }
}

/// Writing nil under a key removes the key; tables never store nil.
pub open spec fn tbl_set(t: Map<LuaVal, LuaVal>, k: LuaVal, v: LuaVal) -> Map<LuaVal, LuaVal> {
    if v == LuaVal::Nil {
        t.remove(k)
    } else {
        t.insert(k, v)
    }
}

/// The names the standard library binds to its library tables.
pub open spec fn stdlib_table_names() -> Seq<Seq<char>> {
    seq![
        "coroutine"@,
        "package"@,
        "string"@,
        "table"@,
        "math"@,
        "bit32"@,
        "io"@,
        "os"@,
        "debug"@,
    ]
}

/// The names the standard library binds to its base functions.
pub open spec fn stdlib_fun_names() -> Seq<Seq<char>> {
    seq!["print"@, "type"@, "pairs"@, "ipairs"@, "tostring"@, "tonumber"@]
}

/// The keys that opening the standard libraries writes.
pub open spec fn stdlib_key(k: LuaVal) -> bool {
    ||| exists|i: int| 0 <= i < stdlib_table_names().len() && k == LuaVal::Str(
        #[trigger] stdlib_table_names()[i],
    )
    ||| exists|i: int| 0 <= i < stdlib_fun_names().len() && k == LuaVal::Str(
        #[trigger] stdlib_fun_names()[i],
    )
    ||| k == LuaVal::Str("_G"@)
}

/// The interpreter's truth: nil and false are false, all else is true.
pub open spec fn truthy(v: LuaVal) -> bool {
    !(v == LuaVal::Nil || v == LuaVal::Bool(false))
}

/// Every character is a decimal digit.
pub open spec fn all_digits(s: Seq<char>) -> bool {
    forall|i: int| 0 <= i < s.len() ==> '0' <= #[trigger] s[i] <= '9'
}

/// The number a digit string denotes.
pub open spec fn digits_val(s: Seq<char>) -> int
    decreases s.len(),
{
    if s.len() == 0 {
        0
    } else {
        digits_val(s.drop_last()) * 10 + (s.last() as int - '0' as int)
    }
}

/// A whitespace character, as the engine's numeral scanner skips it.
pub open spec fn is_space(c: char) -> bool {
    c == ' ' || c == '\t' || c == '\n' || c == '\r' || c == '\u{b}' || c == '\u{c}'
}

/// How many leading characters of `s` are whitespace.
pub open spec fn lead_ws(s: Seq<char>) -> int
    decreases s.len(),
{
    if s.len() > 0 && is_space(s[0]) {
        1 + lead_ws(s.skip(1))
    } else {
        0
    }
}

/// How many trailing characters of `s` are whitespace.
pub open spec fn trail_ws(s: Seq<char>) -> int
    decreases s.len(),
{
    if s.len() > 0 && is_space(s.last()) {
        1 + trail_ws(s.drop_last())
    } else {
        0
    }
}

/// `s` without its surrounding whitespace.
pub open spec fn trimmed(s: Seq<char>) -> Seq<char> {
    if lead_ws(s) + trail_ws(s) >= s.len() {
        Seq::empty()
    } else {
        s.subrange(lead_ws(s), s.len() - trail_ws(s))
    }
}

/// A hexadecimal digit.
pub open spec fn is_hex_digit(c: char) -> bool {
    ('0' <= c <= '9') || ('a' <= c <= 'f') || ('A' <= c <= 'F')
}

/// Every character is a hexadecimal digit.
pub open spec fn all_hex_digits(s: Seq<char>) -> bool {
    forall|i: int| 0 <= i < s.len() ==> is_hex_digit(#[trigger] s[i])
}

/// The value of one hexadecimal digit.
pub open spec fn hex_digit_val(c: char) -> int {
    if '0' <= c <= '9' {
        c as int - '0' as int
    } else if 'a' <= c <= 'f' {
        c as int - 'a' as int + 10
    } else {
        c as int - 'A' as int + 10
    }
}

/// The number a hexadecimal digit string denotes.
pub open spec fn hex_digits_val(s: Seq<char>) -> int
    decreases s.len(),
{
    if s.len() == 0 {
        0
    } else {
        hex_digits_val(s.drop_last()) * 16 + hex_digit_val(s.last())
    }
}

/// The magnitude a sign-free numeral denotes: hexadecimal after a `0x` or
/// `0X` prefix, decimal otherwise.
pub open spec fn magnitude_of(s: Seq<char>) -> Option<int> {
    if s.len() >= 3 && s[0] == '0' && (s[1] == 'x' || s[1] == 'X') && all_hex_digits(s.skip(2)) {
        Some(hex_digits_val(s.skip(2)))
    } else if s.len() >= 1 && all_digits(s) {
        Some(digits_val(s))
    } else {
        None
    }
}

/// The signed reading of a trimmed numeral: an optional sign, then a
/// magnitude.
pub open spec fn signed_num(s: Seq<char>) -> Option<int> {
    if s.len() >= 1 && s[0] == '-' {
        match magnitude_of(s.skip(1)) {
            Some(v) => Some(-v),
            None => None,
        }
    } else if s.len() >= 1 && s[0] == '+' {
        magnitude_of(s.skip(1))
    } else {
        magnitude_of(s)
    }
}

/// The numeric reading of a string, as the engine's scanner accepts it:
/// surrounding whitespace, an optional sign, then decimal digits or a `0x`
/// hexadecimal numeral, denoting a value the number type can hold.  Anything
/// else does not count as numeric.
pub open spec fn str_to_num(s: Seq<char>) -> Option<i64> {
    match signed_num(trimmed(s)) {
        Some(v) => if i64::MIN <= v <= i64::MAX {
            Some(v as i64)
        } else {
            None
        },
        None => None,
    }
}

/// The numeric coercion of a value: numbers count as they are, strings count
/// when they read as numeric, nothing else counts.
pub open spec fn num_coerce(v: LuaVal) -> Option<i64> {
    match v {
        LuaVal::Num(n) => Some(n),
        LuaVal::Str(s) => str_to_num(s),
        _ => None,
    }
}

/// The numeral character of one decimal digit.
pub open spec fn digit_char(d: int) -> char {
    if d == 0 {
        '0'
    } else if d == 1 {
        '1'
    } else if d == 2 {
        '2'
    } else if d == 3 {
        '3'
    } else if d == 4 {
        '4'
    } else if d == 5 {
        '5'
    } else if d == 6 {
        '6'
    } else if d == 7 {
        '7'
    } else if d == 8 {
        '8'
    } else {
        '9'
    }
}

/// The decimal digits of a non-negative number, most significant first; the
/// empty sequence for zero.
pub open spec fn digits_of(n: int) -> Seq<char>
    decreases n,
{
    if n <= 0 {
        Seq::empty()
    } else {
        digits_of(n / 10).push(digit_char(n % 10))
    }
}

/// The numeral of a number, as the interpreter's string conversion writes it.
pub open spec fn num_to_str(n: i64) -> Seq<char> {
    if n == 0 {
        seq!['0']
    } else if n > 0 {
        digits_of(n as int)
    } else {
        seq!['-'] + digits_of(-(n as int))
    }
}

/// The string coercion of a value: a string as it is, a number as its
/// numeral, nothing else.
pub open spec fn text_coerce(v: LuaVal) -> Option<Seq<char>> {
    match v {
        LuaVal::Str(s) => Some(s),
        LuaVal::Num(n) => Some(num_to_str(n)),
        _ => None,
    }
}

impl Interp {
    /// The instance accepts operations only while it has an owner.
    pub open spec fn is_open(self) -> bool {
        self.owners > 0
    }

    /// Stack indices: positive counts from the bottom (1 is the bottom slot),
    /// negative counts from the top (-1 is the top slot).
    pub open spec fn valid_index(self, i: int) -> bool {
        (1 <= i <= self.stack.len()) || (-(self.stack.len() as int) <= i <= -1)
    }

    /// The position in `stack` that index `i` addresses.
    pub open spec fn abs_index(self, i: int) -> int {
        if i > 0 {
            i - 1
        } else {
            self.stack.len() + i
        }
    }

    /// The value at stack index `i`.
    pub open spec fn at(self, i: int) -> LuaVal {
        self.stack[self.abs_index(i)]
    }

    /// A value is well formed when every heap identity it holds is in use.
    pub open spec fn val_wf(self, v: LuaVal) -> bool {
        match v {
            LuaVal::Table(id) => 0 <= id < self.tables.len(),
            LuaVal::Fun(id) => 0 <= id < self.funs,
            LuaVal::User(id) => 0 <= id < self.users,
            _ => true,
        }
    }

    /// A table maps well-formed non-nil keys to well-formed non-nil values.
    pub open spec fn table_wf(self, t: Map<LuaVal, LuaVal>) -> bool {
        forall|k: LuaVal| #[trigger] t.dom().contains(k)
            ==> self.val_wf(k) && self.val_wf(t[k]) && k != LuaVal::Nil && t[k] != LuaVal::Nil
    }

    /// Well-formedness of the whole instance.
    pub open spec fn wf(self) -> bool {
        &&& 0 <= self.globals < self.tables.len()
        &&& self.stack.len() <= MAX_STACK
        &&& (forall|i: int| 0 <= i < self.stack.len() ==> self.val_wf(#[trigger] self.stack[i]))
        &&& (forall|t: int| 0 <= t < self.tables.len() ==> self.table_wf(#[trigger] self.tables[t]))
        &&& (forall|r: int| #[trigger] self.registry.dom().contains(r)
                ==> 1 <= r < self.next_ref && self.val_wf(self.registry[r])
                    && self.registry[r] != LuaVal::Nil)
        &&& 1 <= self.next_ref <= i32::MAX
        &&& self.funs >= 0
        &&& self.users >= 0
        &&& self.owners >= 0
    }

    /// True when everything but the stack agrees: the heap, the registry, the
    /// object counters and the ownership are untouched.
    pub open spec fn same_heap(self, other: Interp) -> bool {
        &&& self.tables == other.tables
        &&& self.registry == other.registry
        &&& self.next_ref == other.next_ref
        &&& self.globals == other.globals
        &&& self.funs == other.funs
        &&& self.users == other.users
        &&& self.owners == other.owners
    }

    /// The same instance with another stack.
    pub open spec fn with_stack(self, s: Seq<LuaVal>) -> Interp {
        Interp { stack: s, ..self }
    }

    /// The registry of `other` holds everything the registry of `self` holds,
    /// unchanged; `other` may root more.
    pub open spec fn registry_extends(self, other: Interp) -> bool {
        &&& forall|r: int| #[trigger] self.registry.dom().contains(r)
                ==> other.registry.dom().contains(r) && other.registry[r] == self.registry[r]
        &&& self.next_ref <= other.next_ref
    }

    /// The table of globals.
    pub open spec fn global_table(self) -> Map<LuaVal, LuaVal> {
        self.tables[self.globals]
    }

    /// The same instance with another registry and ref counter.
    pub open spec fn with_ref(self, registry: Map<int, LuaVal>, next_ref: int) -> Interp {
        Interp { registry: registry, next_ref: next_ref, ..self }
    }

    /// The same instance with one owner more.
    pub open spec fn add_owner(self) -> Interp {
        Interp { owners: self.owners + 1, ..self }
    }

    /// The same instance with one owner fewer.
    pub open spec fn drop_owner(self) -> Interp {
        Interp { owners: self.owners - 1, ..self }
    }
}

} // verus!

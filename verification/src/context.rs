//! The interpreter context: owner of one instance and the only gate to its
//! stack, heap, registry and lifetime.
//!
//! Stack indices follow the interpreter's convention: positive indices count
//! from the bottom (1 is the first slot pushed), negative indices count from
//! the top (-1 is the top slot).

use vstd::prelude::*;
use vstd::string::StrSliceExecFns;
use crate::model::{
    Interp, LuaVal, MAX_STACK, tbl_get, tbl_set, truthy, all_digits, digits_val, str_to_num,
    num_coerce, digit_char, digits_of, num_to_str, text_coerce, is_space, lead_ws, trail_ws,
    trimmed, is_hex_digit, all_hex_digits, hex_digit_val, hex_digits_val, magnitude_of,
    stdlib_table_names, stdlib_fun_names, stdlib_key,
};
use crate::value::{Value, value_eq};
use crate::assoc::{
    keys_distinct, assoc_view, assoc_get, assoc_set, reg_view, reg_alloc, reg_fetch, reg_drop,
};

verus! {

/// The type tag of one stack slot, as the type-inspection call reports it.
#[derive(Clone, Copy, PartialEq, Eq, Structural, Debug)]
pub enum LuaType {
    Nil,
    Boolean,
    Number,
    String,
    Table,
    Function,
    Userdata,
}

/// The tag that classifies a model value.
pub open spec fn kind_of(v: LuaVal) -> LuaType {
    match v {
        LuaVal::Nil => LuaType::Nil,
        LuaVal::Bool(_) => LuaType::Boolean,
        LuaVal::Num(_) => LuaType::Number,
        LuaVal::Str(_) => LuaType::String,
        LuaVal::Table(_) => LuaType::Table,
        LuaVal::Fun(_) => LuaType::Function,
        LuaVal::User(_) => LuaType::Userdata,
    }
}

/// Digit strings denote nothing below zero.
proof fn lemma_digits_nonneg(s: Seq<char>)
    requires
        all_digits(s),
    ensures
        digits_val(s) >= 0,
    decreases s.len(),
{
    if s.len() > 0 {
        assert(all_digits(s.drop_last()));
        lemma_digits_nonneg(s.drop_last());
    }
}

/// A digit string denotes at least as much as any of its prefixes.
proof fn lemma_digits_prefix_le(s: Seq<char>, k: int)
    requires
        all_digits(s),
        0 <= k <= s.len(),
    ensures
        digits_val(s.take(k)) <= digits_val(s),
    decreases s.len() - k,
{
    if k < s.len() {
        lemma_digits_prefix_le(s, k + 1);
        assert(s.take(k + 1).drop_last() =~= s.take(k));
        assert(all_digits(s.take(k)));
        lemma_digits_nonneg(s.take(k));
        assert(digits_val(s.take(k + 1)) == digits_val(s.take(k)) * 10 + (s[k] as int - '0' as int));
    } else {
        assert(s.take(k) =~= s);
    }
}

/// Hexadecimal digit strings denote nothing below zero.
proof fn lemma_hex_nonneg(s: Seq<char>)
    requires
        all_hex_digits(s),
    ensures
        hex_digits_val(s) >= 0,
    decreases s.len(),
{
    if s.len() > 0 {
        assert(all_hex_digits(s.drop_last()));
        lemma_hex_nonneg(s.drop_last());
        assert(hex_digit_val(s.last()) >= 0);
    }
}

/// A hexadecimal digit string denotes at least as much as any of its
/// prefixes.
proof fn lemma_hex_prefix_le(s: Seq<char>, k: int)
    requires
        all_hex_digits(s),
        0 <= k <= s.len(),
    ensures
        hex_digits_val(s.take(k)) <= hex_digits_val(s),
    decreases s.len() - k,
{
    if k < s.len() {
        lemma_hex_prefix_le(s, k + 1);
        assert(s.take(k + 1).drop_last() =~= s.take(k));
        assert(all_hex_digits(s.take(k)));
        lemma_hex_nonneg(s.take(k));
        assert(is_hex_digit(s[k]) && hex_digit_val(s[k]) >= 0);
        assert(hex_digits_val(s.take(k + 1))
            == hex_digits_val(s.take(k)) * 16 + hex_digit_val(s[k]));
    } else {
        assert(s.take(k) =~= s);
    }
}

/// `lead_ws` counts exactly up to the first non-space character.
proof fn lemma_lead_ws(s: Seq<char>, k: int)
    requires
        0 <= k <= s.len(),
        forall|j: int| 0 <= j < k ==> is_space(#[trigger] s[j]),
        k < s.len() ==> !is_space(s[k]),
    ensures
        lead_ws(s) == k,
    decreases k,
{
    if k > 0 {
        assert(is_space(s[0]));
        assert forall|j: int| 0 <= j < k - 1 implies is_space(#[trigger] s.skip(1)[j]) by {
            assert(s.skip(1)[j] == s[j + 1]);
        }
        if k - 1 < s.len() - 1 {
            assert(s.skip(1)[k - 1] == s[k]);
        }
        lemma_lead_ws(s.skip(1), k - 1);
    }
}

/// `trail_ws` counts exactly back to the last non-space character.
proof fn lemma_trail_ws(s: Seq<char>, k: int)
    requires
        0 <= k <= s.len(),
        forall|j: int| s.len() - k <= j < s.len() ==> is_space(#[trigger] s[j]),
        k < s.len() ==> !is_space(s[s.len() - k - 1]),
    ensures
        trail_ws(s) == k,
    decreases k,
{
    if k > 0 {
        assert(is_space(s.last()));
        assert forall|j: int| s.len() - k <= j < s.len() - 1
            implies is_space(#[trigger] s.drop_last()[j]) by {
            assert(s.drop_last()[j] == s[j]);
        }
        lemma_trail_ws(s.drop_last(), k - 1);
    }
}

/// Surrounding whitespace bounds determine the trimmed middle.
proof fn lemma_trim(s: Seq<char>, lo: int, hi: int)
    requires
        0 <= lo <= hi <= s.len(),
        forall|j: int| 0 <= j < lo ==> is_space(#[trigger] s[j]),
        forall|j: int| hi <= j < s.len() ==> is_space(#[trigger] s[j]),
        lo < hi ==> !is_space(s[lo]) && !is_space(s[hi - 1]),
    ensures
        trimmed(s) == s.subrange(lo, hi),
{
    if lo < hi {
        lemma_lead_ws(s, lo);
        lemma_trail_ws(s, s.len() - hi);
    } else {
        assert(forall|j: int| 0 <= j < s.len() ==> is_space(#[trigger] s[j]));
        lemma_lead_ws(s, s.len() as int);
        lemma_trail_ws(s, s.len() as int);
        assert(trimmed(s) =~= s.subrange(lo, hi));
    }
}

/// Whether the numeral scanner skips the character as whitespace.
fn is_space_char(c: char) -> (r: bool)
    ensures
        r == is_space(c),
{
    c == ' ' || c == '\t' || c == '\n' || c == '\r' || c == '\u{b}' || c == '\u{c}'
}

/// Scans `s[from..to]` as decimal digits and accumulates their value, which
/// must fit the accumulator.
fn scan_dec(s: &str, from: usize, to: usize) -> (r: Option<u64>)
    requires
        from <= to <= s@.len(),
    ensures
        ({
            let body = s@.subrange(from as int, to as int);
            match r {
                Some(m) => all_digits(body) && m as int == digits_val(body),
                None => !all_digits(body) || digits_val(body) > u64::MAX,
            }
        }),
{
    let ghost body = s@.subrange(from as int, to as int);
    let mut i = from;
    let mut acc: u64 = 0;
    while i < to
        invariant
            from <= i <= to <= s@.len(),
            body == s@.subrange(from as int, to as int),
            all_digits(body.take(i - from)),
            acc as int == digits_val(body.take(i - from)),
        decreases to - i,
    {
        let c = s.get_char(i);
        proof {
            assert(body[i - from] == c);
        }
        if c < '0' || c > '9' {
            proof {
                assert(!all_digits(body));
            }
            return None;
        }
        proof {
            assert(body.take(i + 1 - from).drop_last() =~= body.take(i - from));
            assert(body.take(i + 1 - from).last() == c);
            assert(digits_val(body.take(i + 1 - from))
                == digits_val(body.take(i - from)) * 10 + (c as int - '0' as int));
        }
        let d = (c as u32 - 48) as u64;
        let step = match acc.checked_mul(10) {
            Some(m) => m.checked_add(d),
            None => None,
        };
        match step {
            Some(v) => {
                acc = v;
            },
            None => {
                proof {
                    assert(digits_val(body.take(i + 1 - from)) > u64::MAX);
                    if all_digits(body) {
                        lemma_digits_prefix_le(body, i + 1 - from);
                    }
                }
                return None;
            },
        }
        i = i + 1;
    }
    proof {
        assert(body.take(to - from) =~= body);
    }
    Some(acc)
}

/// The value of one hexadecimal digit.
fn hex_val_char(c: char) -> (r: u64)
    requires
        is_hex_digit(c),
    ensures
        r as int == hex_digit_val(c),
{
    if c >= '0' && c <= '9' {
        (c as u32 - 48) as u64
    } else if c >= 'a' && c <= 'f' {
        (c as u32 - 97 + 10) as u64
    } else {
        (c as u32 - 65 + 10) as u64
    }
}

/// Scans `s[from..to]` as hexadecimal digits and accumulates their value,
/// which must fit the accumulator.
fn scan_hex(s: &str, from: usize, to: usize) -> (r: Option<u64>)
    requires
        from <= to <= s@.len(),
    ensures
        ({
            let body = s@.subrange(from as int, to as int);
            match r {
                Some(m) => all_hex_digits(body) && m as int == hex_digits_val(body),
                None => !all_hex_digits(body) || hex_digits_val(body) > u64::MAX,
            }
        }),
{
    let ghost body = s@.subrange(from as int, to as int);
    let mut i = from;
    let mut acc: u64 = 0;
    while i < to
        invariant
            from <= i <= to <= s@.len(),
            body == s@.subrange(from as int, to as int),
            all_hex_digits(body.take(i - from)),
            acc as int == hex_digits_val(body.take(i - from)),
        decreases to - i,
    {
        let c = s.get_char(i);
        proof {
            assert(body[i - from] == c);
        }
        let is_h = (c >= '0' && c <= '9') || (c >= 'a' && c <= 'f') || (c >= 'A' && c <= 'F');
        if !is_h {
            proof {
                assert(!all_hex_digits(body));
            }
            return None;
        }
        proof {
            assert(body.take(i + 1 - from).drop_last() =~= body.take(i - from));
            assert(body.take(i + 1 - from).last() == c);
            assert(hex_digits_val(body.take(i + 1 - from))
                == hex_digits_val(body.take(i - from)) * 16 + hex_digit_val(c));
        }
        let d = hex_val_char(c);
        let step = match acc.checked_mul(16) {
            Some(m) => m.checked_add(d),
            None => None,
        };
        match step {
            Some(v) => {
                acc = v;
            },
            None => {
                proof {
                    assert(hex_digits_val(body.take(i + 1 - from)) > u64::MAX);
                    if all_hex_digits(body) {
                        lemma_hex_prefix_le(body, i + 1 - from);
                    }
                }
                return None;
            },
        }
        i = i + 1;
    }
    proof {
        assert(body.take(to - from) =~= body);
    }
    Some(acc)
}

/// Turns a scanned magnitude into the signed number, when the number type
/// can hold it.
fn signed_result(neg: bool, m: u64) -> (r: Option<i64>)
    ensures
        ({
            let v: int = if neg {
                -(m as int)
            } else {
                m as int
            };
            r == if i64::MIN <= v <= i64::MAX {
                Some(v as i64)
            } else {
                None::<i64>
            }
        }),
{
    if neg {
        if m <= i64::MAX as u64 {
            Some(-(m as i64))
        } else if m == 9223372036854775808u64 {
            Some(i64::MIN)
        } else {
            None
        }
    } else {
        if m <= i64::MAX as u64 {
            Some(m as i64)
        } else {
            None
        }
    }
}

/// Reads a string as a number, as [`str_to_num`] defines it.
fn parse_num(s: &str) -> (r: Option<i64>)
    ensures
        r == str_to_num(s@),
{
    let n = s.unicode_len();
    let mut lo: usize = 0;
    while lo < n && is_space_char(s.get_char(lo))
        invariant
            0 <= lo <= n,
            n == s@.len(),
            forall|j: int| 0 <= j < lo ==> is_space(#[trigger] s@[j]),
        decreases n - lo,
    {
        lo = lo + 1;
    }
    let mut hi: usize = n;
    while hi > lo && is_space_char(s.get_char(hi - 1))
        invariant
            lo <= hi <= n,
            n == s@.len(),
            forall|j: int| hi <= j < n ==> is_space(#[trigger] s@[j]),
        decreases hi,
    {
        hi = hi - 1;
    }
    proof {
        if lo == hi && lo < n {
            assert(is_space(s@[lo as int]));
            assert(false);
        }
        lemma_trim(s@, lo as int, hi as int);
    }
    let ghost core = s@.subrange(lo as int, hi as int);
    if lo == hi {
        return None;
    }
    let c0 = s.get_char(lo);
    let neg = c0 == '-';
    let signed = neg || c0 == '+';
    let start = if signed {
        lo + 1
    } else {
        lo
    };
    let ghost body = if signed {
        core.skip(1)
    } else {
        core
    };
    proof {
        assert(core[0] == c0);
        assert(body =~= s@.subrange(start as int, hi as int));
    }
    if start == hi {
        proof {
            assert(body =~= Seq::<char>::empty());
        }
        return None;
    }
    let hex_shape = hi - start >= 3 && s.get_char(start) == '0' && (s.get_char(start + 1) == 'x'
        || s.get_char(start + 1) == 'X');
    proof {
        assert(body[0] == s@[start as int]);
        if hi - start >= 2 {
            assert(body[1] == s@[start as int + 1]);
        }
    }
    if hex_shape {
        let ghost digits = body.skip(2);
        proof {
            assert(digits =~= s@.subrange(start as int + 2, hi as int));
        }
        match scan_hex(s, start + 2, hi) {
            Some(m) => {
                proof {
                    assert(magnitude_of(body) == Some(hex_digits_val(digits)));
                }
                signed_result(neg, m)
            },
            None => {
                proof {
                    if all_hex_digits(digits) {
                        assert(hex_digits_val(digits) > u64::MAX);
                        assert(magnitude_of(body) == Some(hex_digits_val(digits)));
                    } else {
                        assert(!all_digits(body));
                        assert(magnitude_of(body) is None);
                    }
                }
                None
            },
        }
    } else {
        match scan_dec(s, start, hi) {
            Some(m) => {
                proof {
                    assert(magnitude_of(body) == Some(digits_val(body)));
                }
                signed_result(neg, m)
            },
            None => {
                proof {
                    if all_digits(body) {
                        assert(digits_val(body) > u64::MAX);
                        assert(magnitude_of(body) == Some(digits_val(body)));
                    } else {
                        assert(magnitude_of(body) is None);
                    }
                }
                None
            },
        }
    }
}

/// The numeral of one decimal digit.
fn digit_str(d: u64) -> (r: &'static str)
    requires
        d < 10,
    ensures
        r@ == seq![digit_char(d as int)],
{
    let r: &'static str = if d == 0 {
        "0"
    } else if d == 1 {
        "1"
    } else if d == 2 {
        "2"
    } else if d == 3 {
        "3"
    } else if d == 4 {
        "4"
    } else if d == 5 {
        "5"
    } else if d == 6 {
        "6"
    } else if d == 7 {
        "7"
    } else if d == 8 {
        "8"
    } else {
        "9"
    };
    proof {
        reveal_strlit("0");
        reveal_strlit("1");
        reveal_strlit("2");
        reveal_strlit("3");
        reveal_strlit("4");
        reveal_strlit("5");
        reveal_strlit("6");
        reveal_strlit("7");
        reveal_strlit("8");
        reveal_strlit("9");
        assert("0"@.len() == 1 && "0"@[0] == '0');
        assert("1"@.len() == 1 && "1"@[0] == '1');
        assert("2"@.len() == 1 && "2"@[0] == '2');
        assert("3"@.len() == 1 && "3"@[0] == '3');
        assert("4"@.len() == 1 && "4"@[0] == '4');
        assert("5"@.len() == 1 && "5"@[0] == '5');
        assert("6"@.len() == 1 && "6"@[0] == '6');
        assert("7"@.len() == 1 && "7"@[0] == '7');
        assert("8"@.len() == 1 && "8"@[0] == '8');
        assert("9"@.len() == 1 && "9"@[0] == '9');
        assert(r@ =~= seq![digit_char(d as int)]);
    }
    r
}

/// The digits of a non-negative number, most significant first.
fn render_mag(m: u64) -> (r: String)
    ensures
        r@ == digits_of(m as int),
    decreases m,
{
    if m == 0 {
        let s = String::new();
        proof {
            assert(s@ =~= Seq::<char>::empty());
        }
        s
    } else {
        let mut s = render_mag(m / 10);
        s.append(digit_str(m % 10));
        proof {
            assert(s@ =~= digits_of(m as int));
        }
        s
    }
}

/// The numeral of a number, as [`num_to_str`] defines it.
fn render_num(n: i64) -> (r: String)
    ensures
        r@ == num_to_str(n),
{
    if n == 0 {
        proof {
            reveal_strlit("0");
            assert("0"@.len() == 1 && "0"@[0] == '0');
            assert("0"@ =~= seq!['0']);
        }
        return "0".to_owned();
    }
    if n > 0 {
        render_mag(n as u64)
    } else {
        let mag = ((-(n + 1)) as u64) + 1;
        proof {
            assert(mag as int == -(n as int));
        }
        let digits = render_mag(mag);
        let mut s = "-".to_owned();
        s.append(digits.as_str());
        proof {
            reveal_strlit("-");
            assert("-"@.len() == 1 && "-"@[0] == '-');
            assert(s@ =~= seq!['-'] + digits_of(-(n as int)));
        }
        s
    }
}

/// Owns one interpreter instance.  Every operation of the crate goes through
/// a context, and the instance is closed exactly once: when its owner count,
/// raised by [`LuaContext::share`] and lowered by [`LuaContext::release`],
/// falls back to zero.  No operation accepts a closed instance, so the
/// teardown cannot be repeated or raced past.
pub struct LuaContext {
    stack: Vec<Value>,
    tables: Vec<Vec<(Value, Value)>>,
    registry: Vec<Option<Value>>,
    globals: usize,
    funs: usize,
    users: usize,
    owners: usize,
}

impl View for LuaContext {
    type V = Interp;

    closed spec fn view(&self) -> Interp {
        Interp {
            stack: self.stack@.map_values(|v: Value| v@),
            tables: self.tables@.map_values(|t: Vec<(Value, Value)>| assoc_view(t@)),
            registry: reg_view(self.registry@),
            next_ref: self.registry@.len() as int + 1,
            globals: self.globals as int,
            funs: self.funs as int,
            users: self.users as int,
            owners: self.owners as int,
        }
    }
}

impl LuaContext {
    /// The stored pair lists all have distinct keys, so that they denote
    /// their maps faithfully.
    pub closed spec fn inv(self) -> bool {
        forall|t: int| 0 <= t < self.tables@.len() ==> keys_distinct(#[trigger] self.tables@[t]@)
    }

    /// The context is fit for use: its representation is sound and the model
    /// state it denotes is well formed.
    pub open spec fn wf(self) -> bool {
        self.inv() && self@.wf()
    }

    /// A fresh instance: empty stack, an empty table of globals, an empty
    /// registry, one owner.
    pub fn new() -> (r: LuaContext)
        ensures
            r.wf(),
            r@.stack.len() == 0,
            r@.tables.len() == 1,
            r@.globals == 0,
            r@.tables[0] == Map::<LuaVal, LuaVal>::empty(),
            r@.registry == Map::<int, LuaVal>::empty(),
            r@.next_ref == 1,
            r@.funs == 0,
            r@.users == 0,
            r@.owners == 1,
    {
        let mut tables: Vec<Vec<(Value, Value)>> = Vec::new();
        tables.push(Vec::new());
        let r = LuaContext {
            stack: Vec::new(),
            tables: tables,
            registry: Vec::new(),
            globals: 0,
            funs: 0,
            users: 0,
            owners: 1,
        };
        proof {
            assert(r@.tables[0] =~= Map::<LuaVal, LuaVal>::empty());
            assert(r@.registry =~= Map::<int, LuaVal>::empty());
        }
        r
    }

    /// How many slots the stack holds.
    pub fn get_top(&self) -> (n: i32)
        requires
            self.wf(),
        ensures
            n == self@.stack.len(),
    {
        self.stack.len() as i32
    }

    /// The number of logical owners of the instance.
    pub fn owner_count(&self) -> (n: usize)
        ensures
            n == self@.owners,
    {
        self.owners
    }

    /// Registers one more logical owner of the same instance.
    pub fn share(&mut self)
        requires
            old(self).wf(),
            old(self)@.is_open(),
            old(self)@.owners < usize::MAX,
        ensures
            final(self).wf(),
            final(self)@ == old(self)@.add_owner(),
    {
        self.owners = self.owners + 1;
    }

    /// Lets one logical owner go.  When the last owner is gone the instance
    /// is closed, once and for all: no operation accepts a closed context,
    /// and no owner can be registered on one again.
    pub fn release(&mut self)
        requires
            old(self).wf(),
            old(self)@.is_open(),
        ensures
            final(self).wf(),
            final(self)@ == old(self)@.drop_owner(),
            final(self)@.is_open() <==> old(self)@.owners > 1,
    {
        self.owners = self.owners - 1;
    }

    /// Resolves a stack index to a position, bottom first.
    fn resolve(&self, index: i32) -> (n: usize)
        requires
            self.wf(),
            self@.valid_index(index as int),
        ensures
            n == self@.abs_index(index as int),
    {
        if index > 0 {
            (index - 1) as usize
        } else {
            (self.stack.len() as i32 + index) as usize
        }
    }

    /// The type tag of the slot at `index`.
    pub fn type_of(&self, index: i32) -> (t: LuaType)
        requires
            self.wf(),
            self@.valid_index(index as int),
        ensures
            t == kind_of(self@.at(index as int)),
    {
        let n = self.resolve(index);
        match &self.stack[n] {
            Value::Nil => LuaType::Nil,
            Value::Bool(_) => LuaType::Boolean,
            Value::Num(_) => LuaType::Number,
            Value::Str(_) => LuaType::String,
            Value::Table(_) => LuaType::Table,
            Value::Fun(_) => LuaType::Function,
            Value::User(_) => LuaType::Userdata,
        }
    }

    /// True when the slot at `index` holds a table.
    pub fn is_table(&self, index: i32) -> (r: bool)
        requires
            self.wf(),
            self@.valid_index(index as int),
        ensures
            r == (self@.at(index as int) is Table),
    {
        match self.type_of(index) {
            LuaType::Table => true,
            _ => false,
        }
    }

    /// The truth of the slot at `index`: false only for nil and false.
    pub fn to_boolean(&self, index: i32) -> (r: bool)
        requires
            self.wf(),
            self@.valid_index(index as int),
        ensures
            r == truthy(self@.at(index as int)),
    {
        let n = self.resolve(index);
        match &self.stack[n] {
            Value::Nil => false,
            Value::Bool(b) => *b,
            _ => true,
        }
    }

    /// The numeric coercion of the slot at `index`: its number when it holds
    /// one, the number a numeric string denotes, nothing otherwise.
    pub fn to_integer(&self, index: i32) -> (r: Option<i64>)
        requires
            self.wf(),
            self@.valid_index(index as int),
        ensures
            r == num_coerce(self@.at(index as int)),
    {
        let n = self.resolve(index);
        match &self.stack[n] {
            Value::Num(v) => Some(*v),
            Value::Str(s) => parse_num(s.as_str()),
            _ => None,
        }
    }

    /// The string coercion of the slot at `index`: a copy of its string, or
    /// the numeral of its number, nothing otherwise.  The engine's own
    /// conversion rewrites a number slot in place; the bridge copies the text
    /// out at once, so the model leaves the slot as it was.
    pub fn to_text(&self, index: i32) -> (r: Option<String>)
        requires
            self.wf(),
            self@.valid_index(index as int),
        ensures
            match r {
                Some(s) => text_coerce(self@.at(index as int)) == Some(s@),
                None => text_coerce(self@.at(index as int)) is None,
            },
    {
        let n = self.resolve(index);
        match &self.stack[n] {
            Value::Str(s) => Some(s.clone()),
            Value::Num(v) => Some(render_num(*v)),
            _ => None,
        }
    }

    /// The heap identity of the table the slot at `index` holds.
    pub(crate) fn table_id(&self, index: i32) -> (id: usize)
        requires
            self.wf(),
            self@.valid_index(index as int),
            self@.at(index as int) is Table,
        ensures
            id == self@.at(index as int)->Table_0,
    {
        let n = self.resolve(index);
        match &self.stack[n] {
            Value::Table(id) => *id,
            _ => unreached(),
        }
    }

    /// Interpreter equality of the slots at the two indices: structural on
    /// scalars and strings, identity on tables, functions and userdata.
    pub fn compare_eq(&self, i1: i32, i2: i32) -> (r: bool)
        requires
            self.wf(),
            self@.valid_index(i1 as int),
            self@.valid_index(i2 as int),
        ensures
            r == (self@.at(i1 as int) == self@.at(i2 as int)),
    {
        let a = self.resolve(i1);
        let b = self.resolve(i2);
        value_eq(&self.stack[a], &self.stack[b])
    }

    /// Pushes one value; private helper behind the typed pushes.
    fn push_value_raw(&mut self, v: Value)
        requires
            old(self).wf(),
            old(self)@.is_open(),
            old(self)@.stack.len() < MAX_STACK,
            old(self)@.val_wf(v@),
        ensures
            final(self).wf(),
            final(self)@.same_heap(old(self)@),
            final(self)@.stack == old(self)@.stack.push(v@),
    {
        self.stack.push(v);
        proof {
            assert(self@.stack =~= old(self)@.stack.push(v@));
            assert(self@.same_heap(old(self)@));
        }
    }

    /// Pushes nil.
    pub fn push_nil(&mut self)
        requires
            old(self).wf(),
            old(self)@.is_open(),
            old(self)@.stack.len() < MAX_STACK,
        ensures
            final(self).wf(),
            final(self)@.same_heap(old(self)@),
            final(self)@.stack == old(self)@.stack.push(LuaVal::Nil),
    {
        self.push_value_raw(Value::Nil);
    }

    /// Pushes a boolean.
    pub fn push_boolean(&mut self, b: bool)
        requires
            old(self).wf(),
            old(self)@.is_open(),
            old(self)@.stack.len() < MAX_STACK,
        ensures
            final(self).wf(),
            final(self)@.same_heap(old(self)@),
            final(self)@.stack == old(self)@.stack.push(LuaVal::Bool(b)),
    {
        self.push_value_raw(Value::Bool(b));
    }

    /// Pushes a number.
    pub fn push_integer(&mut self, n: i64)
        requires
            old(self).wf(),
            old(self)@.is_open(),
            old(self)@.stack.len() < MAX_STACK,
        ensures
            final(self).wf(),
            final(self)@.same_heap(old(self)@),
            final(self)@.stack == old(self)@.stack.push(LuaVal::Num(n)),
    {
        self.push_value_raw(Value::Num(n));
    }

    /// Pushes a string; the interpreter keeps its own copy.
    pub fn push_string(&mut self, s: &str)
        requires
            old(self).wf(),
            old(self)@.is_open(),
            old(self)@.stack.len() < MAX_STACK,
        ensures
            final(self).wf(),
            final(self)@.same_heap(old(self)@),
            final(self)@.stack == old(self)@.stack.push(LuaVal::Str(s@)),
    {
        self.push_value_raw(Value::Str(s.to_owned()));
    }

    /// Duplicates the slot at `index` onto the top.
    pub fn push_value(&mut self, index: i32)
        requires
            old(self).wf(),
            old(self)@.is_open(),
            old(self)@.stack.len() < MAX_STACK,
            old(self)@.valid_index(index as int),
        ensures
            final(self).wf(),
            final(self)@.same_heap(old(self)@),
            final(self)@.stack == old(self)@.stack.push(old(self)@.at(index as int)),
    {
        let n = self.resolve(index);
        let v = self.stack[n].duplicate();
        self.push_value_raw(v);
    }

    /// Pops `n` slots.
    pub fn pop(&mut self, n: i32)
        requires
            old(self).wf(),
            old(self)@.is_open(),
            0 <= n <= old(self)@.stack.len(),
        ensures
            final(self).wf(),
            final(self)@.same_heap(old(self)@),
            final(self)@.stack == old(self)@.stack.take(old(self)@.stack.len() - n),
    {
        let mut i: i32 = 0;
        while i < n
            invariant
                0 <= i <= n,
                n <= old(self)@.stack.len(),
                self.wf(),
                self@.is_open(),
                self@.same_heap(old(self)@),
                self@.stack == old(self)@.stack.take(old(self)@.stack.len() - i),
            decreases n - i,
        {
            self.stack.pop();
            proof {
                assert(self@.stack =~= old(self)@.stack.take(old(self)@.stack.len() - i - 1));
            }
            i = i + 1;
        }
    }

    /// Creates a fresh empty table in the heap and pushes it.  The new table
    /// is its own object: it differs from every table the instance held
    /// before.
    pub fn new_table(&mut self)
        requires
            old(self).wf(),
            old(self)@.is_open(),
            old(self)@.stack.len() < MAX_STACK,
        ensures
            final(self).wf(),
            final(self)@.tables == old(self)@.tables.push(Map::<LuaVal, LuaVal>::empty()),
            final(self)@.stack == old(self)@.stack.push(LuaVal::Table(old(self)@.tables.len() as int)),
            final(self)@.registry == old(self)@.registry,
            final(self)@.next_ref == old(self)@.next_ref,
            final(self)@.globals == old(self)@.globals,
            final(self)@.funs == old(self)@.funs,
            final(self)@.users == old(self)@.users,
            final(self)@.owners == old(self)@.owners,
    {
        let id = self.tables.len();
        self.tables.push(Vec::new());
        proof {
            assert(self.tables@[old(self)@.tables.len() as int]@ =~= Seq::<(Value, Value)>::empty());
            assert(assoc_view(Seq::<(Value, Value)>::empty()) =~= Map::<LuaVal, LuaVal>::empty());
            assert(self@.tables =~~= old(self)@.tables.push(Map::<LuaVal, LuaVal>::empty()));
        }
        self.stack.push(Value::Table(id));
        proof {
            assert(self@.stack =~= old(self)@.stack.push(LuaVal::Table(old(self)@.tables.len() as int)));
        }
    }

    /// Pushes the table of globals.
    pub fn push_global_table(&mut self)
        requires
            old(self).wf(),
            old(self)@.is_open(),
            old(self)@.stack.len() < MAX_STACK,
        ensures
            final(self).wf(),
            final(self)@.same_heap(old(self)@),
            final(self)@.stack == old(self)@.stack.push(LuaVal::Table(old(self)@.globals)),
    {
        let id = self.globals;
        self.push_value_raw(Value::Table(id));
    }

    /// Table read: the slot at `index` must hold a table; pops the key from
    /// the top and pushes the value the table binds it to, nil when unbound.
    pub fn get_table(&mut self, index: i32)
        requires
            old(self).wf(),
            old(self)@.is_open(),
            old(self)@.stack.len() >= 1,
            old(self)@.valid_index(index as int),
            old(self)@.at(index as int) is Table,
        ensures
            final(self).wf(),
            final(self)@.same_heap(old(self)@),
            final(self)@.stack == old(self)@.stack.drop_last().push(
                tbl_get(
                    old(self)@.tables[old(self)@.at(index as int)->Table_0],
                    old(self)@.stack.last(),
                ),
            ),
    {
        let n = self.resolve(index);
        let id = match &self.stack[n] {
            Value::Table(id) => *id,
            _ => unreached(),
        };
        let key = self.stack.pop().unwrap();
        let v = assoc_get(&self.tables[id], &key);
        self.stack.push(v);
        proof {
            assert(self@.stack =~= old(self)@.stack.drop_last().push(
                tbl_get(
                    old(self)@.tables[old(self)@.at(index as int)->Table_0],
                    old(self)@.stack.last(),
                ),
            ));
        }
    }

    /// Table write: the slot at `index` must hold a table; pops the value
    /// and then the key, and binds the key in that table.  Binding nil
    /// erases the key; nil is not a key.
    pub fn set_table(&mut self, index: i32)
        requires
            old(self).wf(),
            old(self)@.is_open(),
            old(self)@.stack.len() >= 2,
            old(self)@.valid_index(index as int),
            old(self)@.at(index as int) is Table,
            old(self)@.stack[old(self)@.stack.len() - 2] != LuaVal::Nil,
        ensures
            final(self).wf(),
            final(self)@.stack == old(self)@.stack.take(old(self)@.stack.len() - 2),
            final(self)@.tables == old(self)@.tables.update(
                old(self)@.at(index as int)->Table_0,
                tbl_set(
                    old(self)@.tables[old(self)@.at(index as int)->Table_0],
                    old(self)@.stack[old(self)@.stack.len() - 2],
                    old(self)@.stack.last(),
                ),
            ),
            final(self)@.registry == old(self)@.registry,
            final(self)@.next_ref == old(self)@.next_ref,
            final(self)@.globals == old(self)@.globals,
            final(self)@.funs == old(self)@.funs,
            final(self)@.users == old(self)@.users,
            final(self)@.owners == old(self)@.owners,
    {
        let n = self.resolve(index);
        let id = match &self.stack[n] {
            Value::Table(id) => *id,
            _ => unreached(),
        };
        let v = self.stack.pop().unwrap();
        let key = self.stack.pop().unwrap();
        assoc_set(&mut self.tables[id], key, v);
        proof {
            assert(self@.stack =~= old(self)@.stack.take(old(self)@.stack.len() - 2));
            assert(self@.tables =~= old(self)@.tables.update(
                old(self)@.at(index as int)->Table_0,
                tbl_set(
                    old(self)@.tables[old(self)@.at(index as int)->Table_0],
                    old(self)@.stack[old(self)@.stack.len() - 2],
                    old(self)@.stack.last(),
                ),
            ));
        }
    }

    /// Pops the top value and roots it in the registry under a fresh key,
    /// which is returned.  Keys are never reused.
    pub fn registry_ref(&mut self) -> (key: i32)
        requires
            old(self).wf(),
            old(self)@.is_open(),
            old(self)@.stack.len() >= 1,
            old(self)@.stack.last() != LuaVal::Nil,
            old(self)@.next_ref < i32::MAX,
        ensures
            final(self).wf(),
            key == old(self)@.next_ref,
            final(self)@.stack == old(self)@.stack.drop_last(),
            final(self)@.registry == old(self)@.registry.insert(key as int, old(self)@.stack.last()),
            final(self)@.next_ref == old(self)@.next_ref + 1,
            final(self)@.tables == old(self)@.tables,
            final(self)@.globals == old(self)@.globals,
            final(self)@.funs == old(self)@.funs,
            final(self)@.users == old(self)@.users,
            final(self)@.owners == old(self)@.owners,
    {
        let v = self.stack.pop().unwrap();
        let key = reg_alloc(&mut self.registry, v);
        proof {
            assert(self@.stack =~= old(self)@.stack.drop_last());
        }
        key
    }

    /// Releases a registry key; the rooted value is no longer reachable
    /// through the registry.  Unknown keys are ignored.
    pub fn registry_unref(&mut self, key: i32)
        requires
            old(self).wf(),
            old(self)@.is_open(),
        ensures
            final(self).wf(),
            final(self)@.stack == old(self)@.stack,
            final(self)@.registry == old(self)@.registry.remove(key as int),
            final(self)@.next_ref == old(self)@.next_ref,
            final(self)@.tables == old(self)@.tables,
            final(self)@.globals == old(self)@.globals,
            final(self)@.funs == old(self)@.funs,
            final(self)@.users == old(self)@.users,
            final(self)@.owners == old(self)@.owners,
    {
        reg_drop(&mut self.registry, key);
    }

    /// Pushes the value the registry roots under `key`.
    pub fn push_registry(&mut self, key: i32)
        requires
            old(self).wf(),
            old(self)@.is_open(),
            old(self)@.stack.len() < MAX_STACK,
            old(self)@.registry.dom().contains(key as int),
        ensures
            final(self).wf(),
            final(self)@.same_heap(old(self)@),
            final(self)@.stack == old(self)@.stack.push(old(self)@.registry[key as int]),
    {
        let v = reg_fetch(&self.registry, key);
        self.push_value_raw(v);
    }

    /// Creates a fresh function object and pushes it.
    pub fn push_new_function(&mut self)
        requires
            old(self).wf(),
            old(self)@.is_open(),
            old(self)@.stack.len() < MAX_STACK,
            old(self)@.funs < usize::MAX,
        ensures
            final(self).wf(),
            final(self)@.stack == old(self)@.stack.push(LuaVal::Fun(old(self)@.funs)),
            final(self)@.funs == old(self)@.funs + 1,
            final(self)@.registry == old(self)@.registry,
            final(self)@.next_ref == old(self)@.next_ref,
            final(self)@.tables == old(self)@.tables,
            final(self)@.globals == old(self)@.globals,
            final(self)@.users == old(self)@.users,
            final(self)@.owners == old(self)@.owners,
    {
        let id = self.funs;
        self.funs = self.funs + 1;
        self.stack.push(Value::Fun(id));
        proof {
            assert(self@.stack =~= old(self)@.stack.push(LuaVal::Fun(old(self)@.funs)));
        }
    }

    /// Creates a fresh userdata object and pushes it.
    pub fn push_new_userdata(&mut self)
        requires
            old(self).wf(),
            old(self)@.is_open(),
            old(self)@.stack.len() < MAX_STACK,
            old(self)@.users < usize::MAX,
        ensures
            final(self).wf(),
            final(self)@.stack == old(self)@.stack.push(LuaVal::User(old(self)@.users)),
            final(self)@.users == old(self)@.users + 1,
            final(self)@.registry == old(self)@.registry,
            final(self)@.next_ref == old(self)@.next_ref,
            final(self)@.tables == old(self)@.tables,
            final(self)@.globals == old(self)@.globals,
            final(self)@.funs == old(self)@.funs,
            final(self)@.owners == old(self)@.owners,
    {
        let id = self.users;
        self.users = self.users + 1;
        self.stack.push(Value::User(id));
        proof {
            assert(self@.stack =~= old(self)@.stack.push(LuaVal::User(old(self)@.users)));
        }
    }

    /// Binds `name` in the globals to a fresh empty library table.
    fn install_lib_table(&mut self, name: &str)
        requires
            old(self).wf(),
            old(self)@.is_open(),
        ensures
            final(self).wf(),
            final(self)@.tables == old(self)@.tables.push(Map::<LuaVal, LuaVal>::empty()).update(
                old(self)@.globals,
                tbl_set(
                    old(self)@.global_table(),
                    LuaVal::Str(name@),
                    LuaVal::Table(old(self)@.tables.len() as int),
                ),
            ),
            final(self)@.stack == old(self)@.stack,
            final(self)@.registry == old(self)@.registry,
            final(self)@.next_ref == old(self)@.next_ref,
            final(self)@.globals == old(self)@.globals,
            final(self)@.funs == old(self)@.funs,
            final(self)@.users == old(self)@.users,
            final(self)@.owners == old(self)@.owners,
    {
        let id = self.tables.len();
        self.tables.push(Vec::new());
        proof {
            assert(self.tables@[id as int]@ =~= Seq::<(Value, Value)>::empty());
            assert(assoc_view(Seq::<(Value, Value)>::empty()) =~= Map::<LuaVal, LuaVal>::empty());
            assert(self@.tables =~~= old(self)@.tables.push(Map::<LuaVal, LuaVal>::empty()));
        }
        let g = self.globals;
        assoc_set(&mut self.tables[g], Value::Str(name.to_owned()), Value::Table(id));
        proof {
            assert(self@.tables =~~= old(self)@.tables.push(Map::<LuaVal, LuaVal>::empty()).update(
                old(self)@.globals,
                tbl_set(
                    old(self)@.global_table(),
                    LuaVal::Str(name@),
                    LuaVal::Table(old(self)@.tables.len() as int),
                ),
            ));
            assert(self@.stack =~= old(self)@.stack);
        }
    }

    /// Binds `name` in the globals to a fresh function object.
    fn install_base_fun(&mut self, name: &str)
        requires
            old(self).wf(),
            old(self)@.is_open(),
            old(self)@.funs < usize::MAX,
        ensures
            final(self).wf(),
            final(self)@.tables == old(self)@.tables.update(
                old(self)@.globals,
                tbl_set(
                    old(self)@.global_table(),
                    LuaVal::Str(name@),
                    LuaVal::Fun(old(self)@.funs),
                ),
            ),
            final(self)@.funs == old(self)@.funs + 1,
            final(self)@.stack == old(self)@.stack,
            final(self)@.registry == old(self)@.registry,
            final(self)@.next_ref == old(self)@.next_ref,
            final(self)@.globals == old(self)@.globals,
            final(self)@.users == old(self)@.users,
            final(self)@.owners == old(self)@.owners,
    {
        let id = self.funs;
        self.funs = self.funs + 1;
        let g = self.globals;
        assoc_set(&mut self.tables[g], Value::Str(name.to_owned()), Value::Fun(id));
        proof {
            assert(self@.tables =~~= old(self)@.tables.update(
                old(self)@.globals,
                tbl_set(
                    old(self)@.global_table(),
                    LuaVal::Str(name@),
                    LuaVal::Fun(old(self)@.funs),
                ),
            ));
            assert(self@.stack =~= old(self)@.stack);
        }
    }

    /// Binds `_G` in the globals to the table of globals itself.
    fn install_global_alias(&mut self)
        requires
            old(self).wf(),
            old(self)@.is_open(),
        ensures
            final(self).wf(),
            final(self)@.tables == old(self)@.tables.update(
                old(self)@.globals,
                tbl_set(
                    old(self)@.global_table(),
                    LuaVal::Str("_G"@),
                    LuaVal::Table(old(self)@.globals),
                ),
            ),
            final(self)@.stack == old(self)@.stack,
            final(self)@.registry == old(self)@.registry,
            final(self)@.next_ref == old(self)@.next_ref,
            final(self)@.globals == old(self)@.globals,
            final(self)@.funs == old(self)@.funs,
            final(self)@.users == old(self)@.users,
            final(self)@.owners == old(self)@.owners,
    {
        let g = self.globals;
        let alias = "_G";
        assoc_set(&mut self.tables[g], Value::Str(alias.to_owned()), Value::Table(g));
        proof {
            assert(self@.tables =~~= old(self)@.tables.update(
                old(self)@.globals,
                tbl_set(
                    old(self)@.global_table(),
                    LuaVal::Str("_G"@),
                    LuaVal::Table(old(self)@.globals),
                ),
            ));
            assert(self@.stack =~= old(self)@.stack);
        }
    }

    /// Populates the globals with the standard library surface: one library
    /// table per standard library name, the base functions, and the `_G`
    /// alias of the globals themselves.  Repeating the call is safe: it
    /// binds the names again, to fresh objects.
    #[verifier::rlimit(100)]
    pub fn open_stdlib(&mut self)
        requires
            old(self).wf(),
            old(self)@.is_open(),
            old(self)@.funs + stdlib_fun_names().len() <= usize::MAX,
        ensures
            final(self).wf(),
            final(self)@.tables.len() == old(self)@.tables.len() + stdlib_table_names().len(),
            forall|id: int| 0 <= id < old(self)@.tables.len() && id != old(self)@.globals
                ==> final(self)@.tables[id] == #[trigger] old(self)@.tables[id],
            forall|i: int| 0 <= i < stdlib_table_names().len()
                ==> tbl_get(final(self)@.global_table(), LuaVal::Str(#[trigger] stdlib_table_names()[i]))
                    == LuaVal::Table(old(self)@.tables.len() + i),
            forall|i: int| 0 <= i < stdlib_fun_names().len()
                ==> tbl_get(final(self)@.global_table(), LuaVal::Str(#[trigger] stdlib_fun_names()[i]))
                    == LuaVal::Fun(old(self)@.funs + i),
            tbl_get(final(self)@.global_table(), LuaVal::Str("_G"@))
                == LuaVal::Table(old(self)@.globals),
            forall|k: LuaVal| !stdlib_key(k)
                ==> #[trigger] tbl_get(final(self)@.global_table(), k)
                    == tbl_get(old(self)@.global_table(), k),
            final(self)@.funs == old(self)@.funs + stdlib_fun_names().len(),
            final(self)@.stack == old(self)@.stack,
            final(self)@.registry == old(self)@.registry,
            final(self)@.next_ref == old(self)@.next_ref,
            final(self)@.globals == old(self)@.globals,
            final(self)@.users == old(self)@.users,
            final(self)@.owners == old(self)@.owners,
    {
        proof {
            reveal_strlit("coroutine");
            reveal_strlit("package");
            reveal_strlit("string");
            reveal_strlit("table");
            reveal_strlit("math");
            reveal_strlit("bit32");
            reveal_strlit("io");
            reveal_strlit("os");
            reveal_strlit("debug");
            reveal_strlit("print");
            reveal_strlit("type");
            reveal_strlit("pairs");
            reveal_strlit("ipairs");
            reveal_strlit("tostring");
            reveal_strlit("tonumber");
            reveal_strlit("_G");
        }
        self.install_lib_table("coroutine");
        self.install_lib_table("package");
        self.install_lib_table("string");
        self.install_lib_table("table");
        self.install_lib_table("math");
        self.install_lib_table("bit32");
        self.install_lib_table("io");
        self.install_lib_table("os");
        self.install_lib_table("debug");
        self.install_base_fun("print");
        self.install_base_fun("type");
        self.install_base_fun("pairs");
        self.install_base_fun("ipairs");
        self.install_base_fun("tostring");
        self.install_base_fun("tonumber");
        self.install_global_alias();
        proof {
            assert("coroutine"@.len() == 9);
            assert("coroutine"@[0] == 'c');
            assert("coroutine"@[1] == 'o');
            assert("coroutine"@[2] == 'r');
            assert("package"@.len() == 7);
            assert("package"@[0] == 'p');
            assert("package"@[1] == 'a');
            assert("package"@[2] == 'c');
            assert("string"@.len() == 6);
            assert("string"@[0] == 's');
            assert("string"@[1] == 't');
            assert("string"@[2] == 'r');
            assert("table"@.len() == 5);
            assert("table"@[0] == 't');
            assert("table"@[1] == 'a');
            assert("table"@[2] == 'b');
            assert("math"@.len() == 4);
            assert("math"@[0] == 'm');
            assert("math"@[1] == 'a');
            assert("math"@[2] == 't');
            assert("bit32"@.len() == 5);
            assert("bit32"@[0] == 'b');
            assert("bit32"@[1] == 'i');
            assert("bit32"@[2] == 't');
            assert("io"@.len() == 2);
            assert("io"@[0] == 'i');
            assert("io"@[1] == 'o');
            assert("os"@.len() == 2);
            assert("os"@[0] == 'o');
            assert("os"@[1] == 's');
            assert("debug"@.len() == 5);
            assert("debug"@[0] == 'd');
            assert("debug"@[1] == 'e');
            assert("debug"@[2] == 'b');
            assert("print"@.len() == 5);
            assert("print"@[0] == 'p');
            assert("print"@[1] == 'r');
            assert("print"@[2] == 'i');
            assert("type"@.len() == 4);
            assert("type"@[0] == 't');
            assert("type"@[1] == 'y');
            assert("type"@[2] == 'p');
            assert("pairs"@.len() == 5);
            assert("pairs"@[0] == 'p');
            assert("pairs"@[1] == 'a');
            assert("pairs"@[2] == 'i');
            assert("ipairs"@.len() == 6);
            assert("ipairs"@[0] == 'i');
            assert("ipairs"@[1] == 'p');
            assert("ipairs"@[2] == 'a');
            assert("tostring"@.len() == 8);
            assert("tostring"@[0] == 't');
            assert("tostring"@[1] == 'o');
            assert("tostring"@[2] == 's');
            assert("tonumber"@.len() == 8);
            assert("tonumber"@[0] == 't');
            assert("tonumber"@[1] == 'o');
            assert("tonumber"@[2] == 'n');
            assert("_G"@.len() == 2);
            assert("_G"@[0] == '_');
            assert("_G"@[1] == 'G');
            assert forall|i: int| 0 <= i < stdlib_table_names().len()
                implies tbl_get(self@.global_table(), LuaVal::Str(#[trigger] stdlib_table_names()[i]))
                    == LuaVal::Table(old(self)@.tables.len() + i) by {
            if i == 0 {
                assert(stdlib_table_names()[0] == "coroutine"@);
                assert(tbl_get(self@.global_table(), LuaVal::Str("coroutine"@))
                    == LuaVal::Table(old(self)@.tables.len() as int + 0));
            }
            if i == 1 {
                assert(stdlib_table_names()[1] == "package"@);
                assert(tbl_get(self@.global_table(), LuaVal::Str("package"@))
                    == LuaVal::Table(old(self)@.tables.len() as int + 1));
            }
            if i == 2 {
                assert(stdlib_table_names()[2] == "string"@);
                assert(tbl_get(self@.global_table(), LuaVal::Str("string"@))
                    == LuaVal::Table(old(self)@.tables.len() as int + 2));
            }
            if i == 3 {
                assert(stdlib_table_names()[3] == "table"@);
                assert(tbl_get(self@.global_table(), LuaVal::Str("table"@))
                    == LuaVal::Table(old(self)@.tables.len() as int + 3));
            }
            if i == 4 {
                assert(stdlib_table_names()[4] == "math"@);
                assert(tbl_get(self@.global_table(), LuaVal::Str("math"@))
                    == LuaVal::Table(old(self)@.tables.len() as int + 4));
            }
            if i == 5 {
                assert(stdlib_table_names()[5] == "bit32"@);
                assert(tbl_get(self@.global_table(), LuaVal::Str("bit32"@))
                    == LuaVal::Table(old(self)@.tables.len() as int + 5));
            }
            if i == 6 {
                assert(stdlib_table_names()[6] == "io"@);
                assert(tbl_get(self@.global_table(), LuaVal::Str("io"@))
                    == LuaVal::Table(old(self)@.tables.len() as int + 6));
            }
            if i == 7 {
                assert(stdlib_table_names()[7] == "os"@);
                assert(tbl_get(self@.global_table(), LuaVal::Str("os"@))
                    == LuaVal::Table(old(self)@.tables.len() as int + 7));
            }
            if i == 8 {
                assert(stdlib_table_names()[8] == "debug"@);
                assert(tbl_get(self@.global_table(), LuaVal::Str("debug"@))
                    == LuaVal::Table(old(self)@.tables.len() as int + 8));
            }
            }
            assert forall|i: int| 0 <= i < stdlib_fun_names().len()
                implies tbl_get(self@.global_table(), LuaVal::Str(#[trigger] stdlib_fun_names()[i]))
                    == LuaVal::Fun(old(self)@.funs + i) by {
            if i == 0 {
                assert(stdlib_fun_names()[0] == "print"@);
                assert(tbl_get(self@.global_table(), LuaVal::Str("print"@))
                    == LuaVal::Fun(old(self)@.funs + 0));
            }
            if i == 1 {
                assert(stdlib_fun_names()[1] == "type"@);
                assert(tbl_get(self@.global_table(), LuaVal::Str("type"@))
                    == LuaVal::Fun(old(self)@.funs + 1));
            }
            if i == 2 {
                assert(stdlib_fun_names()[2] == "pairs"@);
                assert(tbl_get(self@.global_table(), LuaVal::Str("pairs"@))
                    == LuaVal::Fun(old(self)@.funs + 2));
            }
            if i == 3 {
                assert(stdlib_fun_names()[3] == "ipairs"@);
                assert(tbl_get(self@.global_table(), LuaVal::Str("ipairs"@))
                    == LuaVal::Fun(old(self)@.funs + 3));
            }
            if i == 4 {
                assert(stdlib_fun_names()[4] == "tostring"@);
                assert(tbl_get(self@.global_table(), LuaVal::Str("tostring"@))
                    == LuaVal::Fun(old(self)@.funs + 4));
            }
            if i == 5 {
                assert(stdlib_fun_names()[5] == "tonumber"@);
                assert(tbl_get(self@.global_table(), LuaVal::Str("tonumber"@))
                    == LuaVal::Fun(old(self)@.funs + 5));
            }
            }
        }
    }
}

} // verus!

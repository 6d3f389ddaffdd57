use yuna::{LuaRead, LuaWrite, DecodeError};

#[test]
fn read_bool() {
    let mut context = yuna::LuaContext::new();

    context.push_boolean(true);

    let t: Result<bool, DecodeError> = LuaRead::lua_read_index(&mut context, -1);
    assert_eq!(t, Ok(true));

    context.push_boolean(false);

    let f: Result<bool, DecodeError> = LuaRead::lua_read_index(&mut context, -1);
    assert_eq!(f, Ok(false));
}

#[test]
fn read_integers() {
    let mut context = yuna::LuaContext::new();

    context.push_integer(-84);

    let a: Result<i8, DecodeError> = LuaRead::lua_read_index(&mut context, -1);
    assert_eq!(a, Ok(-84));

    let b: Result<i16, DecodeError> = LuaRead::lua_read_index(&mut context, -1);
    assert_eq!(b, Ok(-84));

    let c: Result<i32, DecodeError> = LuaRead::lua_read_index(&mut context, -1);
    assert_eq!(c, Ok(-84));
}

#[test]
fn read_unsigned() {
    let mut context = yuna::LuaContext::new();

    context.push_integer(116);

    let a: Result<u8, DecodeError> = LuaRead::lua_read_index(&mut context, -1);
    assert_eq!(a, Ok(116));

    let b: Result<u16, DecodeError> = LuaRead::lua_read_index(&mut context, -1);
    assert_eq!(b, Ok(116));

    let c: Result<u32, DecodeError> = LuaRead::lua_read_index(&mut context, -1);
    assert_eq!(c, Ok(116));
}

#[test]
fn write_bool() {
    let mut context = yuna::LuaContext::new();

    LuaWrite::lua_write(&mut context, false);
    let f: bool = LuaRead::lua_read_index(&mut context, -1).unwrap();
    assert_eq!(f, false);

    LuaWrite::lua_write(&mut context, true);
    let t: bool = LuaRead::lua_read_index(&mut context, -1).unwrap();
    assert_eq!(t, true);
}

#[test]
fn write_integers() {
    let mut context = yuna::LuaContext::new();
    let a: i8 = -84;
    let b: i16 = 731;
    let c: i32 = -842;

    LuaWrite::lua_write(&mut context, a);
    let ar: i8 = LuaRead::lua_read_index(&mut context, -1).unwrap();
    assert_eq!(ar, a);

    LuaWrite::lua_write(&mut context, b);
    let br: i16 = LuaRead::lua_read_index(&mut context, -1).unwrap();
    assert_eq!(br, b);

    LuaWrite::lua_write(&mut context, c);
    let cr: i32 = LuaRead::lua_read_index(&mut context, -1).unwrap();
    assert_eq!(cr, c);
}

#[test]
fn write_unsigned() {
    let mut context = yuna::LuaContext::new();
    let a: u8 = 84;
    let b: u16 = 731;
    let c: u32 = 842;

    LuaWrite::lua_write(&mut context, a);
    let ar: u8 = LuaRead::lua_read_index(&mut context, -1).unwrap();
    assert_eq!(ar, a);

    LuaWrite::lua_write(&mut context, b);
    let br: u16 = LuaRead::lua_read_index(&mut context, -1).unwrap();
    assert_eq!(br, b);

    LuaWrite::lua_write(&mut context, c);
    let cr: u32 = LuaRead::lua_read_index(&mut context, -1).unwrap();
    assert_eq!(cr, c);
}

#[test]
fn read_out_of_range_number_is_rejected() {
    let mut context = yuna::LuaContext::new();

    context.push_integer(300);

    let a: Result<u8, DecodeError> = LuaRead::lua_read_index(&mut context, -1);
    assert_eq!(a, Err(DecodeError::Mismatch));

    let b: Result<i8, DecodeError> = LuaRead::lua_read_index(&mut context, -1);
    assert_eq!(b, Err(DecodeError::Mismatch));

    let c: Result<i16, DecodeError> = LuaRead::lua_read_index(&mut context, -1);
    assert_eq!(c, Ok(300));

    context.push_integer(-1);
    let d: Result<u32, DecodeError> = LuaRead::lua_read_index(&mut context, -1);
    assert_eq!(d, Err(DecodeError::Mismatch));
}

#[test]
fn read_numeric_string_as_number() {
    let mut context = yuna::LuaContext::new();

    context.push_string("86");
    let a: Result<i32, DecodeError> = LuaRead::lua_read_index(&mut context, -1);
    assert_eq!(a, Ok(86));

    context.push_string("-123");
    let b: Result<i16, DecodeError> = LuaRead::lua_read_index(&mut context, -1);
    assert_eq!(b, Ok(-123));

    context.push_string("12x");
    let c: Result<i32, DecodeError> = LuaRead::lua_read_index(&mut context, -1);
    assert_eq!(c, Err(DecodeError::Mismatch));

    context.push_string("");
    let d: Result<i32, DecodeError> = LuaRead::lua_read_index(&mut context, -1);
    assert_eq!(d, Err(DecodeError::Mismatch));

    context.push_string("99999999999999999999999999");
    let e: Result<i32, DecodeError> = LuaRead::lua_read_index(&mut context, -1);
    assert_eq!(e, Err(DecodeError::Mismatch));

    context.push_string("9223372036854775807");
    let f: Result<i64, DecodeError> = context
        .to_integer(-1)
        .ok_or(DecodeError::Mismatch);
    assert_eq!(f, Ok(9223372036854775807));

    context.push_string("-9223372036854775808");
    let g: Result<i64, DecodeError> = context
        .to_integer(-1)
        .ok_or(DecodeError::Mismatch);
    assert_eq!(g, Ok(i64::MIN));
}

#[test]
fn numeric_string_accepts_space_sign_and_hex() {
    let mut context = yuna::LuaContext::new();

    context.push_string("  42\t");
    let a: Result<i32, DecodeError> = LuaRead::lua_read_index(&mut context, -1);
    assert_eq!(a, Ok(42));

    context.push_string("+86");
    let b: Result<i32, DecodeError> = LuaRead::lua_read_index(&mut context, -1);
    assert_eq!(b, Ok(86));

    context.push_string("0x2A");
    let c: Result<i32, DecodeError> = LuaRead::lua_read_index(&mut context, -1);
    assert_eq!(c, Ok(42));

    context.push_string(" -0X10 ");
    let d: Result<i32, DecodeError> = LuaRead::lua_read_index(&mut context, -1);
    assert_eq!(d, Ok(-16));

    context.push_string("0x");
    let e: Result<i32, DecodeError> = LuaRead::lua_read_index(&mut context, -1);
    assert_eq!(e, Err(DecodeError::Mismatch));

    context.push_string("4 2");
    let f: Result<i32, DecodeError> = LuaRead::lua_read_index(&mut context, -1);
    assert_eq!(f, Err(DecodeError::Mismatch));

    context.push_string("   ");
    let g: Result<i32, DecodeError> = LuaRead::lua_read_index(&mut context, -1);
    assert_eq!(g, Err(DecodeError::Mismatch));
}

#[test]
fn read_number_as_string() {
    let mut context = yuna::LuaContext::new();

    context.push_integer(86);
    let a: Result<String, DecodeError> = LuaRead::lua_read_index(&mut context, -1);
    assert_eq!(a, Ok(String::from("86")));

    context.push_integer(-123);
    let b: Result<String, DecodeError> = LuaRead::lua_read_index(&mut context, -1);
    assert_eq!(b, Ok(String::from("-123")));

    context.push_integer(0);
    let c: Result<String, DecodeError> = LuaRead::lua_read_index(&mut context, -1);
    assert_eq!(c, Ok(String::from("0")));

    context.push_boolean(true);
    let d: Result<String, DecodeError> = LuaRead::lua_read_index(&mut context, -1);
    assert_eq!(d, Err(DecodeError::Mismatch));
}

#[test]
fn read_bool_is_total() {
    let mut context = yuna::LuaContext::new();

    context.push_nil();
    let n: bool = LuaRead::lua_read_index(&mut context, -1).unwrap();
    assert_eq!(n, false);

    context.push_integer(0);
    let z: bool = LuaRead::lua_read_index(&mut context, -1).unwrap();
    assert_eq!(z, true);

    context.push_string("");
    let s: bool = LuaRead::lua_read_index(&mut context, -1).unwrap();
    assert_eq!(s, true);
}

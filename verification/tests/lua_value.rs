use yuna::{LuaValue, LuaContext, LuaRead, LuaWrite, DecodeError};

#[test]
fn create_luavalue_from_number_integer() {
    let num: i32 = -123;

    let value = LuaValue::from_number(num);

    assert_eq!(LuaValue::LuaNumber(num.into()), value);
}

#[test]
fn create_luavalue_from_number_unsigned() {
    let num: u32 = 256;

    let value = LuaValue::from_number(num);

    assert_eq!(LuaValue::LuaNumber(num.into()), value);
}

#[test]
fn create_luavalue_from_boolean() {
    let truevalue = LuaValue::from_bool(true);

    assert_eq!(LuaValue::LuaBoolean(true), truevalue);

    let falsevalue = LuaValue::from_bool(false);

    assert_eq!(LuaValue::LuaBoolean(false), falsevalue);
}

#[test]
fn create_luavalue_from_string() {
    let teststr = "LuaRocks";

    let valuefromstring = LuaValue::from_string(String::from(teststr));

    assert_eq!(LuaValue::LuaString(String::from(teststr)), valuefromstring);

    let valuefromstr = LuaValue::from_string(teststr);

    assert_eq!(LuaValue::LuaString(String::from(teststr)), valuefromstr);
}

#[test]
fn read_luavalue() {
    let mut context = LuaContext::new();
    let teststr = "LuaRocks";

    context.push_nil();
    let valnil: LuaValue = LuaRead::lua_read_index(&mut context, -1).unwrap();
    assert_eq!(valnil, LuaValue::Nil);

    LuaWrite::lua_write(&mut context, true);
    let valb: LuaValue = LuaRead::lua_read_index(&mut context, -1).unwrap();
    assert_eq!(valb, LuaValue::LuaBoolean(true));

    LuaWrite::lua_write(&mut context, teststr);
    let vals: LuaValue = LuaRead::lua_read_index(&mut context, -1).unwrap();
    assert_eq!(vals, LuaValue::LuaString(String::from(teststr)));

    LuaWrite::lua_write(&mut context, 68i32);
    let valn: LuaValue = LuaRead::lua_read_index(&mut context, -1).unwrap();
    assert_eq!(valn, LuaValue::LuaNumber(68));
}

#[test]
fn write_luavalue() {
    let mut context = LuaContext::new();

    LuaWrite::lua_write(&mut context, LuaValue::Nil);
    let nilread: LuaValue = LuaRead::lua_read_index(&mut context, -1).unwrap();
    assert_eq!(LuaValue::Nil, nilread);

    LuaWrite::lua_write(&mut context, LuaValue::LuaBoolean(false));
    let boolread: LuaValue = LuaRead::lua_read_index(&mut context, -1).unwrap();
    assert_eq!(LuaValue::LuaBoolean(false), boolread);

    LuaWrite::lua_write(&mut context, LuaValue::LuaNumber(22));
    let numread: LuaValue = LuaRead::lua_read_index(&mut context, -1).unwrap();
    assert_eq!(LuaValue::LuaNumber(22), numread);

    let strval = LuaValue::LuaString(String::from("LuaRocks"));
    LuaWrite::lua_write(&mut context, strval);
    let strread: LuaValue = LuaRead::lua_read_index(&mut context, -1).unwrap();
    assert_eq!(LuaValue::LuaString(String::from("LuaRocks")), strread);
}

#[test]
fn read_luavalue_unsupported_userdata() {
    let mut context = LuaContext::new();

    context.push_new_userdata();
    let r: Result<LuaValue, DecodeError> = LuaRead::lua_read_index(&mut context, -1);
    assert_eq!(r, Err(DecodeError::Unsupported));

    context.push_new_function();
    let f: Result<LuaValue, DecodeError> = LuaRead::lua_read_index(&mut context, -1);
    assert_eq!(f, Err(DecodeError::Unsupported));
}

use yuna::{LuaIndex, LuaValue, Table};

#[test]
fn create_and_drop_state() {
    let state = yuna::State::new();
    drop(state);
}

#[test]
fn initial_state_without_libs() {
    let mut state = yuna::State::new();

    let tablelib: LuaValue = state.get("table");
    assert_eq!(tablelib, yuna::LuaValue::Nil);
}

#[test]
fn state_openlibs() {
    let mut state = yuna::State::new();

    state.openlibs();

    let tablelib: LuaValue = state.get("table");
    assert!(tablelib != yuna::LuaValue::Nil);
}

#[test]
fn state_openlibs_twice() {
    let mut state = yuna::State::new();

    state.openlibs();
    state.openlibs();

    let tablelib: LuaValue = state.get("table");
    assert!(tablelib != yuna::LuaValue::Nil);
    let printfn = state.read::<_, LuaValue>("print");
    assert_eq!(printfn, Err(yuna::DecodeError::Unsupported));
}

#[test]
fn lua_index_state() {
    let mut state = yuna::State::new();

    state.set("answer", 42);

    let readanswer: i32 = state.read("answer").unwrap();
    assert_eq!(readanswer, 42);

    let getanswer: LuaValue = state.get("answer");
    assert_eq!(getanswer, yuna::LuaValue::LuaNumber(42));
}

#[test]
fn state_global() {
    let mut state = yuna::State::new();

    let global: yuna::Table = state.global();
    state.set("answer", 42 as i32);

    let from_global: LuaValue = global.get(&mut state.context, "answer");
    let from_state: LuaValue = state.get("answer");
    assert_eq!(from_global, from_state);
}

#[test]
fn state_set_then_read_number() {
    let num: i32 = 86;
    let mut state = yuna::State::new();
    state.openlibs();

    state.set("num", num);

    let r: i32 = state.read("num").unwrap();
    assert_eq!(num, r);
}

#[test]
fn state_keyed_access_keeps_stack_height() {
    let mut state = yuna::State::new();
    let before = state.context.get_top();

    state.set("answer", 42);
    let _: i32 = state.read("answer").unwrap();

    assert_eq!(state.context.get_top(), before);
}

#[test]
fn state_set_nil_erases_global() {
    let mut state = yuna::State::new();

    state.set("answer", 42);
    state.set("answer", LuaValue::Nil);

    let gone: LuaValue = state.get("answer");
    assert_eq!(gone, LuaValue::Nil);
}

#[test]
fn state_openlibs_table_is_a_table() {
    let mut state = yuna::State::new();
    state.openlibs();

    let tablelib: Result<Table, yuna::DecodeError> = state.read("table");
    assert!(tablelib.is_ok());

    let globals: Result<Table, yuna::DecodeError> = state.read("_G");
    let globals = globals.unwrap();
    let answer_table = state.global();
    assert!(globals.eq(&answer_table));
}

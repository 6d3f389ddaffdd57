use yuna::{Table, LuaContext, LuaRead, LuaWrite, LuaIndex, LuaValue};

#[test]
fn read_and_write_table() {
    let mut context = LuaContext::new();

    // Create empty table
    context.new_table();
    // Read Table
    let t: Table = LuaRead::lua_read_index(&mut context, -1).unwrap();

    // Push Table via LuaWrite
    LuaWrite::lua_write(&mut context, &t);

    // Compare created table with pushed table
    let comp = context.compare_eq(-2, -1);
    assert!(comp);
}

#[test]
fn new_table() {
    let mut context = LuaContext::new();

    // Create Table
    let t: Table = Table::new(&mut context);

    // Push Table
    LuaWrite::lua_write(&mut context, &t);

    // Check if pushed table is really a table
    let is_table = context.is_table(-1);
    assert!(is_table);
}

#[test]
fn clone_table() {
    let mut context = LuaContext::new();

    // Create and clone table
    let table: Table = Table::new(&mut context);
    let clone = table.clone_ref(&mut context);

    // Push both tables
    LuaWrite::lua_write(&mut context, &table);
    LuaWrite::lua_write(&mut context, &clone);

    // Compare created table with cloned table
    let comp = context.compare_eq(-2, -1);
    assert!(comp);
}

#[test]
fn compare_table() {
    let mut context = LuaContext::new();

    let table: Table = Table::new(&mut context);
    let same = table.clone_ref(&mut context);
    let notsame = Table::new(&mut context);

    assert!(table.eq(&same));
    assert!(table.ne(&notsame));
}

#[test]
fn lua_index_table() {
    let mut context = LuaContext::new();
    let table = Table::new(&mut context);

    table.set(&mut context, "answer", 42);

    let readanswer: i32 = table.read(&mut context, "answer").unwrap();
    assert_eq!(readanswer, 42);

    let getanswer: LuaValue = table.get(&mut context, "answer");
    assert_eq!(getanswer, yuna::LuaValue::LuaNumber(42));
}

#[test]
fn table_keyed_access_keeps_stack_height() {
    let mut context = LuaContext::new();
    let table = Table::new(&mut context);
    let before = context.get_top();

    table.set(&mut context, "answer", 42);
    let _: i32 = table.read(&mut context, "answer").unwrap();

    assert_eq!(context.get_top(), before);
}

#[test]
fn release_balances_the_registry() {
    let mut context = LuaContext::new();

    let table = Table::new(&mut context);
    table.set(&mut context, "answer", 42);
    let clone = table.clone_ref(&mut context);
    table.release(&mut context);

    // The object survives through the second reference.
    let readanswer: i32 = clone.read(&mut context, "answer").unwrap();
    assert_eq!(readanswer, 42);
}

#[test]
fn table_set_nil_erases_key() {
    let mut context = LuaContext::new();
    let table = Table::new(&mut context);

    table.set(&mut context, "answer", 42);
    table.set(&mut context, "answer", LuaValue::Nil);

    let gone: LuaValue = table.get(&mut context, "answer");
    assert_eq!(gone, LuaValue::Nil);
}

#[test]
fn table_value_round_trips_through_union() {
    let mut context = LuaContext::new();
    let table = Table::new(&mut context);
    let other = Table::new(&mut context);

    table.set(&mut context, "inner", &other);

    let back: LuaValue = table.get(&mut context, "inner");
    match back {
        LuaValue::LuaTable(t) => assert!(t.eq(&other)),
        _ => panic!("expected a table"),
    }
}

#[test]
fn table_set_same_key_twice_keeps_latest() {
    let mut context = LuaContext::new();
    let table = Table::new(&mut context);

    table.set(&mut context, "answer", 41);
    table.set(&mut context, "answer", 42);

    let readanswer: i32 = table.read(&mut context, "answer").unwrap();
    assert_eq!(readanswer, 42);
}

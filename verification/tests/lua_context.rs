use yuna::LuaContext;

#[test]
fn create_and_close_context() {
    let context = LuaContext::new();
    drop(context);
}

#[test]
fn clone_context() {
    let mut context = LuaContext::new();
    context.share();

    assert_eq!(context.owner_count(), 2);
}

#[test]
fn share_and_release_context() {
    let mut context = LuaContext::new();
    context.share();
    context.share();
    assert_eq!(context.owner_count(), 3);

    context.release();
    context.release();
    assert_eq!(context.owner_count(), 1);

    context.release();
    assert_eq!(context.owner_count(), 0);
}

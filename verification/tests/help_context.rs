use turbo_vision::views::help_context::HelpContext;

#[test]
fn test_help_context_new() {
    let ctx = HelpContext::new();
    assert_eq!(ctx.count(), 0);
}

#[test]
fn test_register_and_get() {
    let mut ctx = HelpContext::new();
    ctx.register(100, "file-open");
    ctx.register(101, "file-save");

    assert_eq!(ctx.get_topic(100), Some("file-open"));
    assert_eq!(ctx.get_topic(101), Some("file-save"));
    assert_eq!(ctx.get_topic(102), None);
}

#[test]
fn test_has_context() {
    let mut ctx = HelpContext::new();
    ctx.register(100, "test-topic");

    assert!(ctx.has_context(100));
    assert!(!ctx.has_context(101));
}

#[test]
fn test_unregister() {
    let mut ctx = HelpContext::new();
    ctx.register(100, "test-topic");
    assert!(ctx.has_context(100));

    assert!(ctx.unregister(100));
    assert!(!ctx.has_context(100));

    // Unregistering again returns false
    assert!(!ctx.unregister(100));
}

#[test]
fn help_context_test_clear() {
    let mut ctx = HelpContext::new();
    ctx.register(100, "topic1");
    ctx.register(101, "topic2");
    assert_eq!(ctx.count(), 2);

    ctx.clear();
    assert_eq!(ctx.count(), 0);
}

#[test]
fn test_overwrite_registration() {
    let mut ctx = HelpContext::new();
    ctx.register(100, "topic1");
    ctx.register(100, "topic2");

    assert_eq!(ctx.get_topic(100), Some("topic2"));
    assert_eq!(ctx.count(), 1);
}

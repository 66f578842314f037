use agentview::prompt_context::{PromptContext, Role, Turn};

#[test]
fn text_context_push_user_goes_to_working_set() {
    let mut ctx: PromptContext = PromptContext::new("sys");
    ctx.push_user("memory snapshot");
    ctx.push_user("player says hello");
    assert_eq!(ctx.working_set().len(), 2);
    assert_eq!(ctx.working_set()[0].role, Role::User);
    assert_eq!(&*ctx.working_set()[0].text, "memory snapshot");
}

#[test]
fn history_grows_with_explicit_append() {
    let mut ctx: PromptContext = PromptContext::new("sys");
    ctx.extend_history(vec![Turn::user("turn 1"), Turn::assistant("reply 1")]);
    ctx.extend_history(vec![Turn::user("turn 2"), Turn::assistant("reply 2")]);
    assert_eq!(ctx.history().len(), 4);
}

#[test]
fn simple_factory() {
    let ctx: PromptContext = PromptContext::simple("system", "user message");
    assert_eq!(ctx.system(), Some("system"));
    assert!(ctx.history().is_empty());
    assert_eq!(ctx.working_set().len(), 1);
    assert_eq!(&*ctx.working_set()[0].text, "user message");
}

#[test]
fn the_first_system_prompt_stays() {
    let mut ctx: PromptContext = PromptContext::without_system();
    assert!(!ctx.has_system());
    ctx.set_system_once("first");
    ctx.set_system_once("second");
    assert_eq!(ctx.system(), Some("first"));
}

#[test]
fn an_injected_turn_goes_to_the_history() {
    let mut ctx: PromptContext = PromptContext::new("sys");
    ctx.inject_history_turn(Role::Assistant, "earlier reply");
    assert_eq!(ctx.history().len(), 1);
    assert_eq!(ctx.history()[0].role, Role::Assistant);
    ctx.push_user("question");
    ctx.clear_working_set();
    assert!(ctx.working_set().is_empty());
    assert_eq!(ctx.history().len(), 1);
}

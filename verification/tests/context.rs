use procc_ll::{Context, Errors, Program, Strategy, Token, Values};
use std::rc::Rc;

struct Starts(&'static str);

impl Token<()> for Starts {
    fn exec(&self, _input: &str, _program: &mut ()) -> Option<Values> {
        None
    }

    fn is_token(&self, c: &str) -> bool {
        c.starts_with(self.0)
    }
}

type Ctx = Context<Starts, u32, u64>;

fn text(s: &str) -> Values {
    Values::String(s.to_string())
}

fn nested(mut outer: Ctx, inner: Ctx) -> Ctx {
    outer.sub_context = Some(Box::new(inner));
    outer
}

#[test]
fn new_context_is_empty() {
    let c = Ctx::new();
    assert!(!c.has_token(0));
    assert!(!c.has_key("a"));
    assert!(!c.has_function("a"));
    assert!(!c.has_memory("a"));
    assert!(c.sub_context.is_none());
    assert!(c.gifs_token(0).is_none());
}

#[test]
fn memory_is_read_back() {
    let mut c = Ctx::new();
    c.push_memory("i", text("hola"));
    assert_eq!(c.get_memory("i"), Ok(text("hola")));
    assert!(c.has_memory("i"));
    assert_eq!(c.gifs_memory("i"), Some(text("hola")));
    c.push_memory("i", Values::Number(2.5f64.to_bits()));
    assert_eq!(c.get_memory("i"), Ok(Values::Number(2.5f64.to_bits())));
    assert_eq!(c.get_memory("j"), Err(Errors::MemoryNotDefined("j".to_string())));
    assert_eq!(c.gifs_memory("j"), None);
}

#[test]
fn new_name_goes_to_the_nested_context() {
    let mut c = nested(Ctx::new(), Ctx::new());
    c.push_memory("x", text("outer"));
    assert!(!c.memory.contains_key("x"));
    assert_eq!(c.get_memory("x"), Ok(text("outer")));
    assert!(c.has_memory("x"));
    assert_eq!(c.get_memory("y"), Err(Errors::MemoryNotFound("y".to_string())));
    c.sub_context = None;
    assert_eq!(c.get_memory("x"), Err(Errors::MemoryNotDefined("x".to_string())));
    assert!(!c.has_memory("x"));
}

#[test]
fn bound_name_is_updated_where_it_is() {
    let mut c = Ctx::new();
    c.push_memory("x", text("one"));
    let mut c = nested(c, Ctx::new());
    c.push_memory("x", text("two"));
    c.sub_context = None;
    assert_eq!(c.get_memory("x"), Ok(text("two")));
}

#[test]
fn lookup_goes_one_level_down_only() {
    let mut deepest = Ctx::new();
    deepest.push_memory("deep", Values::Null);
    deepest.push_function("deep".to_string(), 7);
    let c = nested(Ctx::new(), nested(Ctx::new(), deepest));
    assert!(c.has_memory("deep"));
    assert!(c.has_function("deep"));
    assert_eq!(c.get_memory("deep"), Err(Errors::MemoryNotFound("deep".to_string())));
    assert_eq!(c.gifs_memory("deep"), None);
    assert_eq!(c.get_function("deep"), Err(Errors::FunctionNotFound("deep".to_string())));
}

#[test]
fn write_goes_down_to_the_last_level() {
    let mut c = nested(Ctx::new(), nested(Ctx::new(), Ctx::new()));
    c.push_memory("x", Values::Null);
    c.push_function("f".to_string(), 1);
    let middle = c.sub_context.as_ref().unwrap();
    let last = middle.sub_context.as_ref().unwrap();
    assert!(!middle.memory.contains_key("x"));
    assert!(last.memory.contains_key("x"));
    assert!(!middle.functions.contains_key("f"));
    assert!(last.functions.contains_key("f"));
}

#[test]
fn keys_are_registered_at_this_level() {
    let mut c = nested(Ctx::new(), Ctx::new());
    c.push_key("k".to_string(), 1);
    assert!(c.has_key("k"));
    assert!(c.keys.contains_key("k"));
    assert_eq!(c.get_key("k"), Ok(Rc::new(1)));
    c.push_key("k".to_string(), 2);
    assert_eq!(c.get_key("k"), Ok(Rc::new(2)));
    assert_eq!(c.get_key("other"), Err(Errors::KeyNotFound("other".to_string())));
    assert!(!c.has_key("other"));
}

#[test]
fn functions_follow_the_rule_of_memory() {
    let mut c = Ctx::new();
    c.push_function("f".to_string(), 1);
    c.push_function("f".to_string(), 2);
    assert_eq!(c.get_function("f"), Ok(Rc::new(2)));
    let mut c = nested(c, Ctx::new());
    c.push_function("g".to_string(), 3);
    c.push_function("f".to_string(), 4);
    assert!(c.functions.contains_key("f"));
    assert!(!c.functions.contains_key("g"));
    assert_eq!(c.get_function("g"), Ok(Rc::new(3)));
    assert_eq!(c.get_function("f"), Ok(Rc::new(4)));
    assert_eq!(c.get_function("h"), Err(Errors::FunctionNotFound("h".to_string())));
    assert!(c.has_function("g"));
    c.sub_context = None;
    assert_eq!(c.get_function("g"), Err(Errors::FunctionNotFound("g".to_string())));
    assert_eq!(c.get_function("f"), Ok(Rc::new(4)));
    assert!(!c.has_function("g"));
}

#[test]
fn tokens_keep_their_order() {
    let mut c = Ctx::new();
    c.push_token(Starts("ab"));
    c.push_token(Starts("a"));
    c.push_token(Starts("ab"));
    assert!(c.has_token(2));
    assert!(!c.has_token(3));
    assert_eq!(c.get_token(1).0, "a");
    assert_eq!(c.gifs_token(2).map(|t| t.0), Some("ab"));
    assert!(c.gifs_token(3).is_none());
    assert_eq!(c.token_index::<()>("abc"), Ok(0));
    assert_eq!(c.token_index::<()>("acb"), Ok(1));
    assert_eq!(c.token_index::<()>("cab"), Err(Errors::TokenNotMatched("cab".to_string())));
}

#[test]
fn gifs_give_what_is_registered() {
    let mut c = Ctx::new();
    assert_eq!(c.gifs_key("k"), None);
    assert_eq!(c.gifs_function("f"), None);
    c.push_key("k".to_string(), 1);
    c.push_function("f".to_string(), 9);
    assert_eq!(c.gifs_key("k"), Some(Rc::new(1)));
    assert_eq!(c.gifs_function("f"), Some(Rc::new(9)));
    assert_eq!(c.gifs_key("f"), None);
    assert_eq!(c.gifs_function("k"), None);
    c.push_memory("m", Values::Null);
    assert_eq!(c.gifs_key("m"), None);
    assert_eq!(c.gifs_function("m"), None);
    let mut c = nested(c, Ctx::new());
    c.push_function("g".to_string(), 3);
    assert_eq!(c.gifs_function("g"), Some(Rc::new(3)));
    c.sub_context = None;
    assert_eq!(c.gifs_function("g"), None);
}

#[test]
fn depth_context_opens_and_closes() {
    let mut p: Program<Starts, u32, u64> = Program::new();
    p.push_internal_memory("i", text("hola"));
    let outer = p.new_depth_context();
    assert!(outer.is_none());
    assert!(p.context.sub_context.is_some());
    assert_eq!(p.context.get_memory("i"), Ok(text("hola")));
    p.push_internal_memory("e", text("nooo"));
    p.push_internal_memory("i", text("adios"));
    assert_eq!(p.context.get_memory("e"), Ok(text("nooo")));
    let inner = p.new_depth_context();
    assert!(inner.is_some());
    assert_eq!(p.context.get_memory("e"), Err(Errors::MemoryNotFound("e".to_string())));
    p.close_depth_context(inner);
    assert_eq!(p.context.get_memory("e"), Ok(text("nooo")));
    p.close_depth_context(outer);
    assert_eq!(p.context.get_memory("e"), Err(Errors::MemoryNotDefined("e".to_string())));
    assert_eq!(p.context.get_memory("i"), Ok(text("adios")));
}

#[test]
fn program_from_context_keeps_it() {
    let mut c = Ctx::new();
    c.push_memory("a", Values::Boolean(true));
    c.push_key("k".to_string(), 5);
    let p = Program::new_from_context(c);
    assert_eq!(p.context.get_memory("a"), Ok(Values::Boolean(true)));
    assert_eq!(
        p.strategy("k  rest of it"),
        Strategy::Key { name: "k".to_string(), content: "rest of it".to_string() }
    );
    assert_eq!(p.strategy("$ a "), Strategy::Memory { name: "a".to_string() });
    assert_eq!(
        p.strategy("f(x,y)"),
        Strategy::Call { name: "f".to_string(), args: vec!["x".to_string(), "y".to_string()] }
    );
    assert_eq!(p.strategy("plain"), Strategy::Token);
    assert_eq!(p.strategy(""), Strategy::Token);
}

use exprlang::eval::{ArgViews, Env, NativeFn, Node, Value, ValueView};

#[derive(Debug, Clone, Copy, PartialEq)]
enum Builtin {
    Sum,
    Count,
}

impl NativeFn<f32> for Builtin {
    // The verifier's model of a call; nothing calls it when the tests run.
    fn result_of(&self, _args: ArgViews<f32, Builtin>) -> ValueView<f32, Builtin> {
        unreachable!()
    }

    fn call(&self, args: Vec<Value<f32, Builtin>>) -> Value<f32, Builtin> {
        match self {
            Builtin::Sum => {
                let mut sum = 0f32;
                for a in args {
                    if let Value::Number(n) = a {
                        sum += n;
                    }
                }
                Value::Number(sum)
            }
            Builtin::Count => Value::Number(args.len() as f32),
        }
    }
}

type Val = Value<f32, Builtin>;

fn sym(s: &str) -> Box<Node<f32>> {
    Box::new(Node::Symbol(String::from(s)))
}

fn num(n: f32) -> Box<Node<f32>> {
    Box::new(Node::Number(n))
}

fn number(v: &Val) -> f32 {
    match v {
        Value::Number(n) => *n,
        other => panic!("not a number: {:?}", other),
    }
}

fn items(v: &Val) -> &Vec<Val> {
    match v {
        Value::List(xs) => xs,
        other => panic!("not a list: {:?}", other),
    }
}

fn env_with_sum() -> Env<f32, Builtin> {
    let mut env = Env::new();
    env.insert("add", Value::Native(Builtin::Sum));
    env
}

#[test]
fn list_with_native_head_is_a_call() {
    let env = env_with_sum();
    let call = Node::List(vec![sym("add"), num(32.0), num(10.0)]);
    assert_eq!(number(&call.eval(&env)), 42.0);
}

#[test]
fn list_with_unbound_head_is_data() {
    let env = env_with_sum();
    let data = Node::List(vec![sym("unbound_symbol"), num(32.0), num(10.0)]);
    let v = data.eval(&env);
    let xs = items(&v);
    assert_eq!(xs.len(), 3);
    assert!(matches!(xs[0], Value::Nil));
    assert_eq!(number(&xs[1]), 32.0);
    assert_eq!(number(&xs[2]), 10.0);
}

#[test]
fn unbound_symbol_is_nil() {
    let env: Env<f32, Builtin> = Env::new();
    assert!(matches!(Node::Symbol(String::from("nope")).eval(&env), Value::Nil));
}

#[test]
fn block_gives_last_value() {
    let env: Env<f32, Builtin> = Env::new();
    let block = Node::Block(vec![num(1.0), num(2.0), num(3.0)]);
    assert_eq!(number(&block.eval(&env)), 3.0);
}

#[test]
fn empty_block_is_nil() {
    let env: Env<f32, Builtin> = Env::new();
    assert!(matches!(Node::Block(vec![]).eval(&env), Value::Nil));
}

#[test]
fn empty_list_is_empty_data() {
    let env = env_with_sum();
    let v = Node::List(vec![]).eval(&env);
    assert!(items(&v).is_empty());
}

#[test]
fn native_ignores_non_numbers() {
    let env = env_with_sum();
    let call = Node::List(vec![
        sym("add"),
        num(5.0),
        Box::new(Node::String(String::from("x"))),
    ]);
    assert_eq!(number(&call.eval(&env)), 5.0);
}

#[test]
fn literals_evaluate_to_themselves() {
    let env: Env<f32, Builtin> = Env::new();
    assert!(matches!(Node::<f32>::Nil.eval(&env), Value::Nil));
    assert_eq!(number(&Node::Number(2.5).eval(&env)), 2.5);
    match Node::<f32>::String(String::from("hi")).eval(&env) {
        Value::String(s) => assert_eq!(s, "hi"),
        other => panic!("not a string: {:?}", other),
    }
}

#[test]
fn symbol_gives_a_copy_of_its_binding() {
    let mut env: Env<f32, Builtin> = Env::new();
    env.insert(
        "xs",
        Value::List(vec![Value::Number(1.0), Value::Symbol(String::from("a"))]),
    );
    let v = Node::Symbol(String::from("xs")).eval(&env);
    let xs = items(&v);
    assert_eq!(xs.len(), 2);
    assert_eq!(number(&xs[0]), 1.0);
    match &xs[1] {
        Value::Symbol(s) => assert_eq!(s, "a"),
        other => panic!("not a symbol: {:?}", other),
    }
}

#[test]
fn later_binding_replaces_earlier() {
    let mut env: Env<f32, Builtin> = Env::new();
    env.insert("x", Value::Number(1.0));
    env.insert("y", Value::Number(7.0));
    env.insert("x", Value::Number(2.0));
    assert_eq!(number(&Node::Symbol(String::from("x")).eval(&env)), 2.0);
    assert_eq!(number(&Node::Symbol(String::from("y")).eval(&env)), 7.0);
    assert!(env.get("z").is_none());
}

#[test]
fn lookup_is_case_sensitive() {
    let env = env_with_sum();
    assert!(matches!(Node::Symbol(String::from("ADD")).eval(&env), Value::Nil));
}

#[test]
fn arguments_are_evaluated_before_the_call() {
    let mut env = env_with_sum();
    env.insert("count", Value::Native(Builtin::Count));
    env.insert("ten", Value::Number(10.0));
    let inner = Node::List(vec![sym("add"), sym("ten"), num(1.0)]);
    let outer = Node::List(vec![sym("add"), Box::new(inner), sym("ten")]);
    assert_eq!(number(&outer.eval(&env)), 21.0);
    let counted = Node::List(vec![sym("count"), num(0.0), num(0.0), num(0.0)]);
    assert_eq!(number(&counted.eval(&env)), 3.0);
}

#[test]
fn head_that_is_a_number_makes_data() {
    let env = env_with_sum();
    let data = Node::List(vec![num(1.0), sym("add")]);
    let v = data.eval(&env);
    let xs = items(&v);
    assert_eq!(number(&xs[0]), 1.0);
    assert!(matches!(xs[1], Value::Native(Builtin::Sum)));
}

#[test]
fn nested_block_inside_list() {
    let env = env_with_sum();
    let block = Node::Block(vec![num(9.0), sym("add")]);
    let call = Node::List(vec![Box::new(block), num(4.0), num(6.0)]);
    assert_eq!(number(&call.eval(&env)), 10.0);
}

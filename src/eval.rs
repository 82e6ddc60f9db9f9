use vstd::prelude::*;
use vstd::string::StringExecFns;

verus! {

broadcast use vstd::std_specs::vec::group_vec_axioms;

/// A node of the syntax tree, as a parser builds it. `N` is the type of
/// numeric literals.
#[derive(Debug)]
pub enum Node<N> {
    Number(N),
    Symbol(String),
    String(String),
    List(Vec<Box<Node<N>>>),
    Block(Vec<Box<Node<N>>>),
    Nil,
}

/// A runtime value. `N` is the type of numbers and `F` that of the host's
/// native functions.
#[derive(Debug)]
pub enum Value<N, F> {
    Nil,
    Number(N),
    String(String),
    Symbol(String),
    Native(F),
    List(Vec<Value<N, F>>),
}

/// Mathematical model of a value: text as character sequences, lists as
/// sequences of models.
pub ghost enum ValueView<N, F> {
    Nil,
    Number(N),
    String(Seq<char>),
    Symbol(Seq<char>),
    Native(F),
    List(Seq<ValueView<N, F>>),
}

pub open spec fn value_view<N, F>(v: Value<N, F>) -> ValueView<N, F>
    decreases v,
{
    match v {
        Value::Nil => ValueView::Nil,
        Value::Number(n) => ValueView::Number(n),
        Value::String(s) => ValueView::String(s@),
        Value::Symbol(s) => ValueView::Symbol(s@),
        Value::Native(f) => ValueView::Native(f),
        Value::List(items) => ValueView::List(views_of(items@)),
    }
}

/// The models of a sequence of values, in order.
pub open spec fn views_of<N, F>(s: Seq<Value<N, F>>) -> Seq<ValueView<N, F>>
    decreases s,
{
    if s.len() == 0 {
        Seq::empty()
    } else {
        views_of(s.drop_last()).push(value_view(s.last()))
    }
}

impl<N, F> View for Value<N, F> {
    type V = ValueView<N, F>;

    open spec fn view(&self) -> ValueView<N, F> {
        value_view(*self)
    }
}


proof fn lemma_views_of<N, F>(s: Seq<Value<N, F>>)
    ensures
        views_of(s).len() == s.len(),
        forall|i: int| 0 <= i < s.len() ==> #[trigger] views_of(s)[i] == s[i]@,
    decreases s.len(),
{
    if s.len() > 0 {
        lemma_views_of(s.drop_last());
    }
}

impl<N: Copy, F: Copy> Value<N, F> {
    /// A copy of this value, equal to it in the model.
    pub fn duplicate(&self) -> (r: Self)
        ensures
            r@ == self@,
        decreases self,
    {
        match self {
            Value::Nil => Value::Nil,
            Value::Number(n) => Value::Number(*n),
            Value::String(s) => Value::String(s.clone()),
            Value::Symbol(s) => Value::Symbol(s.clone()),
            Value::Native(f) => Value::Native(*f),
            Value::List(items) => {
                let mut out: Vec<Value<N, F>> = Vec::new();
                let mut i: usize = 0;
                while i < items.len()
                    invariant
                        i <= items.len(),
                        *self == Value::<N, F>::List(*items),
                        views_of(out@) == views_of(items@.take(i as int)),
                    decreases items.len() - i,
                {
                    proof {
                        assert(decreases_to!(*self => (*self)->List_0));
                        assert(decreases_to!(*items => items[i as int]));
                        assert(decreases_to!(*self => items[i as int]));
                    }
                    let c = items[i].duplicate();
                    let ghost before = out@;
                    out.push(c);
                    proof {
                        assert(out@.drop_last() =~= before);
                        assert(items@.take(i + 1).drop_last() =~= items@.take(i as int));
                    }
                    i += 1;
                }
                assert(items@.take(items.len() as int) =~= items@);
                Value::List(out)
            },
        }
    }
}

/// The bindings that a sequence of entries makes: a later entry for a name
/// hides an earlier one.
pub open spec fn bindings_of<N, F>(s: Seq<(String, Value<N, F>)>) -> Map<Seq<char>, ValueView<N, F>>
    decreases s.len(),
{
    if s.len() == 0 {
        Map::empty()
    } else {
        bindings_of(s.drop_last()).insert(s.last().0@, s.last().1@)
    }
}

/// The environment of an evaluation: a mapping from symbol names to values.
pub struct Env<N, F> {
    entries: Vec<(String, Value<N, F>)>,
}

impl<N, F> View for Env<N, F> {
    type V = Map<Seq<char>, ValueView<N, F>>;

    closed spec fn view(&self) -> Map<Seq<char>, ValueView<N, F>> {
        bindings_of(self.entries@)
    }
}

impl<N, F> Env<N, F> {
    /// An environment with no bindings.
    pub fn new() -> (r: Self)
        ensures
            r@ == Map::<Seq<char>, ValueView<N, F>>::empty(),
    {
        Env { entries: Vec::new() }
    }

    /// Binds `name` to `value`, replacing any earlier binding of it.
    pub fn insert(&mut self, name: &str, value: Value<N, F>)
        ensures
            final(self)@ == old(self)@.insert(name@, value@),
    {
        self.entries.push((String::from_str(name), value));
        assert(self.entries@.drop_last() =~= old(self).entries@);
    }

    /// The value bound to `name`, if any.
    pub fn get(&self, name: &str) -> (r: Option<&Value<N, F>>)
        ensures
            match r {
                Some(v) => self@.contains_key(name@) && self@[name@] == v@,
                None => !self@.contains_key(name@),
            },
    {
        let key = String::from_str(name);
        let mut i: usize = self.entries.len();
        assert(self.entries@.take(i as int) =~= self.entries@);
        while i > 0
            invariant
                i <= self.entries.len(),
                key@ == name@,
                bindings_of(self.entries@.take(i as int)).contains_key(name@)
                    == self@.contains_key(name@),
                bindings_of(self.entries@.take(i as int)).contains_key(name@) ==> bindings_of(
                    self.entries@.take(i as int),
                )[name@] == self@[name@],
            decreases i,
        {
            proof {
                assert(self.entries@.take(i as int).drop_last() =~= self.entries@.take(i - 1));
            }
            if self.entries[i - 1].0 == key {
                return Some(&self.entries[i - 1].1);
            }
            i -= 1;
        }
        None
    }
}


/// The models of the arguments handed to a native function.
pub type ArgViews<N, F> = Seq<ValueView<N, F>>;

/// A function that the host provides to evaluated programs. It receives the
/// evaluated arguments in written order and returns one value, which
/// `result_of` names.
pub trait NativeFn<N>: Sized {
    /// The value this function returns for the given arguments.
    spec fn result_of(&self, args: ArgViews<N, Self>) -> ValueView<N, Self>;

    fn call(&self, args: Vec<Value<N, Self>>) -> (r: Value<N, Self>)
        ensures
            r@ == self.result_of(views_of(args@)),
    ;
}

/// `r` is a value that evaluating `node` under `env` can give.
///
/// Literals give themselves, a symbol gives its binding or `Nil`, a block the
/// value of its last item (`Nil` when empty), and the empty list the empty
/// data list. A non-empty list evaluates every item in order; when the value
/// of its head is a native function the list is a call, whose value is that
/// function's result on the values of the other items; otherwise the list is data and gives the list of the
/// values of its items.
pub open spec fn evaluates_to<N, F: NativeFn<N>>(
    node: Node<N>,
    env: Map<Seq<char>, ValueView<N, F>>,
    r: ValueView<N, F>,
) -> bool
    decreases node,
{
    match node {
        Node::Nil => r == ValueView::<N, F>::Nil,
        Node::Number(n) => r == ValueView::<N, F>::Number(n),
        Node::String(s) => r == ValueView::<N, F>::String(s@),
        Node::Symbol(x) => r == (if env.contains_key(x@) {
            env[x@]
        } else {
            ValueView::<N, F>::Nil
        }),
        Node::Block(items) => if items.len() == 0 {
            r == ValueView::<N, F>::Nil
        } else {
            evaluates_to(*items[items.len() - 1], env, r)
        },
        Node::List(items) => if items.len() == 0 {
            r == ValueView::<N, F>::List(Seq::empty())
        } else {
            exists|vals: Seq<ValueView<N, F>>|
                #![trigger vals.len()]
                {
                    &&& vals.len() == items.len()
                    &&& forall|j: int|
                        0 <= j < items.len() ==> evaluates_to(*items[j], env, #[trigger] vals[j])
                    &&& vals[0] is Native ==> r == vals[0]->Native_0.result_of(vals.drop_first())
                    &&& !(vals[0] is Native) ==> r == ValueView::List(vals)
                }
        },
    }
}


impl<N: Copy> Node<N> {
    /// Evaluates this node under `env`. Evaluation never fails: an unbound
    /// symbol gives `Nil`, and a list whose head is no native function is data.
    pub fn eval<F: NativeFn<N> + Copy>(&self, env: &Env<N, F>) -> (r: Value<N, F>)
        ensures
            evaluates_to(*self, env@, r@),
        decreases self,
    {
        match self {
            Node::Block(program) => {
                let mut val: Value<N, F> = Value::Nil;
                let mut i: usize = 0;
                while i < program.len()
                    invariant
                        i <= program.len(),
                        *self == Node::<N>::Block(*program),
                        i == 0 ==> val@ == ValueView::<N, F>::Nil,
                        i > 0 ==> evaluates_to(*program[i - 1], env@, val@),
                    decreases program.len() - i,
                {
                    proof {
                        assert(decreases_to!(*self => (*self)->Block_0));
                        assert(decreases_to!(*program => program[i as int]));
                    }
                    val = program[i].eval(env);
                    i += 1;
                }
                val
            },
            Node::List(list) => {
                if list.len() == 0 {
                    return Value::List(Vec::new());
                }
                proof {
                    assert(decreases_to!(*self => (*self)->List_0));
                    assert(decreases_to!(*list => list[0]));
                }
                let head = list[0].eval(env);
                let mut args: Vec<Value<N, F>> = Vec::new();
                let mut i: usize = 1;
                while i < list.len()
                    invariant
                        1 <= i <= list.len(),
                        *self == Node::<N>::List(*list),
                        args.len() == i - 1,
                        forall|j: int|
                            1 <= j < i ==> evaluates_to(*list[j], env@, #[trigger] args@[j - 1]@),
                    decreases list.len() - i,
                {
                    proof {
                        assert(decreases_to!(*self => (*self)->List_0));
                        assert(decreases_to!(*list => list[i as int]));
                    }
                    let v = list[i].eval(env);
                    args.push(v);
                    i += 1;
                }
                let ghost vals = seq![head@] + views_of(args@);
                proof {
                    lemma_views_of(args@);
                    assert(vals.len() == list.len());
                    assert forall|j: int| 0 <= j < list.len() implies evaluates_to(
                        *list[j],
                        env@,
                        #[trigger] vals[j],
                    ) by {
                        if j > 0 {
                            assert(vals[j] == args@[j - 1]@);
                        }
                    }
                }
                match head {
                    Value::Native(func) => {
                        assert(vals.drop_first() =~= views_of(args@));
                        func.call(args)
                    },
                    _ => {
                        args.insert(0, head);
                        proof {
                            lemma_views_of(args@);
                            assert(views_of(args@) =~= vals);
                        }
                        Value::List(args)
                    },
                }
            },
            Node::String(text) => Value::String(text.clone()),
            Node::Number(num) => Value::Number(*num),
            Node::Nil => Value::Nil,
            Node::Symbol(sym) => match env.get(sym.as_str()) {
                Some(v) => v.duplicate(),
                None => Value::Nil,
            },
        }
    }
}

} // verus!

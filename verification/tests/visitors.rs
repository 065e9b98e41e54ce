use core::ops::ControlFlow;
use std::cell::Cell;

use ordered_float::OrderedFloat;
use visitor::error::Span;
use visitor::function::make_visitor;
use visitor::function::make_visitor_mut;
use visitor::function::visitor_enter_fn;
use visitor::function::visitor_enter_fn_mut;
use visitor::function::visitor_exit_fn;
use visitor::function::visitor_exit_fn_mut;
use visitor::function::visitor_fn;
use visitor::function::visitor_fn_mut;
use visitor::function::visitor_leave_fn;
use visitor::function::visitor_leave_fn_mut;
use visitor::meta::Argument;
use visitor::meta::Attribute;
use visitor::meta::Meta;
use visitor::meta::Path;
use visitor::node::Node;
use visitor::schema::Rule;
use visitor::schema::Schema;
use visitor::schema::TypeRule;
use visitor::shape::Declaration;
use visitor::shape::Field;
use visitor::shape::Fields;
use visitor::shape::Shape;
use visitor::shape::Variant;
use visitor::synth::impl_traversable;
use visitor::tree::Traversable;
use visitor::tree::TraversableMut;
use visitor::tree::Tree;
use visitor::visit::Shared;
use visitor::visit::Visitor;
use visitor::visit::VisitorMut;

const I32: u64 = 1;
const LITERAL: u64 = 2;
const ORDERED_FLOAT: u64 = 3;
const CHAIN: u64 = 4;
const OPTION: u64 = 5;

fn primitives() -> Schema {
    Schema { types: vec![TypeRule { ty: I32, rule: Rule::Trivial }], functions: Vec::new() }
}

fn field(name: Option<&str>) -> Field {
    Field { attrs: Vec::new(), name: name.map(|n| n.to_string()) }
}

fn block(text: &str) -> Attribute {
    let span = Span { start: 0, end: text.len() };
    let path = Path { leading_colon: false, segments: vec!["traverse".to_string()] };
    Attribute { meta: Meta { path, argument: Argument::List(text.to_string()), span }, span }
}

fn literal_schema(mutable: bool) -> Schema {
    let declaration = Declaration {
        attrs: Vec::new(),
        name: "Literal".to_string(),
        shape: Shape::Sum(vec![
            Variant { attrs: Vec::new(), name: "Null".to_string(), fields: Fields::Unit },
            Variant {
                attrs: Vec::new(),
                name: "Float".to_string(),
                fields: Fields::Unnamed(vec![field(None)]),
            },
        ]),
    };
    let routine = impl_traversable(&declaration, mutable).unwrap();
    Schema {
        types: vec![
            TypeRule { ty: LITERAL, rule: Rule::Derived(routine) },
            TypeRule { ty: ORDERED_FLOAT, rule: Rule::Trivial },
        ],
        functions: Vec::new(),
    }
}

fn literal_null() -> Node {
    Node::of_variant(LITERAL, 0, Vec::new())
}

fn literal_float(value: OrderedFloat<f64>) -> Node {
    Node::of_variant(LITERAL, 1, vec![Node::leaf(ORDERED_FLOAT, value.0.to_bits() as i64)])
}

#[test]
fn test_make_visitor() {
    let mut visitor = visitor_enter_fn::<(), _>(I32, |item: &Node| {
        assert_eq!(item.scalar, 42);
        ControlFlow::Continue(())
    });

    let result = Tree::new(primitives(), Node::leaf(I32, 42)).traverse(&mut visitor);
    assert!(result.is_continue());
}

#[test]
fn test_make_visitor_mut() {
    let mut visitor = visitor_leave_fn_mut::<(), _>(I32, |mut item: Node| {
        item.scalar += 1;
        (item, ControlFlow::Continue(()))
    });

    let mut data = Tree::new(primitives(), Node::leaf(I32, 42));
    let result = data.traverse_mut(&mut visitor);
    assert!(result.is_continue());
    assert_eq!(data.root.scalar, 43);
}

struct FloatExpr(bool);

impl FloatExpr {
    fn look(&mut self, this: &Node) {
        if this.ty == LITERAL && this.variant == 1 {
            self.0 = true;
        }
    }
}

impl Visitor for FloatExpr {
    type Break = ();

    fn enter(&mut self, this: &Node) -> ControlFlow<Self::Break> {
        self.look(this);
        ControlFlow::Continue(())
    }

    fn leave(&mut self, _this: &Node) -> ControlFlow<Self::Break> {
        ControlFlow::Continue(())
    }
}

impl VisitorMut for FloatExpr {
    type Break = ();

    fn enter_mut(&mut self, this: &mut Node) -> ControlFlow<Self::Break> {
        self.look(this);
        ControlFlow::Continue(())
    }

    fn leave_mut(&mut self, _this: &mut Node) -> ControlFlow<Self::Break> {
        ControlFlow::Continue(())
    }
}

#[test]
fn test_ordered_float() {
    assert!({
        let mut visitor = FloatExpr(false);
        let _ = Tree::new(literal_schema(false), literal_null()).traverse(&mut visitor);
        !visitor.0
    });

    assert!({
        let mut visitor = FloatExpr(false);
        let _ = Tree::new(literal_schema(true), literal_null()).traverse_mut(&mut visitor);
        !visitor.0
    });

    assert!({
        let mut visitor = FloatExpr(false);
        let _ = Tree::new(literal_schema(false), literal_float(OrderedFloat(0.0)))
            .traverse(&mut visitor);
        visitor.0
    });

    assert!({
        let mut visitor = FloatExpr(false);
        let _ = Tree::new(literal_schema(true), literal_float(OrderedFloat(0.0)))
            .traverse_mut(&mut visitor);
        visitor.0
    });
}

fn chain_schema() -> Schema {
    let declaration = Declaration {
        attrs: Vec::new(),
        name: "Chain".to_string(),
        shape: Shape::Record(Fields::Named(vec![field(Some("next"))])),
    };
    let routine = impl_traversable(&declaration, true).unwrap();
    Schema {
        types: vec![
            TypeRule { ty: CHAIN, rule: Rule::Derived(routine) },
            TypeRule { ty: OPTION, rule: Rule::Each },
        ],
        functions: Vec::new(),
    }
}

fn chain(next: Option<Node>) -> Node {
    let link = Node::record(OPTION, next.into_iter().collect());
    Node::record(CHAIN, vec![link])
}

fn depth(chain: &Node) -> usize {
    match chain.fields[0].fields.first() {
        Some(child) => 1 + depth(child),
        None => 0,
    }
}

struct ChainCutter {
    cut_at_depth: usize,
}

impl VisitorMut for ChainCutter {
    type Break = ();

    fn enter_mut(&mut self, this: &mut Node) -> ControlFlow<()> {
        if this.ty == CHAIN {
            if self.cut_at_depth == 0 {
                this.fields[0].fields.clear();
            } else {
                self.cut_at_depth -= 1;
            }
        }
        ControlFlow::Continue(())
    }

    fn leave_mut(&mut self, _this: &mut Node) -> ControlFlow<()> {
        ControlFlow::Continue(())
    }
}

#[test]
fn test() {
    let mut chain = Tree::new(chain_schema(), chain(Some(chain(Some(chain(None))))));
    assert_eq!(depth(&chain.root), 2);

    let mut cutter = ChainCutter { cut_at_depth: 1 };
    let _ = chain.traverse_mut(&mut cutter);
    assert_eq!(depth(&chain.root), 1);
}

#[test]
fn filtered_visitor_sees_only_its_type() {
    let seen = Cell::new(false);
    let mut visitor = visitor_enter_fn::<(), _>(ORDERED_FLOAT, |_item: &Node| {
        seen.set(true);
        ControlFlow::Continue(())
    });
    let _ = Tree::new(literal_schema(false), literal_null()).traverse(&mut visitor);
    assert!(!seen.get());
    let _ = Tree::new(literal_schema(false), literal_float(OrderedFloat(0.0)))
        .traverse(&mut visitor);
    assert!(seen.get());
}

#[test]
fn make_visitor_calls_enter_then_leave() {
    let log = std::cell::RefCell::new(Vec::new());
    let mut visitor = make_visitor::<(), _, _>(
        I32,
        |item: &Node| {
            log.borrow_mut().push(("enter", item.scalar));
            ControlFlow::Continue(())
        },
        |item: &Node| {
            log.borrow_mut().push(("leave", item.scalar));
            ControlFlow::Continue(())
        },
    );
    let result = Tree::new(primitives(), Node::leaf(I32, 7)).traverse(&mut visitor);
    assert!(result.is_continue());
    assert_eq!(*log.borrow(), vec![("enter", 7), ("leave", 7)]);
}

#[test]
fn visitor_fn_is_make_visitor() {
    let count = Cell::new(0);
    let mut visitor = visitor_fn::<(), _, _>(
        I32,
        |_item: &Node| {
            count.set(count.get() + 1);
            ControlFlow::Continue(())
        },
        |_item: &Node| {
            count.set(count.get() + 10);
            ControlFlow::Continue(())
        },
    );
    let _ = Tree::new(primitives(), Node::leaf(I32, 0)).traverse(&mut visitor);
    assert_eq!(count.get(), 11);
}

#[test]
fn leave_only_visitors_skip_enter() {
    let count = Cell::new(0);
    let mut leave = visitor_leave_fn::<u8, _>(I32, |_item: &Node| {
        count.set(count.get() + 1);
        ControlFlow::Break(9)
    });
    let result = Tree::new(primitives(), Node::leaf(I32, 0)).traverse(&mut leave);
    assert_eq!(result, ControlFlow::Break(9));
    assert_eq!(count.get(), 1);

    let mut exit = visitor_exit_fn::<u8, _>(I32, |_item: &Node| ControlFlow::Break(4));
    let result = Tree::new(primitives(), Node::leaf(I32, 0)).traverse(&mut exit);
    assert_eq!(result, ControlFlow::Break(4));
}

#[test]
fn enter_break_stops_before_leave() {
    let left = Cell::new(false);
    let mut visitor = make_visitor::<&str, _, _>(
        I32,
        |_item: &Node| ControlFlow::Break("stop"),
        |_item: &Node| {
            left.set(true);
            ControlFlow::Continue(())
        },
    );
    let result = Tree::new(primitives(), Node::leaf(I32, 0)).traverse(&mut visitor);
    assert_eq!(result, ControlFlow::Break("stop"));
    assert!(!left.get());
}

#[test]
fn mutable_function_visitors_rewrite_nodes() {
    let mut both = make_visitor_mut::<(), _, _>(
        I32,
        |mut item: Node| {
            item.scalar *= 2;
            (item, ControlFlow::Continue(()))
        },
        |mut item: Node| {
            item.scalar += 1;
            (item, ControlFlow::Continue(()))
        },
    );
    let mut data = Tree::new(primitives(), Node::leaf(I32, 5));
    assert!(data.traverse_mut(&mut both).is_continue());
    assert_eq!(data.root.scalar, 11);

    let mut same = visitor_fn_mut::<(), _, _>(
        I32,
        |mut item: Node| {
            item.scalar *= 2;
            (item, ControlFlow::Continue(()))
        },
        |item: Node| (item, ControlFlow::Continue(())),
    );
    assert!(data.traverse_mut(&mut same).is_continue());
    assert_eq!(data.root.scalar, 22);

    let mut enter = visitor_enter_fn_mut::<(), _>(I32, |mut item: Node| {
        item.scalar -= 2;
        (item, ControlFlow::Continue(()))
    });
    assert!(data.traverse_mut(&mut enter).is_continue());
    assert_eq!(data.root.scalar, 20);

    let mut exit = visitor_exit_fn_mut::<i8, _>(I32, |mut item: Node| {
        item.scalar = 0;
        (item, ControlFlow::Break(-1))
    });
    assert_eq!(data.traverse_mut(&mut exit), ControlFlow::Break(-1));
    assert_eq!(data.root.scalar, 0);
}

#[test]
fn mutable_function_visitor_passes_other_types_by() {
    let mut visitor = visitor_enter_fn_mut::<(), _>(LITERAL, |mut item: Node| {
        item.scalar = 99;
        (item, ControlFlow::Continue(()))
    });
    let mut data = Tree::new(primitives(), Node::leaf(I32, 5));
    assert!(data.traverse_mut(&mut visitor).is_continue());
    assert_eq!(data.root.scalar, 5);
}

#[test]
fn shared_offers_nodes_to_read_only_hooks() {
    let mut visitor = Shared(FloatExpr(false));
    let mut tree = Tree::new(literal_schema(true), literal_float(OrderedFloat(1.5)));
    let result = tree.traverse_mut(&mut visitor);
    assert!(result.is_continue());
    assert!(visitor.0.0);
    assert_eq!(tree.root.fields[0].scalar, 1.5f64.to_bits() as i64);
}

#[test]
fn skipped_field_block_is_read_from_text() {
    let declaration = Declaration {
        attrs: Vec::new(),
        name: "Pair".to_string(),
        shape: Shape::Record(Fields::Named(vec![
            field(Some("a")),
            Field { attrs: vec![block("skip")], name: Some("b".to_string()) },
        ])),
    };
    let routine = impl_traversable(&declaration, false).unwrap();
    assert!(routine.visit_self);
    assert!(!routine.mutable);
}

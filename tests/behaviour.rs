use automa::{
    eq, node, not_eq, ANode, Condition, Cursor, Fallback, Func, Graph, Guard, Inspect, Link, LinkProcess, Linkable,
    Node, Otherwise, Process,
};

#[derive(Clone, Debug, PartialEq)]
struct Ctx {
    log: Vec<&'static str>,
    seen: Option<u32>,
}

fn ctx() -> Ctx {
    Ctx { log: Vec::new(), seen: None }
}

/// Logs its name and yields it.
struct Named(&'static str);

impl Process<char, &'static str, Ctx> for Named {
    fn result(&self, _input: char, _context: Ctx) -> &'static str {
        self.0
    }

    fn updated(&self, _input: char, context: Ctx) -> Ctx {
        let mut c = context;
        c.log.push(self.0);
        c
    }

    fn run(&self, _input: char, context: &mut Ctx) -> &'static str {
        context.log.push(self.0);
        self.0
    }
}

/// Logs its name only.
struct Quiet(&'static str);

impl Process<char, (), Ctx> for Quiet {
    fn result(&self, _input: char, _context: Ctx) {}

    fn updated(&self, _input: char, context: Ctx) -> Ctx {
        let mut c = context;
        c.log.push(self.0);
        c
    }

    fn run(&self, _input: char, context: &mut Ctx) {
        context.log.push(self.0);
    }
}

/// Yields "default" and never touches the context.
struct FixedWord;

impl Fallback<&'static str, Ctx> for FixedWord {
    fn value(&self, _context: Ctx) -> &'static str {
        "default"
    }

    fn produce(&self, _context: &Ctx) -> &'static str {
        "default"
    }
}

/// Holds when the log is empty.
struct LogEmpty;

impl Condition<char, Ctx> for LogEmpty {
    fn holds(&self, _input: char, context: Ctx) -> bool {
        context.log.is_empty()
    }

    fn check(&self, _input: &char, context: &Ctx) -> bool {
        context.log.is_empty()
    }
}

/// Copies the node's value into the context.
struct See;

impl Inspect<u32, Ctx> for See {
    fn inspected(&self, value: Option<u32>, context: Ctx) -> Ctx {
        Ctx { seen: value, ..context }
    }

    fn inspect(self, value: Option<&u32>, context: &mut Ctx) {
        context.seen = value.copied();
    }
}

type G = Graph<u32, char, &'static str, Ctx>;

fn seen_at(cursor: &mut Cursor<u32, char, &'static str, Ctx>) -> Option<u32> {
    cursor.access_data(See);
    cursor.context().seen
}

fn guard_eq(c: char) -> Guard<char, Ctx> {
    Guard(Box::new(eq(c)))
}

#[test]
fn first_link_that_fires_wins() {
    let mut g: G = Graph::new();
    let start = ANode::from(&mut g, 0);
    let one = ANode::from(&mut g, 1);
    let two = ANode::from(&mut g, 2);
    g.link_function(&start, Some(&one), guard_eq('x'), Func(Box::new(Named("first"))));
    g.link_function(&start, Some(&two), guard_eq('x'), Func(Box::new(Named("second"))));

    let mut cursor = Cursor::new(ctx(), &g, &start, Otherwise(Box::new(FixedWord)));
    assert_eq!(Some("first"), cursor.action('x'));
    assert_eq!(vec!["first"], cursor.context().log);
    assert_eq!(Some(1), seen_at(&mut cursor));
}

#[test]
fn earlier_link_is_tried_first_even_when_later_ones_fire() {
    let mut g: G = Graph::new();
    let start = ANode::from(&mut g, 0);
    let one = ANode::from(&mut g, 1);
    let two = ANode::from(&mut g, 2);
    g.link_function(&start, Some(&one), guard_eq('y'), Func(Box::new(Named("first"))));
    g.link_function(&start, Some(&two), guard_eq('x'), Func(Box::new(Named("second"))));
    g.link_function(&start, Some(&one), Guard(Box::new(not_eq('y'))), Func(Box::new(Named("third"))));

    let mut cursor = Cursor::new(ctx(), &g, &start, Otherwise(Box::new(FixedWord)));
    assert_eq!(Some("second"), cursor.action('x'));
    assert_eq!(vec!["second"], cursor.context().log);
    assert_eq!(Some(2), seen_at(&mut cursor));
}

#[test]
fn no_match_keeps_node_and_context() {
    let mut g: G = Graph::new();
    let start = ANode::from(&mut g, 7);
    let other = ANode::from(&mut g, 8);
    g.link_function(&start, Some(&other), guard_eq('a'), Func(Box::new(Named("a"))));

    let mut cursor = Cursor::new(ctx(), &g, &start, Otherwise(Box::new(FixedWord)));
    assert_eq!(Some("default"), cursor.action('b'));
    assert_eq!(&ctx(), cursor.context());
    assert_eq!(Some(7), seen_at(&mut cursor));
    // A cursor without a black hole matches again on the next input.
    assert_eq!(Some("a"), cursor.action('a'));
    assert_eq!(Some(8), seen_at(&mut cursor));
}

#[test]
fn no_match_without_fallback_has_no_result() {
    let mut g: G = Graph::new();
    let start = node(&mut g);
    let mut cursor = Cursor::new_none(ctx(), &g, &start);
    assert_eq!(None, cursor.action('q'));
    assert_eq!(ctx(), cursor.into_context());
}

#[test]
fn black_hole_absorbs_every_later_input() {
    let mut g: G = Graph::new();
    let start = ANode::from(&mut g, 1);
    let next = ANode::from(&mut g, 2);
    g.link_function(&start, Some(&next), guard_eq('a'), Func(Box::new(Named("a"))));
    g.link_process(&start, None, guard_eq('s'), Func(Box::new(Quiet("s"))));

    let mut cursor = Cursor::black(ctx(), &g, &start, Otherwise(Box::new(FixedWord)));
    assert_eq!(None, cursor.action('s'));
    assert_eq!(vec!["s"], cursor.context().log);
    assert_eq!(Some("default"), cursor.action('z'));
    for c in ['a', 's', 'z', 'a'] {
        assert_eq!(Some("default"), cursor.action(c));
    }
    assert_eq!(vec!["s"], cursor.context().log);
    assert_eq!(Some(1), seen_at(&mut cursor));
}

#[test]
fn link_without_destination_stays() {
    let mut g: G = Graph::new();
    let here = ANode::from(&mut g, 5);
    g.link_process(&here, None, guard_eq('k'), Func(Box::new(Quiet("k"))));
    g.link(&here, None, guard_eq('j'));

    let mut cursor = Cursor::new(ctx(), &g, &here, Otherwise(Box::new(FixedWord)));
    assert_eq!(None, cursor.action('k'));
    assert_eq!(None, cursor.action('j'));
    assert_eq!(None, cursor.action('k'));
    assert_eq!(vec!["k", "k"], cursor.context().log);
    assert_eq!(Some(5), seen_at(&mut cursor));
}

#[test]
fn attached_value_only_on_nodes_made_from_a_value() {
    let mut g: G = Graph::new();
    let bare = ANode::new(&mut g);
    let valued = ANode::from(&mut g, 42);
    g.link(&bare, Some(&valued), guard_eq('>'));

    let mut cursor = Cursor::new_none(ctx(), &g, &bare);
    assert_eq!(None, seen_at(&mut cursor));
    assert_eq!(None, cursor.action('>'));
    assert_eq!(Some(42), seen_at(&mut cursor));
}

#[test]
fn condition_can_read_the_context() {
    let mut g: G = Graph::new();
    let start = ANode::from(&mut g, 0);
    g.link_function(&start, None, Guard(Box::new(LogEmpty)), Func(Box::new(Named("once"))));

    let mut cursor = Cursor::new(ctx(), &g, &start, Otherwise(Box::new(FixedWord)));
    assert_eq!(Some("once"), cursor.action('a'));
    assert_eq!(Some("default"), cursor.action('a'));
    assert_eq!(vec!["once"], cursor.context().log);
}

#[test]
fn handle_from_a_larger_graph_is_not_a_node_of_a_smaller_one() {
    let mut big: G = Graph::new();
    ANode::new(&mut big);
    let far = ANode::from(&mut big, 3);
    let small: G = Graph::new();
    assert!(small.get(&far).is_none());
    assert_eq!(Some(&3), big.get(&far).unwrap().value());
}

#[test]
fn appended_link_can_be_reconfigured() {
    let mut g: G = Graph::new();
    let start = ANode::from(&mut g, 0);
    let next = ANode::from(&mut g, 1);
    assert_eq!(0, g.link(&start, None, guard_eq('a')));
    let k = g.link(&start, Some(&next), guard_eq('b'));
    assert_eq!(1, k);

    g.set_function(&start, k, Func(Box::new(Named("b"))));
    let mut cursor = Cursor::new(ctx(), &g, &start, Otherwise(Box::new(FixedWord)));
    assert_eq!(None, cursor.action('a'));
    assert_eq!(Some("b"), cursor.action('b'));
    assert_eq!(Some(1), seen_at(&mut cursor));
    assert_eq!(vec!["b"], cursor.context().log);

    g.set_process(&start, 0, Func(Box::new(Quiet("a"))));
    let mut cursor = Cursor::new(ctx(), &g, &start, Otherwise(Box::new(FixedWord)));
    assert_eq!(None, cursor.action('a'));
    assert_eq!(vec!["a"], cursor.context().log);
    assert_eq!(Some(0), seen_at(&mut cursor));
}

#[test]
fn standalone_node_link_can_be_reconfigured() {
    let mut n: Node<u32, char, &'static str, Ctx> = Node::new();
    n.link(None, guard_eq('a'));
    n.link_mut(0).set_function(Func(Box::new(Named("now"))));
    let mut c = ctx();
    assert_eq!(Some("now"), n.links()[0].process('a', &mut c));
    assert_eq!(vec!["now"], c.log);
}

#[test]
fn added_node_may_link_to_itself() {
    let mut g: G = Graph::new();
    let first = ANode::from(&mut g, 1);
    let mut n: Node<u32, char, &'static str, Ctx> = Node::from(2);
    n.link(Some(&first), guard_eq('<'));
    let second = g.add(n);
    g.link(&second, Some(&second), guard_eq('='));
    let mut cursor = Cursor::new_none(ctx(), &g, &second);
    cursor.action('=');
    assert_eq!(Some(2), seen_at(&mut cursor));
    cursor.action('<');
    assert_eq!(Some(1), seen_at(&mut cursor));
}

#[test]
fn cloned_handle_names_the_same_node() {
    let mut g: G = Graph::new();
    let a = ANode::from(&mut g, 10);
    let b = ANode::from(&mut g, 11);
    let a2 = a.clone();
    g.link(&a2, Some(&b), guard_eq('!'));
    let mut cursor = Cursor::new_none(ctx(), &g, &a);
    assert_eq!(Some(10), seen_at(&mut cursor));
    cursor.action('!');
    assert_eq!(Some(11), seen_at(&mut cursor));
}

#[test]
fn link_runs_and_reconfigures() {
    let start = ANode::new(&mut Graph::<u32, char, &'static str, Ctx>::new());
    let mut link: Link<char, &'static str, Ctx> = Link::new(Some(&start), guard_eq('c'), Func(Box::new(Named("f"))));
    let mut c = ctx();
    assert!(link.condition(&'c', &c));
    assert!(!link.condition(&'d', &c));
    assert_eq!(Some("f"), link.process('c', &mut c));
    assert_eq!(vec!["f"], c.log);

    link.set_process(Func(Box::new(Quiet("p"))));
    assert_eq!(None, link.process('c', &mut c));
    assert_eq!(vec!["f", "p"], c.log);

    link.set_function(Func(Box::new(Named("g"))));
    assert_eq!(Some("g"), link.process('c', &mut c));
    assert_eq!(vec!["f", "p", "g"], c.log);
}

#[test]
fn node_scans_links_in_order() {
    let mut n: Node<u32, char, &'static str, Ctx> = Node::new();
    assert!(n.value().is_none());
    n.link(None, guard_eq('a'));
    n.link_process(None, guard_eq('b'), Func(Box::new(Quiet("b"))));
    n.link_function(None, Guard(Box::new(not_eq('z'))), Func(Box::new(Named("not z"))));
    assert_eq!(3, n.links().len());
    let c = ctx();
    assert_eq!(Some(0), n.first_match(&'a', &c));
    assert_eq!(Some(1), n.first_match(&'b', &c));
    assert_eq!(Some(2), n.first_match(&'c', &c));
    assert_eq!(None, n.first_match(&'z', &c));

    let v: Node<u32, char, &'static str, Ctx> = Node::from(9);
    assert_eq!(Some(&9), v.value());
    assert!(v.links().is_empty());
}

#[test]
fn graph_add_returns_the_new_handle() {
    let mut g: G = Graph::new();
    let first = g.add(Node::from(1));
    let second = g.add(Node::new());
    assert_eq!(Some(&1), g.get(&first).unwrap().value());
    assert_eq!(None, g.get(&second).unwrap().value());
}

/// Copies the node's value into a context that holds nothing else.
struct Peek;

impl Inspect<u32, Option<u32>> for Peek {
    fn inspected(&self, value: Option<u32>, _context: Option<u32>) -> Option<u32> {
        value
    }

    fn inspect(self, value: Option<&u32>, context: &mut Option<u32>) {
        *context = value.copied();
    }
}

#[test]
fn byte_symbols_compare_exactly() {
    let mut g: Graph<u32, u8, (), Option<u32>> = Graph::new();
    let start = ANode::from(&mut g, 1);
    let next = ANode::from(&mut g, 2);
    g.link(&start, Some(&next), Guard(Box::new(eq(b'x'))));
    g.link(&next, Some(&start), Guard(Box::new(not_eq(b'x'))));
    let mut cursor = Cursor::new_none(None, &g, &start);
    cursor.action(b'y');
    cursor.access_data(Peek);
    assert_eq!(&Some(1), cursor.context());
    cursor.action(b'x');
    cursor.access_data(Peek);
    assert_eq!(&Some(2), cursor.context());
    cursor.action(b'x');
    cursor.access_data(Peek);
    assert_eq!(&Some(2), cursor.context());
    cursor.action(b'y');
    cursor.access_data(Peek);
    assert_eq!(&Some(1), cursor.context());
}

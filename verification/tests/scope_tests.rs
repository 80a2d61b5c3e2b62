use seax_util::cell::{Atom, SVMCell};
use seax_util::compiler_tools::{ASTNode, CompileResult, ForkTable, Scope, SymTable, INDENT};

struct Literal(Atom);

impl ASTNode for Literal {
    fn compile<'a>(&'a self, _state: &'a SymTable<'a>) -> CompileResult {
        Ok(vec![SVMCell::AtomCell(self.0)])
    }

    fn print_level(&self, level: usize) -> String {
        let mut text = String::new();
        for _ in 0..level {
            text.push_str(INDENT);
        }
        text.push_str("Literal");
        text
    }
}

struct Name(&'static str);

impl ASTNode for Name {
    fn compile<'a>(&'a self, state: &'a SymTable<'a>) -> CompileResult {
        match state.lookup(&self.0) {
            Some((level, position)) => Ok(vec![
                SVMCell::InstCell(seax_util::cell::Inst::LD),
                SVMCell::AtomCell(Atom::UInt(level)),
                SVMCell::AtomCell(Atom::UInt(position)),
            ]),
            None => Err(format!("unbound name {}", self.0)),
        }
    }

    fn print_level(&self, level: usize) -> String {
        let mut text = String::new();
        for _ in 0..level {
            text.push_str(INDENT);
        }
        text.push_str(self.0);
        text
    }
}

#[test]
fn test_compile_literal() {
    let scope: SymTable = ForkTable::new();
    let node = Literal(Atom::UInt(5));
    assert_eq!(node.compile(&scope), Ok(vec![SVMCell::AtomCell(Atom::UInt(5))]));
    // The table is as empty as before.
    assert_eq!(scope.lookup(&"x"), None);
    let mut scope = scope;
    assert_eq!(scope.bind("x", 0), (0, 0));
}

#[test]
fn test_compile_name() {
    let mut scope: SymTable = ForkTable::new();
    scope.bind("x", 3);
    scope.bind("y", 3);
    assert_eq!(
        Name("y").compile(&scope),
        Ok(vec![
            SVMCell::InstCell(seax_util::cell::Inst::LD),
            SVMCell::AtomCell(Atom::UInt(3)),
            SVMCell::AtomCell(Atom::UInt(1)),
        ])
    );
    assert_eq!(Name("z").compile(&scope), Err("unbound name z".to_string()));
}

#[test]
fn test_prettyprint_is_level_zero() {
    let node = Literal(Atom::UInt(5));
    assert_eq!(node.prettyprint(), "Literal");
    assert_eq!(node.prettyprint(), node.print_level(0));
    assert_eq!(node.print_level(2), "\t\tLiteral");
    assert_eq!(INDENT, "\t");
}

#[test]
fn test_bind_then_lookup() {
    let mut table: SymTable = ForkTable::new();
    let index = table.bind("x", 0);
    assert_eq!(index, (0, 0));
    assert_eq!(table.lookup(&"x"), Some(index));
}

#[test]
fn test_bind_gives_next_position_of_level() {
    let mut table: SymTable = ForkTable::new();
    assert_eq!(table.bind("a", 0), (0, 0));
    assert_eq!(table.bind("b", 0), (0, 1));
    assert_eq!(table.bind("c", 1), (1, 0));
    assert_eq!(table.bind("d", 0), (0, 2));
    assert_eq!(table.bind("e", 1), (1, 1));
    assert_eq!(table.lookup(&"a"), Some((0, 0)));
    assert_eq!(table.lookup(&"b"), Some((0, 1)));
    assert_eq!(table.lookup(&"c"), Some((1, 0)));
    assert_eq!(table.lookup(&"d"), Some((0, 2)));
    assert_eq!(table.lookup(&"e"), Some((1, 1)));
}

#[test]
fn test_lookup_unbound() {
    let mut root: SymTable = ForkTable::new();
    assert_eq!(root.lookup(&"x"), None);
    root.bind("y", 0);
    let mut child = root.fork();
    child.bind("z", 1);
    assert_eq!(child.lookup(&"x"), None);
    assert_eq!(child.lookup(&""), None);
    assert_eq!(child.lookup(&"yy"), None);
}

#[test]
fn test_fork_leaves_parent_alone() {
    let mut root: SymTable = ForkTable::new();
    let in_root = root.bind("x", 0);
    {
        let mut child = root.fork();
        // A fresh fork sees what its parent binds.
        assert_eq!(child.lookup(&"x"), Some(in_root));
        let in_child = child.bind("x", 1);
        let only_child = child.bind("y", 1);
        assert_eq!(in_child, (1, 0));
        assert_eq!(only_child, (1, 1));
        assert_eq!(child.lookup(&"x"), Some(in_child));
        assert_eq!(child.lookup(&"y"), Some(only_child));
        // The parent, read while the fork is alive, is as it was.
        assert_eq!(root.lookup(&"x"), Some(in_root));
        assert_eq!(root.lookup(&"y"), None);
    }
    // And so it is once the fork is gone.
    assert_eq!(root.lookup(&"x"), Some(in_root));
    assert_eq!(root.lookup(&"y"), None);
    assert_eq!(root.bind("y", 0), (0, 1));
}

#[test]
fn test_sibling_forks_do_not_meet() {
    let mut root: SymTable = ForkTable::new();
    root.bind("f", 0);
    let mut first = root.fork();
    let mut second = root.fork();
    assert_eq!(first.bind("a", 1), (1, 0));
    assert_eq!(second.bind("b", 1), (1, 0));
    assert_eq!(first.lookup(&"b"), None);
    assert_eq!(second.lookup(&"a"), None);
    assert_eq!(first.lookup(&"f"), Some((0, 0)));
    assert_eq!(second.lookup(&"f"), Some((0, 0)));
}

#[test]
fn test_shadowing_innermost_wins() {
    let mut root: SymTable = ForkTable::new();
    root.bind("x", 0);
    let mut middle = root.fork();
    middle.bind("x", 1);
    let mut inner = middle.fork();
    assert_eq!(inner.lookup(&"x"), Some((1, 0)));
    inner.bind("other", 2);
    inner.bind("x", 2);
    assert_eq!(inner.lookup(&"x"), Some((2, 1)));
    assert_eq!(middle.lookup(&"x"), Some((1, 0)));
    assert_eq!(root.lookup(&"x"), Some((0, 0)));
}

#[test]
fn test_rebinding_in_one_frame_hides_the_older_binding() {
    let mut table: SymTable = ForkTable::new();
    assert_eq!(table.bind("x", 0), (0, 0));
    assert_eq!(table.bind("x", 0), (0, 1));
    assert_eq!(table.lookup(&"x"), Some((0, 1)));
    assert_eq!(table.bind("x", 4), (4, 0));
    assert_eq!(table.lookup(&"x"), Some((4, 0)));
}

#[test]
fn test_names_are_told_apart_by_their_characters() {
    let mut table: SymTable = ForkTable::new();
    let owned = String::from("na") + "me";
    table.bind("name", 0);
    table.bind("nam", 0);
    table.bind("näme", 0);
    let key: &str = owned.as_str();
    assert_eq!(table.lookup(&key), Some((0, 0)));
    assert_eq!(table.lookup(&"nam"), Some((0, 1)));
    assert_eq!(table.lookup(&"näme"), Some((0, 2)));
    assert_eq!(table.lookup(&"name "), None);
    assert_eq!(table.lookup(&"Name"), None);
}

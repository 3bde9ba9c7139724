use adventure_script::commands::{Command, CommandFn};
use adventure_script::registry::CmdSet;
use adventure_script::strmap::StrMap;

fn cmd(name: &str, id: u32) -> Command {
    Command::new(name.to_string(), CommandFn::External(id), vec![], false).unwrap()
}

fn aliases(pairs: &[(&str, &str)]) -> StrMap<String> {
    let mut map = StrMap::new();
    for (from, to) in pairs {
        map.insert(from.to_string(), to.to_string());
    }
    map
}

fn id_of(found: Option<&Command>) -> Option<u32> {
    match found.map(|c| c.func()) {
        Some(CommandFn::External(id)) => Some(id),
        Some(_) => panic!("not an external command"),
        None => None,
    }
}

#[test]
fn new_set_is_empty() {
    let set = CmdSet::new();
    assert!(set.commands.is_empty());
    assert_eq!(set.aliases.len(), 0);
    assert!(set.modules.is_empty());
    assert_eq!(id_of(set.get("anything")), None);
    assert_eq!(id_of(set.get("")), None);
    let set = CmdSet::default();
    assert!(set.commands.is_empty());
    assert_eq!(set.aliases.len(), 0);
    assert!(set.modules.is_empty());
}

#[test]
fn from_holds_what_it_was_given() {
    let set = CmdSet::from(vec![cmd("a", 1), cmd("b", 2)], aliases(&[("x", "a")]));
    assert_eq!(set.commands.len(), 2);
    assert_eq!(set.commands[0].name(), "a");
    assert_eq!(set.commands[1].name(), "b");
    assert_eq!(set.aliases.get("x"), Some(&"a".to_string()));
    assert!(set.modules.is_empty());
}

#[test]
fn get_by_exact_name() {
    let set = CmdSet::from(vec![cmd("a", 1), cmd("b", 2)], StrMap::new());
    assert_eq!(id_of(set.get("a")), Some(1));
    assert_eq!(id_of(set.get("b")), Some(2));
    assert_eq!(id_of(set.get("c")), None);
    assert_eq!(id_of(set.get("A")), None);
    assert_eq!(id_of(set.get("ab")), None);
}

#[test]
fn get_first_of_equal_names() {
    let set = CmdSet::from(vec![cmd("a", 1), cmd("a", 2)], StrMap::new());
    assert_eq!(id_of(set.get("a")), Some(1));
}

#[test]
fn get_by_alias() {
    let set = CmdSet::from(vec![cmd("a", 1), cmd("b", 2)], aliases(&[("x", "b"), ("y", "zz")]));
    assert_eq!(id_of(set.get("x")), Some(2));
    // The alias leads to no command.
    assert_eq!(id_of(set.get("y")), None);
}

#[test]
fn get_exact_name_before_alias() {
    let set = CmdSet::from(vec![cmd("a", 1), cmd("b", 2)], aliases(&[("a", "b")]));
    assert_eq!(id_of(set.get("a")), Some(1));
}

#[test]
fn get_follows_one_alias_only() {
    let set = CmdSet::from(vec![cmd("a", 1)], aliases(&[("x", "y"), ("y", "a")]));
    assert_eq!(id_of(set.get("y")), Some(1));
    assert_eq!(id_of(set.get("x")), None);
    // An alias to itself ends at once.
    let set = CmdSet::from(vec![cmd("a", 1)], aliases(&[("x", "x")]));
    assert_eq!(id_of(set.get("x")), None);
}

#[test]
fn get_alias_target_is_a_plain_name() {
    let mut set = CmdSet::from(vec![cmd("a", 1)], aliases(&[("x", "m.b")]));
    set.add_module(CmdSet::from(vec![cmd("b", 2)], StrMap::new()), "m");
    assert_eq!(id_of(set.get("m.b")), Some(2));
    assert_eq!(id_of(set.get("x")), None);
}

#[test]
fn get_in_module() {
    let mut set = CmdSet::from(vec![cmd("a", 1)], StrMap::new());
    set.add_module(CmdSet::from(vec![cmd("a", 2), cmd("b", 3)], aliases(&[("x", "b")])), "m");
    assert_eq!(id_of(set.get("a")), Some(1));
    assert_eq!(id_of(set.get("m.a")), Some(2));
    assert_eq!(id_of(set.get("m.b")), Some(3));
    assert_eq!(id_of(set.get("m.x")), Some(3));
    assert_eq!(id_of(set.get("b")), None);
    assert_eq!(id_of(set.get("x")), None);
    assert_eq!(id_of(set.get("n.a")), None);
    assert_eq!(id_of(set.get("m.c")), None);
    assert_eq!(id_of(set.get("m.")), None);
    assert_eq!(id_of(set.get("m")), None);
}

#[test]
fn get_empty_prefix_is_this_set() {
    let mut set = CmdSet::from(vec![cmd("a", 1)], aliases(&[("x", "a")]));
    set.add_module(CmdSet::from(vec![cmd("a", 2)], StrMap::new()), "m");
    assert_eq!(id_of(set.get(".a")), Some(1));
    assert_eq!(id_of(set.get(".x")), Some(1));
    // What follows the first dot is one name: `.m.a` is the name `m.a` in this set.
    assert_eq!(id_of(set.get(".m.a")), None);
}

#[test]
fn get_descends_one_level_only() {
    let mut inner = CmdSet::from(vec![cmd("cmd", 3)], StrMap::new());
    inner.add_module(CmdSet::from(vec![cmd("cmd", 4)], StrMap::new()), "deep");
    let mut middle = CmdSet::from(vec![cmd("sub.cmd", 2), cmd("cmd", 5)], StrMap::new());
    middle.add_module(inner, "sub");
    let mut set = CmdSet::from(vec![cmd("mod.sub.cmd", 1)], StrMap::new());
    set.add_module(middle, "mod");
    // All that follows the first dot is one name within the module `mod`.
    assert_eq!(id_of(set.get("mod.sub.cmd")), Some(2));
    assert_eq!(id_of(set.get("mod.cmd")), Some(5));
    // The modules of a module are not reached.
    assert_eq!(id_of(set.get("mod.sub.deep.cmd")), None);
    assert_eq!(id_of(set.get("sub.cmd")), None);
}

#[test]
fn get_two_dots_without_such_a_name() {
    let mut inner = CmdSet::from(vec![cmd("cmd", 3)], StrMap::new());
    inner.add_module(CmdSet::new(), "x");
    let mut middle = CmdSet::from(vec![cmd("cmd", 5)], StrMap::new());
    middle.add_module(inner, "sub");
    let mut set = CmdSet::new();
    set.add_module(middle, "mod");
    assert_eq!(id_of(set.get("mod.sub.cmd")), None);
    assert_eq!(id_of(set.get("mod.cmd")), Some(5));
}

#[test]
fn get_dotted_alias_in_module() {
    let mut set = CmdSet::new();
    set.add_module(CmdSet::from(vec![cmd("c", 1)], aliases(&[("a.b", "c")])), "m");
    assert_eq!(id_of(set.get("m.a.b")), Some(1));
}

#[test]
fn add_module_replaces_module_of_same_name() {
    let mut set = CmdSet::new();
    set.add_module(CmdSet::from(vec![cmd("a", 1)], StrMap::new()), "m");
    set.add_module(CmdSet::from(vec![cmd("b", 2)], StrMap::new()), "m");
    assert_eq!(id_of(set.get("m.a")), None);
    assert_eq!(id_of(set.get("m.b")), Some(2));
}

#[test]
fn add_module_leaves_commands_and_aliases() {
    let mut set = CmdSet::from(vec![cmd("a", 1)], aliases(&[("x", "a")]));
    set.add_module(CmdSet::from(vec![cmd("b", 2)], StrMap::new()), "m");
    assert_eq!(set.commands.len(), 1);
    assert_eq!(set.aliases.len(), 1);
    assert_eq!(id_of(set.get("x")), Some(1));
}

#[test]
fn extend_appends_commands_and_adds_aliases() {
    let mut set = CmdSet::from(vec![cmd("a", 1), cmd("b", 2)], aliases(&[("x", "a"), ("y", "b")]));
    let other = CmdSet::from(vec![cmd("b", 3), cmd("c", 4)], aliases(&[("y", "c"), ("z", "a")]));
    set.extend(other);
    let names: Vec<&str> = set.commands.iter().map(|c| c.name()).collect();
    assert_eq!(names, vec!["a", "b", "b", "c"]);
    // Of two commands with one name the earlier is found.
    assert_eq!(id_of(set.get("b")), Some(2));
    assert_eq!(id_of(set.get("c")), Some(4));
    // Of two aliases with one name the later stays.
    assert_eq!(set.aliases.len(), 3);
    assert_eq!(id_of(set.get("x")), Some(1));
    assert_eq!(id_of(set.get("y")), Some(4));
    assert_eq!(id_of(set.get("z")), Some(1));
}

#[test]
fn extend_leaves_modules_out() {
    let mut set = CmdSet::new();
    set.add_module(CmdSet::from(vec![cmd("a", 1)], StrMap::new()), "mine");
    let mut other = CmdSet::from(vec![cmd("b", 2)], StrMap::new());
    other.add_module(CmdSet::from(vec![cmd("c", 3)], StrMap::new()), "theirs");
    set.extend(other);
    assert_eq!(id_of(set.get("b")), Some(2));
    assert_eq!(id_of(set.get("mine.a")), Some(1));
    assert_eq!(id_of(set.get("theirs.c")), None);
    assert_eq!(set.modules.len(), 1);
}

#[test]
fn extend_by_empty_set_changes_nothing() {
    let mut set = CmdSet::from(vec![cmd("a", 1)], aliases(&[("x", "a")]));
    set.extend(CmdSet::new());
    assert_eq!(set.commands.len(), 1);
    assert_eq!(set.aliases.len(), 1);
    assert_eq!(id_of(set.get("x")), Some(1));
}

//! Registries of commands: an ordered list of commands, aliases for their
//! names, and named modules one level below.

use crate::commands::{Command, SpecCommand};
use crate::strmap::StrMap;
use crate::text::{command_part, first_dot, module_part, split_name, str_eq};
use vstd::prelude::*;

verus! {

/// A set of commands with aliases and nested modules.
#[derive(Debug)]
pub struct CmdSet {
    pub commands: Vec<Command>,
    /// From an alternate name to the name of a command of this set.
    pub aliases: StrMap<String>,
    /// The nested sets with their module names. Of two with one name the
    /// later stands for the module.
    pub modules: Vec<(String, CmdSet)>,
}

/// The mathematical model of a [`CmdSet`].
pub struct SpecCmdSet {
    pub commands: Seq<SpecCommand>,
    pub aliases: Map<Seq<char>, Seq<char>>,
    pub modules: Map<Seq<char>, CmdSet>,
}

impl View for CmdSet {
    type V = SpecCmdSet;

    open spec fn view(&self) -> SpecCmdSet {
        SpecCmdSet {
            commands: Seq::new(self.commands@.len(), |i: int| self.commands@[i]@),
            aliases: self.aliases@.map_values(|target: String| target@),
            modules: module_map(self.modules@),
        }
    }
}

/// The modules that a list of named sets stands for: each name with the last
/// set that the list holds under it.
pub open spec fn module_map(list: Seq<(String, CmdSet)>) -> Map<Seq<char>, CmdSet>
    decreases list.len(),
{
    if list.len() == 0 {
        Map::empty()
    } else {
        module_map(list.drop_last()).insert(list.last().0@, list.last().1)
    }
}

/// Whether `i` is the first command with the name `name`.
pub open spec fn first_command(commands: Seq<SpecCommand>, name: Seq<char>, i: int) -> bool {
    &&& 0 <= i < commands.len()
    &&& commands[i].name == name
    &&& forall|j: int| 0 <= j < i ==> (#[trigger] commands[j]).name != name
}

/// The first command with exactly the name `name`, if there is one.
pub open spec fn find_spec(commands: Seq<SpecCommand>, name: Seq<char>) -> Option<SpecCommand> {
    if exists|i: int| first_command(commands, name, i) {
        Some(commands[choose|i: int| first_command(commands, name, i)])
    } else {
        None
    }
}

/// What a name stands for within one set: the command of that name, or else
/// the command whose name the alias table gives for it. The alias is followed
/// once; its target is taken as a command name and nothing else.
pub open spec fn lookup_spec(set: SpecCmdSet, name: Seq<char>) -> Option<SpecCommand> {
    match find_spec(set.commands, name) {
        Some(c) => Some(c),
        None => if set.aliases.contains_key(name) {
            find_spec(set.commands, set.aliases[name])
        } else {
            None
        },
    }
}

/// What a dotted name stands for: with a module prefix, what the rest of the
/// name stands for within that module; without one, what it stands for in
/// this set. The name is split at its first dot only.
pub open spec fn get_spec(set: SpecCmdSet, name: Seq<char>) -> Option<SpecCommand> {
    if module_part(name).len() > 0 {
        if set.modules.contains_key(module_part(name)) {
            lookup_spec(set.modules[module_part(name)]@, command_part(name))
        } else {
            None
        }
    } else {
        lookup_spec(set, command_part(name))
    }
}

/// The first command of a name is the one that `find_spec` gives.
pub proof fn lemma_find_is(commands: Seq<SpecCommand>, name: Seq<char>, i: int)
    requires
        first_command(commands, name, i),
    ensures
        find_spec(commands, name) == Some(commands[i]),
{
    let k = choose|k: int| first_command(commands, name, k);
    assert(first_command(commands, name, k));
    if k < i {
        assert(commands[k].name != name);
    }
    if i < k {
        assert(commands[i].name != name);
    }
}

/// Where no command has the name, `find_spec` gives nothing.
pub proof fn lemma_find_none(commands: Seq<SpecCommand>, name: Seq<char>)
    requires
        forall|j: int| 0 <= j < commands.len() ==> (#[trigger] commands[j]).name != name,
    ensures
        find_spec(commands, name) is None,
{
    if exists|i: int| first_command(commands, name, i) {
        let i = choose|i: int| first_command(commands, name, i);
        assert(commands[i].name != name);
    }
}

impl CmdSet {
    /// The set without commands, aliases or modules.
    pub fn new() -> (set: Self)
        ensures
            set@.commands == Seq::<SpecCommand>::empty(),
            set@.aliases == Map::<Seq<char>, Seq<char>>::empty(),
            set@.modules == Map::<Seq<char>, CmdSet>::empty(),
    {
        let set = CmdSet { commands: Vec::new(), aliases: StrMap::new(), modules: Vec::new() };
        assert(set@.commands =~= Seq::<SpecCommand>::empty());
        assert(set@.aliases =~= Map::<Seq<char>, Seq<char>>::empty());
        set
    }

    /// The set of the given commands and aliases, without modules.
    pub fn from(commands: Vec<Command>, aliases: StrMap<String>) -> (set: Self)
        ensures
            set.commands == commands,
            set.aliases == aliases,
            set@.modules == Map::<Seq<char>, CmdSet>::empty(),
    {
        CmdSet { commands, aliases, modules: Vec::new() }
    }

    /// The first command of this set with exactly the name `name`.
    fn find(&self, name: &str) -> (found: Option<&Command>)
        ensures
            match found {
                Some(c) => find_spec(self@.commands, name@) == Some(c@),
                None => find_spec(self@.commands, name@) is None,
            },
    {
        let mut i: usize = 0;
        while i < self.commands.len()
            invariant
                i <= self.commands@.len(),
                forall|j: int| 0 <= j < i ==> (#[trigger] self@.commands[j]).name != name@,
            decreases self.commands@.len() - i,
        {
            if str_eq(self.commands[i].name(), name) {
                proof {
                    lemma_find_is(self@.commands, name@, i as int);
                }
                return Some(&self.commands[i]);
            }
            i += 1;
        }
        proof {
            lemma_find_none(self@.commands, name@);
        }
        None
    }

    /// The module of this set with the name `name`.
    fn module(&self, name: &str) -> (found: Option<&CmdSet>)
        ensures
            match found {
                Some(set) => self@.modules.contains_key(name@) && self@.modules[name@] == *set,
                None => !self@.modules.contains_key(name@),
            },
    {
        let ghost list = self.modules@;
        let mut i: usize = self.modules.len();
        assert(list.take(i as int) =~= list);
        while i > 0
            invariant
                i <= list.len(),
                list == self.modules@,
                module_map(list).contains_key(name@) == module_map(
                    list.take(i as int),
                ).contains_key(name@),
                module_map(list).contains_key(name@) ==> module_map(list)[name@] == module_map(
                    list.take(i as int),
                )[name@],
            decreases i,
        {
            i -= 1;
            let ghost upto = list.take(i as int + 1);
            assert(upto.drop_last() =~= list.take(i as int));
            assert(upto.last() == list[i as int]);
            if str_eq(self.modules[i].0.as_str(), name) {
                return Some(&self.modules[i].1);
            }
        }
        None
    }

    /// What `name` stands for within this set, modules left aside.
    fn lookup(&self, name: &str) -> (found: Option<&Command>)
        ensures
            match found {
                Some(c) => lookup_spec(self@, name@) == Some(c@),
                None => lookup_spec(self@, name@) is None,
            },
    {
        if let Some(command) = self.find(name) {
            return Some(command);
        }
        match self.aliases.get(name) {
            Some(target) => self.find(target.as_str()),
            None => None,
        }
    }

    /// The command that a dotted name stands for, if there is one.
    ///
    /// `"module.command"` is looked up in the module of that name, and a name
    /// without a prefix in this set. The name is split at its first dot only,
    /// so the modules of a module are never reached.
    pub fn get(&self, name: &str) -> (found: Option<&Command>)
        ensures
            match found {
                Some(c) => get_spec(self@, name@) == Some(c@),
                None => get_spec(self@, name@) is None,
            },
    {
        let (module, command) = split_name(name);
        if !module.is_empty() {
            match self.module(module) {
                Some(set) => set.lookup(command),
                None => None,
            }
        } else {
            self.lookup(command)
        }
    }

    /// Appends the commands of `other` and adds its aliases. Nothing is
    /// checked against what is there: of two commands with one name the
    /// earlier is found, and of two aliases with one name the one of `other`
    /// stays. The modules of `other` are left out.
    pub fn extend(&mut self, other: Self)
        ensures
            final(self)@.commands == old(self)@.commands + other@.commands,
            final(self)@.aliases == old(self)@.aliases.union_prefer_right(other@.aliases),
            final(self)@.modules == old(self)@.modules,
    {
        let CmdSet { commands, aliases, modules: _ } = other;
        let mut commands = commands;
        self.commands.append(&mut commands);
        self.aliases.extend(aliases);
        assert(self@.commands =~= old(self)@.commands + other@.commands);
        assert(self@.aliases =~= old(self)@.aliases.union_prefer_right(other@.aliases));
    }

    /// Attaches `commands` as the module `name`, in place of a module of that
    /// name if there is one.
    pub fn add_module(&mut self, commands: CmdSet, name: &str)
        ensures
            final(self)@.commands == old(self)@.commands,
            final(self)@.aliases == old(self)@.aliases,
            final(self)@.modules == old(self)@.modules.insert(name@, commands),
    {
        let ghost before = self.modules@;
        self.modules.push((name.to_owned(), commands));
        assert(self.modules@.drop_last() =~= before);
    }
}

impl Default for CmdSet {
    fn default() -> (set: Self)
        ensures
            set@.commands == Seq::<SpecCommand>::empty(),
            set@.aliases == Map::<Seq<char>, Seq<char>>::empty(),
            set@.modules == Map::<Seq<char>, CmdSet>::empty(),
    {
        CmdSet::new()
    }
}

} // verus!

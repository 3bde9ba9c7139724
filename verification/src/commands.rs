//! Commands: a name, an entry point and an ordered list of declared
//! parameters, checked once when the command is built.

use crate::error::{ASError, ASOtherError, SpecError};
use crate::variables::ASType;
use vstd::prelude::*;
use vstd::string::StringExecFns;

verus! {

/// A declared parameter of a command.
#[derive(Debug, PartialEq, Eq)]
pub struct CommandArg {
    pub name: String,
    /// The type that a value must have, or `ASType::Any` for any type.
    pub type_: ASType,
    pub required: bool,
}

/// The mathematical model of a [`CommandArg`].
pub struct SpecArg {
    pub name: Seq<char>,
    pub type_: ASType,
    pub required: bool,
}

impl View for CommandArg {
    type V = SpecArg;

    open spec fn view(&self) -> SpecArg {
        SpecArg { name: self.name@, type_: self.type_, required: self.required }
    }
}

impl DeepView for CommandArg {
    type V = SpecArg;

    open spec fn deep_view(&self) -> SpecArg {
        self@
    }
}

impl Clone for CommandArg {
    fn clone(&self) -> (res: Self)
        ensures
            res == *self,
    {
        CommandArg { name: self.name.clone(), type_: self.type_, required: self.required }
    }
}

/// The entry point of a command: what runs once its arguments are bound.
#[derive(Clone, Copy, Debug, PartialEq, Eq, Structural)]
pub enum CommandFn {
    /// Waits for the player.
    Wait,
    /// Moves the instruction pointer.
    Goto,
    /// Lets the player choose where the script goes on.
    Choice,
    /// Ends the run.
    Ending,
    /// Hands its arguments back to be printed.
    Test,
    /// An entry point that the host provides, known here by its number.
    External(u32),
}

/// A named operation that a script can call.
#[derive(Debug, PartialEq, Eq)]
pub struct Command {
    name: String,
    func: CommandFn,
    args: Vec<CommandArg>,
    deprecated: bool,
}

/// The mathematical model of a [`Command`].
pub struct SpecCommand {
    pub name: Seq<char>,
    pub func: CommandFn,
    pub args: Seq<SpecArg>,
    pub deprecated: bool,
}

/// Whether a parameter list can be declared: no parameter has the type of the
/// absent value, and no required parameter follows an optional one.
pub open spec fn args_wf(args: Seq<SpecArg>) -> bool {
    &&& forall|i: int| 0 <= i < args.len() ==> (#[trigger] args[i]).type_ != ASType::Absent
    &&& forall|i: int, j: int|
        0 <= j < i < args.len() && !(#[trigger] args[j]).required ==> !(#[trigger] args[i]).required
}

/// Whether the parameter at `i` cannot stand where it is: it has the type of
/// the absent value, or it is required and an optional one precedes it.
pub open spec fn arg_refused(args: Seq<SpecArg>, i: int) -> bool {
    ||| args[i].type_ == ASType::Absent
    ||| args[i].required && exists|j: int| 0 <= j < i && !(#[trigger] args[j]).required
}

/// Whether `i` is the first parameter that cannot stand where it is.
pub open spec fn first_refused(args: Seq<SpecArg>, i: int) -> bool {
    &&& 0 <= i < args.len()
    &&& arg_refused(args, i)
    &&& forall|k: int| 0 <= k < i ==> !arg_refused(args, k)
}

/// The message of the failure that building the command `name` gives for the
/// first refused parameter, which is the one at `i`.
pub open spec fn refusal_message(name: Seq<char>, args: Seq<SpecArg>, i: int) -> Seq<char> {
    if args[i].type_ == ASType::Absent {
        "Command '"@ + name + "' takes a None type parameter"@
    } else {
        "Command '"@ + name + "' has a required argument after an optional one"@
    }
}

/// What `Command::new` gives: the command, or the failure for the first
/// parameter that cannot stand where it is.
pub open spec fn new_spec(
    name: Seq<char>,
    func: CommandFn,
    args: Seq<SpecArg>,
    deprecated: bool,
) -> Result<SpecCommand, SpecError> {
    if args_wf(args) {
        Ok(SpecCommand { name, func, args, deprecated })
    } else {
        Err(SpecError::DevErr(refusal_message(name, args, choose|i: int| first_refused(args, i))))
    }
}

/// A parameter list is well formed exactly if none of its parameters is refused.
pub proof fn lemma_wf_iff_none_refused(args: Seq<SpecArg>)
    ensures
        args_wf(args) <==> forall|i: int| 0 <= i < args.len() ==> !arg_refused(args, i),
{
    if args_wf(args) {
        assert forall|i: int| 0 <= i < args.len() implies !arg_refused(args, i) by {
            if args[i].required && exists|j: int| 0 <= j < i && !(#[trigger] args[j]).required {
                let j = choose|j: int| 0 <= j < i && !(#[trigger] args[j]).required;
                assert(!args[i].required);
            }
        }
    }
    if forall|i: int| 0 <= i < args.len() ==> !arg_refused(args, i) {
        assert forall|i: int, j: int|
            0 <= j < i < args.len() && !(#[trigger] args[j]).required implies !(
        #[trigger] args[i]).required by {
            assert(!arg_refused(args, i));
        }
        assert forall|i: int| 0 <= i < args.len() implies (#[trigger] args[i]).type_
            != ASType::Absent by {
            assert(!arg_refused(args, i));
        }
    }
}

/// A list in which a required parameter follows an optional one is never
/// accepted: building a command from it fails with a `DevErr`, whatever the
/// other parameters and however many there are.
pub proof fn lemma_required_after_optional_fails(
    name: Seq<char>,
    func: CommandFn,
    args: Seq<SpecArg>,
    deprecated: bool,
    optional: int,
    required: int,
)
    requires
        0 <= optional < required < args.len(),
        !args[optional].required,
        args[required].required,
    ensures
        !args_wf(args),
        new_spec(name, func, args, deprecated) is Err,
        new_spec(name, func, args, deprecated)->Err_0 is DevErr,
{
}

/// A list with a parameter of the absent value's type is never accepted.
pub proof fn lemma_absent_type_fails(
    name: Seq<char>,
    func: CommandFn,
    args: Seq<SpecArg>,
    deprecated: bool,
    at: int,
)
    requires
        0 <= at < args.len(),
        args[at].type_ == ASType::Absent,
    ensures
        !args_wf(args),
        new_spec(name, func, args, deprecated) is Err,
        new_spec(name, func, args, deprecated)->Err_0 is DevErr,
{
}

impl Command {
    /// Whether the declared parameters are well formed. Every command that
    /// `new` has built is.
    pub open spec fn wf(&self) -> bool {
        args_wf(self@.args)
    }

    /// Builds a command. Fails with a `DevErr` if a parameter has the type of
    /// the absent value or a required parameter follows an optional one.
    pub fn new(
        name: String,
        func: CommandFn,
        args: Vec<CommandArg>,
        deprecated: bool,
    ) -> (made: Result<Command, ASError>)
        ensures
            match made {
                Ok(c) => new_spec(name@, func, args.deep_view(), deprecated) == Ok::<
                    SpecCommand,
                    SpecError,
                >(c@) && c.wf(),
                Err(e) => new_spec(name@, func, args.deep_view(), deprecated) == Err::<
                    SpecCommand,
                    SpecError,
                >(e@),
            },
    {
        let ghost specs = args.deep_view();
        let mut optionals = false;
        let mut i: usize = 0;
        while i < args.len()
            invariant
                i <= args.len(),
                specs == args.deep_view(),
                forall|k: int| 0 <= k < i ==> !arg_refused(specs, k),
                optionals <==> exists|j: int| 0 <= j < i && !(#[trigger] specs[j]).required,
            decreases args.len() - i,
        {
            let arg = &args[i];
            assert(arg@ == specs[i as int]);
            if arg.type_ == ASType::Absent {
                let mut message = "Command '".to_owned();
                message.append(name.as_str());
                message.append("' takes a None type parameter");
                proof {
                    lemma_first_refused_is(specs, i as int);
                    lemma_wf_iff_none_refused(specs);
                }
                return Err(ASError::Other(ASOtherError::DevErr(message)));
            }
            if optionals && arg.required {
                let mut message = "Command '".to_owned();
                message.append(name.as_str());
                message.append("' has a required argument after an optional one");
                proof {
                    lemma_first_refused_is(specs, i as int);
                    lemma_wf_iff_none_refused(specs);
                }
                return Err(ASError::Other(ASOtherError::DevErr(message)));
            } else if !arg.required {
                optionals = true;
            }
            proof {
                if exists|j: int| 0 <= j < i && !(#[trigger] specs[j]).required {
                } else {
                    assert forall|j: int|
                        0 <= j < i + 1 && !(#[trigger] specs[j]).required implies j == i by {}
                }
            }
            i += 1;
        }
        proof {
            lemma_wf_iff_none_refused(specs);
        }
        Ok(Command { name, func, args, deprecated })
    }

    /// The name under which a script calls the command.
    pub fn name(&self) -> (name: &str)
        ensures
            name@ == self@.name,
    {
        self.name.as_str()
    }

    /// Whether the command is kept only for old scripts.
    pub fn deprecated(&self) -> (flag: bool)
        ensures
            flag == self@.deprecated,
    {
        self.deprecated
    }

    /// The entry point.
    pub fn func(&self) -> (f: CommandFn)
        ensures
            f == self@.func,
    {
        self.func
    }

    /// The declared parameters, in order.
    pub fn args(&self) -> (list: &Vec<CommandArg>)
        ensures
            list.deep_view() == self@.args,
    {
        &self.args
    }
}

impl View for Command {
    type V = SpecCommand;

    closed spec fn view(&self) -> SpecCommand {
        SpecCommand {
            name: self.name@,
            func: self.func,
            args: self.args.deep_view(),
            deprecated: self.deprecated,
        }
    }
}

impl Clone for Command {
    fn clone(&self) -> (res: Self)
        ensures
            res@ == self@,
    {
        let mut args: Vec<CommandArg> = Vec::new();
        let mut i: usize = 0;
        while i < self.args.len()
            invariant
                i <= self.args.len(),
                args@.len() == i,
                forall|k: int| 0 <= k < i ==> args@[k] == self.args@[k],
            decreases self.args.len() - i,
        {
            args.push(self.args[i].clone());
            i += 1;
        }
        assert(args.deep_view() =~= self.args.deep_view());
        Command { name: self.name.clone(), func: self.func, args, deprecated: self.deprecated }
    }
}

/// The first refused parameter is the one with none refused before it.
pub proof fn lemma_first_refused_is(args: Seq<SpecArg>, i: int)
    requires
        first_refused(args, i),
    ensures
        (choose|k: int| first_refused(args, k)) == i,
{
    let k = choose|k: int| first_refused(args, k);
    assert(first_refused(args, k));
    if k < i {
        assert(!arg_refused(args, k));
    }
    if i < k {
        assert(!arg_refused(args, i));
    }
}

} // verus!

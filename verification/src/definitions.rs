//! The built-in commands: what each does to the state once its arguments are
//! bound, and what it asks of the host.

use crate::commands::{args_wf, Command, CommandArg, CommandFn, SpecArg, SpecCommand};
use crate::info::{GameInfo, SpecInfo};
use crate::io::{IoRequest, SpecRequest};
use crate::registry::CmdSet;
use crate::strmap::StrMap;
use crate::variables::{ASType, ASVariable, SpecVariable};
use vstd::prelude::*;
use vstd::string::StringExecFns;

verus! {

/// The number of options that `choice` has room for.
pub const MAX_CHOICES: usize = 9;

/// The value at `i`, or the absent value where the list is shorter.
pub open spec fn value_at(values: Seq<SpecVariable>, i: int) -> SpecVariable {
    if 0 <= i < values.len() {
        values[i]
    } else {
        SpecVariable::Absent
    }
}

/// The text of a value, or the empty text if it is no string.
pub open spec fn text_of(value: SpecVariable) -> Seq<char> {
    match value {
        SpecVariable::String(text) => text,
        _ => Seq::empty(),
    }
}

/// The number of a value, or 0 if it is no integer.
pub open spec fn int_of(value: SpecVariable) -> i32 {
    match value {
        SpecVariable::Int(n) => n,
        _ => 0,
    }
}

/// The digit that stands for option `a`, counted from 0: `1` to `9`.
pub open spec fn digit_text(a: int) -> Seq<char> {
    if a == 0 {
        "1"@
    } else if a == 1 {
        "2"@
    } else if a == 2 {
        "3"@
    } else if a == 3 {
        "4"@
    } else if a == 4 {
        "5"@
    } else if a == 5 {
        "6"@
    } else if a == 6 {
        "7"@
    } else if a == 7 {
        "8"@
    } else {
        "9"@
    }
}

/// The label that option `a`, counted from 0, has when the call gives none:
/// `Choice 1` to `Choice 9`.
pub open spec fn default_label(a: int) -> Seq<char> {
    "Choice "@ + digit_text(a)
}

/// The label of option `a`, counted from 0: the text that was given, the
/// default where none was, and the empty text for a value that is no string.
pub open spec fn label_at(values: Seq<SpecVariable>, a: int) -> Seq<char> {
    match value_at(values, 1 + a) {
        SpecVariable::String(text) => text,
        SpecVariable::Absent => default_label(a),
        _ => Seq::empty(),
    }
}

/// The destination of option `a`, counted from 0; 0 stands for an option that
/// is not set.
pub open spec fn goto_at(values: Seq<SpecVariable>, a: int) -> i32 {
    int_of(value_at(values, 1 + MAX_CHOICES + a))
}

/// Whether exactly the first `n` options are offered: they all have a
/// destination, and option `n` has none or there is no room for it.
pub open spec fn offers(values: Seq<SpecVariable>, n: int) -> bool {
    &&& 0 <= n <= MAX_CHOICES
    &&& forall|a: int| 0 <= a < n ==> #[trigger] goto_at(values, a) != 0
    &&& n < MAX_CHOICES ==> goto_at(values, n) == 0
}

/// The number of options that a call of `choice` offers.
pub open spec fn option_count(values: Seq<SpecVariable>) -> int {
    choose|n: int| offers(values, n)
}

/// What `choice` asks of the host: the prompt, and the labels and
/// destinations of the options that are set.
pub open spec fn choice_request(values: Seq<SpecVariable>) -> SpecRequest {
    SpecRequest::Query {
        text: text_of(value_at(values, 0)),
        choices: Seq::new(option_count(values) as nat, |a: int| label_at(values, a)),
        gotos: Seq::new(option_count(values) as nat, |a: int| goto_at(values, a)),
        allow_save: true,
    }
}

/// What `ending` shows for the ending called `name`.
pub open spec fn ending_text(name: Seq<char>) -> Seq<char> {
    "Ending: "@ + name
}

/// The values that `test` hands back: those it was given, with the text
/// `this is a test` where the third is absent.
pub open spec fn test_values(values: Seq<SpecVariable>) -> Seq<SpecVariable> {
    if values.len() > 2 && values[2] is Absent {
        values.update(2, SpecVariable::String("this is a test"@))
    } else {
        values
    }
}

/// What an entry point asks of the host, and the state it leaves, when it
/// runs on bound values in the state `info`.
pub open spec fn invoke_spec(func: CommandFn, info: SpecInfo, values: Seq<SpecVariable>) -> (
    SpecRequest,
    SpecInfo,
) {
    match func {
        CommandFn::Wait => (SpecRequest::Wait, info),
        CommandFn::Goto => (SpecRequest::Nothing, info.jump(int_of(value_at(values, 0)))),
        CommandFn::Choice => (choice_request(values), info),
        CommandFn::Ending => (
            SpecRequest::Ending { text: ending_text(text_of(value_at(values, 0))) },
            info,
        ),
        CommandFn::Test => (SpecRequest::Dump { values: test_values(values) }, info),
        CommandFn::External(id) => (SpecRequest::External { id, args: values }, info),
    }
}

/// The number of options offered is the one count that `offers` holds of.
pub proof fn lemma_option_count(values: Seq<SpecVariable>, n: int)
    requires
        offers(values, n),
    ensures
        option_count(values) == n,
{
    let m = option_count(values);
    assert(offers(values, m));
    if m < n {
        assert(goto_at(values, m) != 0);
    }
    if n < m {
        assert(goto_at(values, n) != 0);
    }
}

/// The text of the value at `i`, or the empty text.
fn text_arg(args: &Vec<ASVariable>, i: usize) -> (text: String)
    ensures
        text@ == text_of(value_at(args.deep_view(), i as int)),
{
    if i < args.len() {
        if let ASVariable::String(text) = &args[i] {
            return text.clone();
        }
    }
    String::new()
}

/// The number of the value at `i`, or 0.
fn int_arg(args: &Vec<ASVariable>, i: usize) -> (n: i32)
    ensures
        n == int_of(value_at(args.deep_view(), i as int)),
{
    if i < args.len() {
        if let ASVariable::Int(n) = &args[i] {
            return *n;
        }
    }
    0
}

/// `prefix` followed by the digit of option `a`.
fn numbered(prefix: &str, a: usize) -> (text: String)
    requires
        a < MAX_CHOICES,
    ensures
        text@ == prefix@ + digit_text(a as int),
{
    let digit = if a == 0 {
        "1"
    } else if a == 1 {
        "2"
    } else if a == 2 {
        "3"
    } else if a == 3 {
        "4"
    } else if a == 4 {
        "5"
    } else if a == 5 {
        "6"
    } else if a == 6 {
        "7"
    } else if a == 7 {
        "8"
    } else {
        "9"
    };
    let mut text = prefix.to_owned();
    text.append(digit);
    text
}

/// The label of option `a` of a call of `choice`.
fn label_arg(args: &Vec<ASVariable>, a: usize) -> (label: String)
    requires
        a < MAX_CHOICES,
    ensures
        label@ == label_at(args.deep_view(), a as int),
{
    if 1 + a < args.len() {
        match &args[1 + a] {
            ASVariable::String(text) => text.clone(),
            ASVariable::Absent => numbered("Choice ", a),
            _ => String::new(),
        }
    } else {
        numbered("Choice ", a)
    }
}

/// `wait()`: asks the host for one blocking wait. The state stays as it is.
pub fn wait_fn(info: &mut GameInfo, args: Vec<ASVariable>) -> (request: IoRequest)
    ensures
        (request@, final(info)@) == invoke_spec(CommandFn::Wait, old(info)@, args.deep_view()),
        request@ == SpecRequest::Wait,
        final(info)@ == old(info)@,
{
    IoRequest::Wait
}

/// `goto(pos)`: makes `pos` the current instruction, wherever the pointer was.
pub fn goto_fn(info: &mut GameInfo, args: Vec<ASVariable>) -> (request: IoRequest)
    ensures
        (request@, final(info)@) == invoke_spec(CommandFn::Goto, old(info)@, args.deep_view()),
        final(info)@.pointer == int_of(value_at(args.deep_view(), 0)),
{
    let pos = int_arg(&args, 0);
    info.set_pointer(pos);
    IoRequest::Nothing
}

/// `choice(text, ch1..ch9, go1..go9)`: asks the host to put the options that
/// are set before the player. The options end before the first one whose
/// destination is 0. The state changes only once the player has picked.
pub fn choice_fn(info: &mut GameInfo, args: Vec<ASVariable>) -> (request: IoRequest)
    ensures
        (request@, final(info)@) == invoke_spec(CommandFn::Choice, old(info)@, args.deep_view()),
        final(info)@ == old(info)@,
{
    let ghost values = args.deep_view();
    let mut choices: Vec<String> = Vec::new();
    let mut gotos: Vec<i32> = Vec::new();
    let mut a: usize = 0;
    while a < MAX_CHOICES
        invariant
            a <= MAX_CHOICES,
            values == args.deep_view(),
            choices@.len() == a,
            gotos@.len() == a,
            forall|b: int| 0 <= b < a ==> #[trigger] goto_at(values, b) != 0,
            forall|b: int| 0 <= b < a ==> #[trigger] gotos@[b] == goto_at(values, b),
            forall|b: int| 0 <= b < a ==> (#[trigger] choices@[b])@ == label_at(values, b),
        ensures
            offers(values, a as int),
            choices@.len() == a,
            gotos@.len() == a,
            forall|b: int| 0 <= b < a ==> #[trigger] gotos@[b] == goto_at(values, b),
            forall|b: int| 0 <= b < a ==> (#[trigger] choices@[b])@ == label_at(values, b),
        decreases MAX_CHOICES - a,
    {
        let goto = int_arg(&args, 1 + MAX_CHOICES + a);
        if goto == 0 {
            break ;
        }
        choices.push(label_arg(&args, a));
        gotos.push(goto);
        a += 1;
    }
    let text = text_arg(&args, 0);
    proof {
        lemma_option_count(values, a as int);
        assert(choices.deep_view() =~= Seq::new(a as nat, |b: int| label_at(values, b)));
        assert(gotos@ =~= Seq::new(a as nat, |b: int| goto_at(values, b)));
    }
    IoRequest::Query { text, choices, gotos, allow_save: true }
}

/// `ending(name)`: asks the host to show the ending. The run ends once the
/// host has shown it; the pointer is never touched.
pub fn ending_fn(info: &mut GameInfo, args: Vec<ASVariable>) -> (request: IoRequest)
    ensures
        (request@, final(info)@) == invoke_spec(CommandFn::Ending, old(info)@, args.deep_view()),
        final(info)@ == old(info)@,
{
    let name = text_arg(&args, 0);
    let mut text = "Ending: ".to_owned();
    text.append(name.as_str());
    IoRequest::Ending { text }
}

/// `test(arg1, test, arg2)`: hands its arguments back to be printed.
pub fn test_fn(info: &mut GameInfo, args: Vec<ASVariable>) -> (request: IoRequest)
    ensures
        (request@, final(info)@) == invoke_spec(CommandFn::Test, old(info)@, args.deep_view()),
        final(info)@ == old(info)@,
{
    let mut values = args;
    let ghost given = values.deep_view();
    if values.len() > 2 {
        if let ASVariable::Absent = &values[2] {
            values.set(2, ASVariable::String("this is a test".to_owned()));
            assert(values.deep_view() =~= test_values(given));
        }
    }
    IoRequest::Dump { values }
}

/// Runs an entry point on bound values.
pub fn invoke(func: CommandFn, info: &mut GameInfo, args: Vec<ASVariable>) -> (request: IoRequest)
    ensures
        (request@, final(info)@) == invoke_spec(func, old(info)@, args.deep_view()),
{
    match func {
        CommandFn::Wait => wait_fn(info, args),
        CommandFn::Goto => goto_fn(info, args),
        CommandFn::Choice => choice_fn(info, args),
        CommandFn::Ending => ending_fn(info, args),
        CommandFn::Test => test_fn(info, args),
        CommandFn::External(id) => IoRequest::External { id, args },
    }
}

/// A declared parameter.
fn param(name: &str, type_: ASType, required: bool) -> (arg: CommandArg)
    ensures
        arg@ == (SpecArg { name: name@, type_, required }),
{
    CommandArg { name: name.to_owned(), type_, required }
}

/// The parameter of `choice` at `i`: the prompt `text`, then the labels
/// `ch1` to `ch9`, then the destinations `go1` to `go9`, all optional.
pub open spec fn choice_param(i: int) -> SpecArg {
    if i == 0 {
        SpecArg { name: "text"@, type_: ASType::String, required: false }
    } else if i <= MAX_CHOICES {
        SpecArg { name: "ch"@ + digit_text(i - 1), type_: ASType::String, required: false }
    } else {
        SpecArg {
            name: "go"@ + digit_text(i - 1 - MAX_CHOICES),
            type_: ASType::Int,
            required: false,
        }
    }
}

/// The command `wait()`.
pub open spec fn wait_command() -> SpecCommand {
    SpecCommand { name: "wait"@, func: CommandFn::Wait, args: Seq::empty(), deprecated: false }
}

/// The command `choice(text, ch1..ch9, go1..go9)`.
pub open spec fn choice_command() -> SpecCommand {
    SpecCommand {
        name: "choice"@,
        func: CommandFn::Choice,
        args: Seq::new((1 + 2 * MAX_CHOICES) as nat, |i: int| choice_param(i)),
        deprecated: false,
    }
}

/// The command `goto(pos)`, with `pos` a required integer.
pub open spec fn goto_command() -> SpecCommand {
    SpecCommand {
        name: "goto"@,
        func: CommandFn::Goto,
        args: seq![SpecArg { name: "pos"@, type_: ASType::Int, required: true }],
        deprecated: false,
    }
}

/// The command `ending(name)`, with `name` an optional string.
pub open spec fn ending_command() -> SpecCommand {
    SpecCommand {
        name: "ending"@,
        func: CommandFn::Ending,
        args: seq![SpecArg { name: "name"@, type_: ASType::String, required: false }],
        deprecated: false,
    }
}

/// The command `test(arg1, test, arg2)`: two required parameters, `arg1` of
/// any type and the integer `test`, and the optional `arg2` of any type.
pub open spec fn test_command() -> SpecCommand {
    SpecCommand {
        name: "test"@,
        func: CommandFn::Test,
        args: seq![
            SpecArg { name: "arg1"@, type_: ASType::Any, required: true },
            SpecArg { name: "test"@, type_: ASType::Int, required: true },
            SpecArg { name: "arg2"@, type_: ASType::Any, required: false },
        ],
        deprecated: false,
    }
}

/// Builds a command from a parameter list that is well formed.
fn command(name: &str, func: CommandFn, args: Vec<CommandArg>) -> (made: Command)
    requires
        args_wf(args.deep_view()),
    ensures
        made@ == (SpecCommand { name: name@, func, args: args.deep_view(), deprecated: false }),
        made.wf(),
{
    Command::new(name.to_owned(), func, args, false).unwrap()
}

/// The command `test`, which hands its arguments back to be printed.
pub fn test() -> (made: Command)
    ensures
        made@ == test_command(),
        made.wf(),
{
    let mut args: Vec<CommandArg> = Vec::new();
    args.push(param("arg1", ASType::Any, true));
    args.push(param("test", ASType::Int, true));
    args.push(param("arg2", ASType::Any, false));
    assert(args.deep_view() =~= test_command().args);
    command("test", CommandFn::Test, args)
}

/// The parameters of `choice`.
fn choice_params() -> (args: Vec<CommandArg>)
    ensures
        args.deep_view() == choice_command().args,
{
    let mut args: Vec<CommandArg> = Vec::new();
    args.push(param("text", ASType::String, false));
    let mut a: usize = 0;
    while a < MAX_CHOICES
        invariant
            a <= MAX_CHOICES,
            args@.len() == 1 + a,
            forall|i: int| 0 <= i < args@.len() ==> (#[trigger] args@[i])@ == choice_param(i),
        decreases MAX_CHOICES - a,
    {
        let name = numbered("ch", a);
        args.push(CommandArg { name, type_: ASType::String, required: false });
        a += 1;
    }
    let mut b: usize = 0;
    while b < MAX_CHOICES
        invariant
            b <= MAX_CHOICES,
            args@.len() == 1 + MAX_CHOICES + b,
            forall|i: int| 0 <= i < args@.len() ==> (#[trigger] args@[i])@ == choice_param(i),
        decreases MAX_CHOICES - b,
    {
        let name = numbered("go", b);
        args.push(CommandArg { name, type_: ASType::Int, required: false });
        b += 1;
    }
    assert(args.deep_view() =~= choice_command().args);
    args
}

/// The built-in commands `wait`, `choice`, `goto` and `ending`, in this
/// order, without aliases or modules.
pub fn main_commands() -> (set: CmdSet)
    ensures
        set@.commands == seq![wait_command(), choice_command(), goto_command(), ending_command()],
        set@.aliases == Map::<Seq<char>, Seq<char>>::empty(),
        set@.modules == Map::<Seq<char>, CmdSet>::empty(),
        forall|i: int| 0 <= i < set.commands@.len() ==> (#[trigger] set.commands@[i]).wf(),
{
    let mut commands: Vec<Command> = Vec::new();
    let none: Vec<CommandArg> = Vec::new();
    assert(none.deep_view() =~= wait_command().args);
    commands.push(command("wait", CommandFn::Wait, none));
    commands.push(command("choice", CommandFn::Choice, choice_params()));
    let mut pos: Vec<CommandArg> = Vec::new();
    pos.push(param("pos", ASType::Int, true));
    assert(pos.deep_view() =~= goto_command().args);
    commands.push(command("goto", CommandFn::Goto, pos));
    let mut name: Vec<CommandArg> = Vec::new();
    name.push(param("name", ASType::String, false));
    assert(name.deep_view() =~= ending_command().args);
    commands.push(command("ending", CommandFn::Ending, name));
    let set = CmdSet::from(commands, StrMap::new());
    assert(set@.commands =~= seq![
        wait_command(),
        choice_command(),
        goto_command(),
        ending_command(),
    ]);
    assert(set@.aliases =~= Map::<Seq<char>, Seq<char>>::empty());
    set
}

} // verus!

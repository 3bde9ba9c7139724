//! The argument binder: from the positional and keyword arguments of a call
//! to one value per declared parameter, or to the one failure that stops it.

use crate::commands::{Command, CommandArg, SpecArg, SpecCommand};
use crate::definitions::{invoke, invoke_spec};
use crate::error::{ASCmdError, ASError, CommandErrors, SpecCommandErrors, SpecError};
use crate::info::{GameInfo, SpecInfo};
use crate::io::{IoRequest, SpecRequest};
use crate::text::str_eq;
use crate::variables::{ASType, ASVariable, SpecVariable};
use vstd::prelude::*;

verus! {

/// Whether `i` is the first parameter with the name `name`.
pub open spec fn first_named(params: Seq<SpecArg>, name: Seq<char>, i: int) -> bool {
    &&& 0 <= i < params.len()
    &&& params[i].name == name
    &&& forall|j: int| 0 <= j < i ==> (#[trigger] params[j]).name != name
}

/// The index of the first parameter with the name `name`, if there is one.
pub open spec fn position(params: Seq<SpecArg>, name: Seq<char>) -> Option<int> {
    if exists|i: int| first_named(params, name, i) {
        Some(choose|i: int| first_named(params, name, i))
    } else {
        None
    }
}

/// The positional arguments, filled up with absent values to `n` slots.
pub open spec fn pad(args: Seq<SpecVariable>, n: int) -> Seq<SpecVariable> {
    Seq::new(
        n as nat,
        |i: int|
            if i < args.len() {
                args[i]
            } else {
                SpecVariable::Absent
            },
    )
}

/// The failure for a keyword argument that names no parameter.
pub open spec fn undefined_argument(
    command: Seq<char>,
    name: Seq<char>,
    value: SpecVariable,
) -> SpecError {
    SpecError::Cmd {
        command,
        details: SpecCommandErrors::UndefinedArgument {
            argument_name: name,
            argument_type: value.get_type(),
        },
    }
}

/// The slots after the keyword arguments have been laid over them, one after
/// the other: each goes to the slot of the first parameter of its name and
/// replaces what was there. The first one that names no parameter stops it.
pub open spec fn overlay(
    cmd: SpecCommand,
    slots: Seq<SpecVariable>,
    kwargs: Seq<(Seq<char>, SpecVariable)>,
) -> Result<Seq<SpecVariable>, SpecError>
    decreases kwargs.len(),
{
    if kwargs.len() == 0 {
        Ok(slots)
    } else {
        match overlay(cmd, slots, kwargs.drop_last()) {
            Err(e) => Err(e),
            Ok(before) => match position(cmd.args, kwargs.last().0) {
                None => Err(undefined_argument(cmd.name, kwargs.last().0, kwargs.last().1)),
                Some(p) => Ok(before.update(p, kwargs.last().1)),
            },
        }
    }
}

/// Whether an optional parameter stands before the one at `i`.
pub open spec fn seen_optional(params: Seq<SpecArg>, i: int) -> bool {
    exists|j: int| 0 <= j < i && !(#[trigger] params[j]).required
}

/// What becomes of the value in one slot.
///
/// A required parameter without a value is missing, unless an optional one
/// stands before it. A value is taken as it is where the parameter takes any
/// type and the value is no variable reference, and where the types agree. A
/// variable reference is replaced by the variable's value. An absent value
/// becomes the unresolved label for a label parameter, and stays absent for
/// an optional one. Anything else has the wrong type.
pub open spec fn resolve_slot(
    command: Seq<char>,
    param: SpecArg,
    actual: SpecVariable,
    seen_optional: bool,
    info: SpecInfo,
) -> Result<SpecVariable, SpecError> {
    if !seen_optional && actual is Absent && param.required {
        Err(
            SpecError::Cmd {
                command,
                details: SpecCommandErrors::MissingRequiredArgument {
                    argument_name: param.name,
                    argument_type: param.type_,
                },
            },
        )
    } else if param.type_ == ASType::Any && !(actual is VarRef) {
        Ok(actual)
    } else if param.type_ == actual.get_type() {
        Ok(actual)
    } else if actual is VarRef {
        info.get_var(actual->VarRef_0)
    } else if actual is Absent && param.type_ == ASType::Label {
        Ok(SpecVariable::Label(None))
    } else if actual is Absent && !param.required {
        Ok(actual)
    } else {
        Err(
            SpecError::Cmd {
                command,
                details: SpecCommandErrors::ArgumentTypeError {
                    argument_name: param.name,
                    required_type: param.type_,
                    given_type: actual.get_type(),
                },
            },
        )
    }
}

/// What becomes of the value in slot `i` of the command.
pub open spec fn slot_result(
    cmd: SpecCommand,
    info: SpecInfo,
    slots: Seq<SpecVariable>,
    i: int,
) -> Result<SpecVariable, SpecError> {
    resolve_slot(cmd.name, cmd.args[i], slots[i], seen_optional(cmd.args, i), info)
}

/// Whether slot `i` is the first that fails.
pub open spec fn first_failure(
    cmd: SpecCommand,
    info: SpecInfo,
    slots: Seq<SpecVariable>,
    i: int,
) -> bool {
    &&& 0 <= i < slots.len()
    &&& slot_result(cmd, info, slots, i) is Err
    &&& forall|j: int| 0 <= j < i ==> slot_result(cmd, info, slots, j) is Ok
}

/// The slots resolved in parameter order: the failure of the first slot that
/// fails, or else every slot's value.
pub open spec fn resolve_all(cmd: SpecCommand, info: SpecInfo, slots: Seq<SpecVariable>) -> Result<
    Seq<SpecVariable>,
    SpecError,
> {
    if exists|i: int| first_failure(cmd, info, slots, i) {
        Err(slot_result(cmd, info, slots, choose|i: int| first_failure(cmd, info, slots, i))->Err_0)
    } else {
        Ok(Seq::new(slots.len(), |i: int| slot_result(cmd, info, slots, i)->Ok_0))
    }
}

/// The failure for more positional arguments than parameters.
pub open spec fn too_many_arguments(cmd: SpecCommand, given: nat) -> SpecError {
    SpecError::Cmd {
        command: cmd.name,
        details: SpecCommandErrors::TooManyArguments {
            max_args: cmd.args.len() as usize,
            given_args: given as usize,
        },
    }
}

/// What binding gives: one value per parameter, in parameter order, or the
/// one failure that stopped it.
pub open spec fn bind_spec(
    cmd: SpecCommand,
    info: SpecInfo,
    args: Seq<SpecVariable>,
    kwargs: Seq<(Seq<char>, SpecVariable)>,
) -> Result<Seq<SpecVariable>, SpecError> {
    if args.len() > cmd.args.len() {
        Err(too_many_arguments(cmd, args.len()))
    } else {
        match overlay(cmd, pad(args, cmd.args.len() as int), kwargs) {
            Err(e) => Err(e),
            Ok(slots) => resolve_all(cmd, info, slots),
        }
    }
}

/// The first parameter of a name is the one that `position` gives.
pub proof fn lemma_position_is(params: Seq<SpecArg>, name: Seq<char>, i: int)
    requires
        first_named(params, name, i),
    ensures
        position(params, name) == Some(i),
{
    let k = choose|k: int| first_named(params, name, k);
    assert(first_named(params, name, k));
    if k < i {
        assert(params[k].name != name);
    }
    if i < k {
        assert(params[i].name != name);
    }
}

/// Where no parameter has the name, `position` gives nothing.
pub proof fn lemma_position_none(params: Seq<SpecArg>, name: Seq<char>)
    requires
        forall|j: int| 0 <= j < params.len() ==> (#[trigger] params[j]).name != name,
    ensures
        position(params, name) is None,
{
    if exists|i: int| first_named(params, name, i) {
        let i = choose|i: int| first_named(params, name, i);
        assert(params[i].name != name);
    }
}

/// What `position` gives is within the list and has the name.
pub proof fn lemma_position_in_range(params: Seq<SpecArg>, name: Seq<char>)
    ensures
        match position(params, name) {
            Some(p) => first_named(params, name, p),
            None => forall|j: int| 0 <= j < params.len() ==> (#[trigger] params[j]).name != name,
        },
{
    if exists|i: int| first_named(params, name, i) {
    } else {
        assert forall|j: int| 0 <= j < params.len() implies (#[trigger] params[j]).name
            != name by {
            if params[j].name == name {
                lemma_some_first_named(params, name, j);
            }
        }
    }
}

/// Where some parameter up to `j` has the name, one of them is the first.
pub proof fn lemma_some_first_named(params: Seq<SpecArg>, name: Seq<char>, j: int)
    requires
        0 <= j < params.len(),
        params[j].name == name,
    ensures
        exists|i: int| first_named(params, name, i),
    decreases j,
{
    if forall|k: int| 0 <= k < j ==> (#[trigger] params[k]).name != name {
        assert(first_named(params, name, j));
    } else {
        let k = choose|k: int| 0 <= k < j && (#[trigger] params[k]).name == name;
        lemma_some_first_named(params, name, k);
    }
}

/// The first failing slot is the one whose failure `resolve_all` gives.
pub proof fn lemma_first_failure_is(
    cmd: SpecCommand,
    info: SpecInfo,
    slots: Seq<SpecVariable>,
    i: int,
)
    requires
        first_failure(cmd, info, slots, i),
    ensures
        resolve_all(cmd, info, slots) == Err::<Seq<SpecVariable>, SpecError>(
            slot_result(cmd, info, slots, i)->Err_0,
        ),
{
    let k = choose|k: int| first_failure(cmd, info, slots, k);
    assert(first_failure(cmd, info, slots, k));
    if k < i {
        assert(slot_result(cmd, info, slots, k) is Ok);
    }
    if i < k {
        assert(slot_result(cmd, info, slots, i) is Ok);
    }
}

impl Command {
    /// The index of the first declared parameter with the name `name`.
    fn position(&self, name: &str) -> (at: Option<usize>)
        ensures
            match at {
                Some(p) => position(self@.args, name@) == Some(p as int) && p < self@.args.len(),
                None => position(self@.args, name@) is None,
            },
    {
        let params = self.args();
        let mut i: usize = 0;
        while i < params.len()
            invariant
                i <= params.len(),
                params.deep_view() == self@.args,
                forall|j: int| 0 <= j < i ==> (#[trigger] self@.args[j]).name != name@,
            decreases params.len() - i,
        {
            assert(params.deep_view()[i as int] == params@[i as int]@);
            if str_eq(params[i].name.as_str(), name) {
                proof {
                    lemma_position_is(self@.args, name@, i as int);
                }
                return Some(i);
            }
            i += 1;
        }
        proof {
            lemma_position_none(self@.args, name@);
        }
        None
    }

    /// The failure of this command with the given details.
    fn failure(&self, details: CommandErrors) -> (e: ASError)
        ensures
            e@ == (SpecError::Cmd { command: self@.name, details: details@ }),
    {
        ASError::Cmd(ASCmdError { command: self.name().to_owned(), details })
    }

    /// Resolves the value of one slot. Gives the value that replaces it, or
    /// nothing where the value stays as it is.
    fn resolve(
        &self,
        info: &GameInfo,
        param: &CommandArg,
        actual: &ASVariable,
        seen: bool,
    ) -> (out: Result<Option<ASVariable>, ASError>)
        ensures
            match out {
                Ok(Some(v)) => resolve_slot(self@.name, param@, actual@, seen, info@) == Ok::<
                    SpecVariable,
                    SpecError,
                >(v@),
                Ok(None) => resolve_slot(self@.name, param@, actual@, seen, info@) == Ok::<
                    SpecVariable,
                    SpecError,
                >(actual@),
                Err(e) => resolve_slot(self@.name, param@, actual@, seen, info@) == Err::<
                    SpecVariable,
                    SpecError,
                >(e@),
            },
    {
        let given = actual.get_type();
        if !seen && given == ASType::Absent && param.required {
            return Err(
                self.failure(
                    CommandErrors::MissingRequiredArgument {
                        argument_name: param.name.clone(),
                        argument_type: param.type_,
                    },
                ),
            );
        }
        if (param.type_ == ASType::Any && given != ASType::VarRef) || param.type_ == given {
            return Ok(None);
        }
        match actual {
            ASVariable::VarRef(var) => {
                match info.get_var(var.as_str()) {
                    Ok(value) => Ok(Some(value.clone())),
                    Err(e) => Err(e),
                }
            },
            ASVariable::Absent => {
                if param.type_ == ASType::Label {
                    Ok(Some(ASVariable::Label(None)))
                } else if !param.required {
                    Ok(None)
                } else {
                    Err(
                        self.failure(
                            CommandErrors::ArgumentTypeError {
                                argument_name: param.name.clone(),
                                required_type: param.type_,
                                given_type: given,
                            },
                        ),
                    )
                }
            },
            _ => Err(
                self.failure(
                    CommandErrors::ArgumentTypeError {
                        argument_name: param.name.clone(),
                        required_type: param.type_,
                        given_type: given,
                    },
                ),
            ),
        }
    }

    /// Binds the arguments of a call to the declared parameters.
    ///
    /// Gives one value per parameter, in parameter order, or the failure that
    /// stopped the binding. The state is only read.
    pub fn bind(
        &self,
        info: &GameInfo,
        args: Vec<ASVariable>,
        kwargs: Vec<(String, ASVariable)>,
    ) -> (bound: Result<Vec<ASVariable>, ASError>)
        ensures
            match bound {
                Ok(values) => bind_spec(self@, info@, args.deep_view(), kwargs.deep_view()) == Ok::<
                    Seq<SpecVariable>,
                    SpecError,
                >(values.deep_view()),
                Err(e) => bind_spec(self@, info@, args.deep_view(), kwargs.deep_view()) == Err::<
                    Seq<SpecVariable>,
                    SpecError,
                >(e@),
            },
    {
        let params = self.args();
        let n: usize = params.len();
        let ghost cmd = self@;
        let ghost given = args.deep_view();
        let ghost named = kwargs.deep_view();
        if args.len() > n {
            return Err(
                self.failure(
                    CommandErrors::TooManyArguments { max_args: n, given_args: args.len() },
                ),
            );
        }
        // One slot per parameter.
        let mut slots = args;
        while slots.len() < n
            invariant
                slots@.len() <= n,
                given.len() <= slots@.len(),
                forall|i: int| 0 <= i < slots@.len() ==> slots@[i]@ == pad(given, n as int)[i],
            decreases n - slots@.len(),
        {
            slots.push(ASVariable::Absent);
        }
        assert(slots.deep_view() =~= pad(given, n as int));
        // Keyword arguments go to the slot of their parameter.
        let mut k: usize = 0;
        while k < kwargs.len()
            invariant
                k <= kwargs.len(),
                cmd == self@,
                named == kwargs.deep_view(),
                slots@.len() == n,
                n == cmd.args.len(),
                given.len() <= n,
                given == args.deep_view(),
                overlay(cmd, pad(given, n as int), named.take(k as int)) == Ok::<
                    Seq<SpecVariable>,
                    SpecError,
                >(slots.deep_view()),
            decreases kwargs.len() - k,
        {
            let entry = &kwargs[k];
            let ghost upto = named.take(k as int + 1);
            proof {
                assert(upto.drop_last() =~= named.take(k as int));
                assert(upto.last() == named[k as int]);
                assert(named[k as int] == (entry.0@, entry.1@));
            }
            match self.position(entry.0.as_str()) {
                None => {
                    let e = self.failure(
                        CommandErrors::UndefinedArgument {
                            argument_name: entry.0.clone(),
                            argument_type: entry.1.get_type(),
                        },
                    );
                    proof {
                        lemma_overlay_stops(cmd, pad(given, n as int), named, k as int + 1);
                    }
                    return Err(e);
                },
                Some(p) => {
                    let ghost before = slots.deep_view();
                    slots.set(p, entry.1.clone());
                    assert(slots.deep_view() =~= before.update(p as int, entry.1@));
                },
            }
            k += 1;
        }
        assert(named.take(kwargs.len() as int) =~= named);
        let ghost laid = slots.deep_view();
        // Each slot is checked against its parameter, in order.
        let mut seen = false;
        let mut c: usize = 0;
        while c < n
            invariant
                c <= n,
                cmd == self@,
                params.deep_view() == cmd.args,
                params@.len() == n,
                slots@.len() == n,
                laid.len() == n,
                n == cmd.args.len(),
                given.len() <= n,
                given == args.deep_view(),
                named == kwargs.deep_view(),
                overlay(cmd, pad(given, n as int), named) == Ok::<Seq<SpecVariable>, SpecError>(
                    laid,
                ),
                seen == seen_optional(cmd.args, c as int),
                forall|j: int|
                    0 <= j < c ==> #[trigger] slot_result(cmd, info@, laid, j) == Ok::<
                        SpecVariable,
                        SpecError,
                    >(slots@[j]@),
                forall|j: int| c <= j < n ==> (#[trigger] slots@[j])@ == laid[j],
            decreases n - c,
        {
            let param = &params[c];
            assert(param@ == cmd.args[c as int]) by {
                assert(params.deep_view()[c as int] == params@[c as int]@);
            }
            match self.resolve(info, param, &slots[c], seen) {
                Err(e) => {
                    proof {
                        assert(first_failure(cmd, info@, laid, c as int));
                        lemma_first_failure_is(cmd, info@, laid, c as int);
                    }
                    return Err(e);
                },
                Ok(Some(value)) => {
                    slots.set(c, value);
                },
                Ok(None) => {},
            }
            proof {
                if !param.required {
                    assert(!cmd.args[c as int].required);
                } else if seen {
                } else {
                    assert forall|j: int| 0 <= j < c + 1 implies (
                    #[trigger] cmd.args[j]).required by {
                        if j < c {
                            assert(!seen_optional(cmd.args, c as int));
                        }
                    }
                }
            }
            if !param.required {
                seen = true;
            }
            c += 1;
        }
        proof {
            assert(!exists|i: int| first_failure(cmd, info@, laid, i));
            assert(slots.deep_view() =~= Seq::new(
                laid.len(),
                |i: int| slot_result(cmd, info@, laid, i)->Ok_0,
            ));
        }
        Ok(slots)
    }
}

/// What a call of a command gives: the failure of the binding, or what the
/// entry point asks of the host together with the state it leaves.
pub open spec fn run_spec(
    cmd: SpecCommand,
    info: SpecInfo,
    args: Seq<SpecVariable>,
    kwargs: Seq<(Seq<char>, SpecVariable)>,
) -> Result<(SpecRequest, SpecInfo), SpecError> {
    match bind_spec(cmd, info, args, kwargs) {
        Err(e) => Err(e),
        Ok(values) => Ok(invoke_spec(cmd.func, info, values)),
    }
}

impl Command {
    /// Calls the command: binds the arguments, then runs the entry point on
    /// the bound values. Where the binding fails, nothing has run and the
    /// state is as it was.
    pub fn run(
        &self,
        info: &mut GameInfo,
        args: Vec<ASVariable>,
        kwargs: Vec<(String, ASVariable)>,
    ) -> (done: Result<IoRequest, ASError>)
        ensures
            match done {
                Ok(request) => run_spec(
                    self@,
                    old(info)@,
                    args.deep_view(),
                    kwargs.deep_view(),
                ) == Ok::<(SpecRequest, SpecInfo), SpecError>((request@, final(info)@)),
                Err(e) => run_spec(
                    self@,
                    old(info)@,
                    args.deep_view(),
                    kwargs.deep_view(),
                ) == Err::<(SpecRequest, SpecInfo), SpecError>(e@) && final(info)@ == old(info)@,
            },
    {
        match self.bind(info, args, kwargs) {
            Err(e) => Err(e),
            Ok(values) => Ok(invoke(self.func(), info, values)),
        }
    }
}

/// Once a keyword argument has stopped the overlay, the later ones change nothing.
pub proof fn lemma_overlay_stops(
    cmd: SpecCommand,
    slots: Seq<SpecVariable>,
    kwargs: Seq<(Seq<char>, SpecVariable)>,
    upto: int,
)
    requires
        0 <= upto <= kwargs.len(),
        overlay(cmd, slots, kwargs.take(upto)) is Err,
    ensures
        overlay(cmd, slots, kwargs) == overlay(cmd, slots, kwargs.take(upto)),
    decreases kwargs.len() - upto,
{
    if upto == kwargs.len() {
        assert(kwargs.take(upto) =~= kwargs);
    } else {
        let next = kwargs.take(upto + 1);
        assert(next.drop_last() =~= kwargs.take(upto));
        lemma_overlay_stops(cmd, slots, kwargs, upto + 1);
    }
}

} // verus!

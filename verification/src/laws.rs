//! What holds of binding, of the built-in commands and of name resolution,
//! for all inputs.

use crate::binder::{
    bind_spec, first_failure, lemma_first_failure_is, lemma_overlay_stops,
    lemma_position_in_range, lemma_position_is, overlay, pad, position, resolve_slot, run_spec,
    seen_optional, slot_result, undefined_argument,
};
use crate::commands::{args_wf, SpecArg, SpecCommand};
use crate::definitions::{ending_command, ending_text, goto_command};
use crate::error::{SpecCommandErrors, SpecError};
use crate::info::SpecInfo;
use crate::io::{complete_spec, reply_fits, IoReply, SpecRequest};
use crate::registry::{get_spec, lookup_spec, SpecCmdSet};
use crate::text::{command_part, lemma_first_dot_is, module_part};
use crate::variables::{ASType, SpecVariable};
use vstd::prelude::*;

verus! {

/// Whether every keyword argument names a parameter of the command.
pub open spec fn all_known(cmd: SpecCommand, kwargs: Seq<(Seq<char>, SpecVariable)>) -> bool {
    forall|k: int| 0 <= k < kwargs.len() ==> position(cmd.args, (#[trigger] kwargs[k]).0) is Some
}

/// Whether `k` is the first keyword argument that names no parameter.
pub open spec fn first_unknown(
    cmd: SpecCommand,
    kwargs: Seq<(Seq<char>, SpecVariable)>,
    k: int,
) -> bool {
    &&& 0 <= k < kwargs.len()
    &&& position(cmd.args, kwargs[k].0) is None
    &&& forall|j: int| 0 <= j < k ==> position(cmd.args, (#[trigger] kwargs[j]).0) is Some
}

/// Whether some keyword argument goes to slot `i`.
pub open spec fn named_slot(
    cmd: SpecCommand,
    kwargs: Seq<(Seq<char>, SpecVariable)>,
    i: int,
) -> bool {
    exists|k: int| 0 <= k < kwargs.len() && position(cmd.args, (#[trigger] kwargs[k]).0) == Some(i)
}

/// Whether `k` is the last keyword argument that goes to slot `i`.
pub open spec fn last_for_slot(
    cmd: SpecCommand,
    kwargs: Seq<(Seq<char>, SpecVariable)>,
    i: int,
    k: int,
) -> bool {
    &&& 0 <= k < kwargs.len()
    &&& position(cmd.args, kwargs[k].0) == Some(i)
    &&& forall|j: int|
        k < j < kwargs.len() ==> position(cmd.args, (#[trigger] kwargs[j]).0) != Some(i)
}

/// What slot `i` holds once the keyword arguments have been laid over
/// `slots`: the value of the last keyword argument that goes to it, and what
/// it held before where none does.
pub open spec fn laid_slot(
    cmd: SpecCommand,
    slots: Seq<SpecVariable>,
    kwargs: Seq<(Seq<char>, SpecVariable)>,
    i: int,
) -> SpecVariable {
    if named_slot(cmd, kwargs, i) {
        kwargs[choose|k: int| last_for_slot(cmd, kwargs, i, k)].1
    } else {
        slots[i]
    }
}

/// The value that a call gives to the parameter at `i`: that of the last
/// keyword argument with the parameter's name, or else the positional
/// argument at `i`, or else the absent value.
pub open spec fn given_slot(
    cmd: SpecCommand,
    args: Seq<SpecVariable>,
    kwargs: Seq<(Seq<char>, SpecVariable)>,
    i: int,
) -> SpecVariable {
    laid_slot(cmd, pad(args, cmd.args.len() as int), kwargs, i)
}

/// What becomes of the value that a call gives to the parameter at `i`.
pub open spec fn outcome(
    cmd: SpecCommand,
    info: SpecInfo,
    args: Seq<SpecVariable>,
    kwargs: Seq<(Seq<char>, SpecVariable)>,
    i: int,
) -> Result<SpecVariable, SpecError> {
    resolve_slot(
        cmd.name,
        cmd.args[i],
        given_slot(cmd, args, kwargs, i),
        seen_optional(cmd.args, i),
        info,
    )
}

/// Whether the parameter at `i` is the first whose value fails.
pub open spec fn first_failing(
    cmd: SpecCommand,
    info: SpecInfo,
    args: Seq<SpecVariable>,
    kwargs: Seq<(Seq<char>, SpecVariable)>,
    i: int,
) -> bool {
    &&& 0 <= i < cmd.args.len()
    &&& outcome(cmd, info, args, kwargs, i) is Err
    &&& forall|j: int| 0 <= j < i ==> outcome(cmd, info, args, kwargs, j) is Ok
}

/// Whether a value can stand for a parameter as it is: it has the declared
/// type, or the parameter takes any type and the value is neither absent nor
/// a variable reference.
pub open spec fn fits(param: SpecArg, value: SpecVariable) -> bool {
    ||| value.get_type() == param.type_
    ||| param.type_ == ASType::Any && !(value is VarRef) && !(value is Absent)
}

/// What an optional parameter without a value is bound to: the unresolved
/// label for a label parameter, and the absent value otherwise.
pub open spec fn unset_value(param: SpecArg) -> SpecVariable {
    if param.type_ == ASType::Label {
        SpecVariable::Label(None)
    } else {
        SpecVariable::Absent
    }
}

/// In a well-formed parameter list no optional parameter stands before a
/// required one, so the check for a missing value is never switched off for
/// a required parameter.
pub proof fn lemma_required_never_suppressed(params: Seq<SpecArg>, i: int)
    requires
        args_wf(params),
        0 <= i < params.len(),
        params[i].required,
    ensures
        !seen_optional(params, i),
{
    if seen_optional(params, i) {
        let j = choose|j: int| 0 <= j < i && !(#[trigger] params[j]).required;
        assert(!params[i].required);
    }
}

/// Once an optional parameter has been seen, a required parameter without a
/// value is no longer reported as missing. The absent value is then taken by
/// a parameter of any type, becomes the unresolved label for a label
/// parameter, and has the wrong type for every other parameter.
pub proof fn lemma_absent_after_optional(command: Seq<char>, param: SpecArg, info: SpecInfo)
    requires
        param.required,
        param.type_ != ASType::Absent,
    ensures
        resolve_slot(command, param, SpecVariable::Absent, true, info) == (if param.type_
            == ASType::Any {
            Ok::<SpecVariable, SpecError>(SpecVariable::Absent)
        } else if param.type_ == ASType::Label {
            Ok::<SpecVariable, SpecError>(SpecVariable::Label(None))
        } else {
            Err::<SpecVariable, SpecError>(
                SpecError::Cmd {
                    command,
                    details: SpecCommandErrors::ArgumentTypeError {
                        argument_name: param.name,
                        required_type: param.type_,
                        given_type: ASType::Absent,
                    },
                },
            )
        }),
        resolve_slot(command, param, SpecVariable::Absent, false, info) == Err::<
            SpecVariable,
            SpecError,
        >(
            SpecError::Cmd {
                command,
                details: SpecCommandErrors::MissingRequiredArgument {
                    argument_name: param.name,
                    argument_type: param.type_,
                },
            },
        ),
{
}

/// Where a keyword argument goes to slot `i`, one of them is the last.
pub proof fn lemma_some_last_for_slot(
    cmd: SpecCommand,
    kwargs: Seq<(Seq<char>, SpecVariable)>,
    i: int,
)
    requires
        named_slot(cmd, kwargs, i),
    ensures
        last_for_slot(cmd, kwargs, i, choose|k: int| last_for_slot(cmd, kwargs, i, k)),
    decreases kwargs.len(),
{
    let any = choose|k: int|
        0 <= k < kwargs.len() && position(cmd.args, (#[trigger] kwargs[k]).0) == Some(i);
    let end = kwargs.len() - 1;
    if position(cmd.args, kwargs[end].0) == Some(i) {
        assert(last_for_slot(cmd, kwargs, i, end));
    } else {
        let front = kwargs.drop_last();
        assert(front[any] == kwargs[any]);
        lemma_some_last_for_slot(cmd, front, i);
        let k = choose|k: int| last_for_slot(cmd, front, i, k);
        assert(front[k] == kwargs[k]);
        assert forall|j: int| k < j < kwargs.len() implies position(
            cmd.args,
            (#[trigger] kwargs[j]).0,
        ) != Some(i) by {
            if j < front.len() {
                assert(front[j] == kwargs[j]);
            }
        }
        assert(last_for_slot(cmd, kwargs, i, k));
    }
}

/// The last keyword argument that goes to slot `i` is the one whose value
/// the slot holds.
pub proof fn lemma_last_for_slot_is(
    cmd: SpecCommand,
    kwargs: Seq<(Seq<char>, SpecVariable)>,
    i: int,
    k: int,
)
    requires
        last_for_slot(cmd, kwargs, i, k),
    ensures
        named_slot(cmd, kwargs, i),
        (choose|k: int| last_for_slot(cmd, kwargs, i, k)) == k,
{
    let c = choose|c: int| last_for_slot(cmd, kwargs, i, c);
    assert(last_for_slot(cmd, kwargs, i, c));
    if c < k {
        assert(position(cmd.args, kwargs[k].0) != Some(i));
    }
    if k < c {
        assert(position(cmd.args, kwargs[c].0) != Some(i));
    }
}

/// Keyword arguments that all name parameters are laid over the slots without
/// failure. Each slot then holds the value of the last keyword argument that
/// goes to it, and what it held before where none does.
pub proof fn lemma_overlay_known(
    cmd: SpecCommand,
    slots: Seq<SpecVariable>,
    kwargs: Seq<(Seq<char>, SpecVariable)>,
)
    requires
        slots.len() == cmd.args.len(),
        all_known(cmd, kwargs),
    ensures
        overlay(cmd, slots, kwargs) == Ok::<Seq<SpecVariable>, SpecError>(
            Seq::new(slots.len(), |i: int| laid_slot(cmd, slots, kwargs, i)),
        ),
    decreases kwargs.len(),
{
    let want = Seq::new(slots.len(), |i: int| laid_slot(cmd, slots, kwargs, i));
    if kwargs.len() == 0 {
        assert(want =~= slots);
    } else {
        let front = kwargs.drop_last();
        let last = kwargs.last();
        assert forall|k: int| 0 <= k < front.len() implies position(
            cmd.args,
            (#[trigger] front[k]).0,
        ) is Some by {
            assert(front[k] == kwargs[k]);
        }
        lemma_overlay_known(cmd, slots, front);
        let before = Seq::new(slots.len(), |i: int| laid_slot(cmd, slots, front, i));
        assert(kwargs[kwargs.len() - 1] == last);
        lemma_position_in_range(cmd.args, last.0);
        let p = position(cmd.args, last.0)->Some_0;
        let after = before.update(p, last.1);
        assert forall|i: int| 0 <= i < slots.len() implies after[i] == want[i] by {
            if i == p {
                assert(last_for_slot(cmd, kwargs, i, kwargs.len() - 1));
                lemma_last_for_slot_is(cmd, kwargs, i, kwargs.len() - 1);
            } else if named_slot(cmd, front, i) {
                let k = choose|k: int| last_for_slot(cmd, front, i, k);
                lemma_some_last_for_slot(cmd, front, i);
                assert(front[k] == kwargs[k]);
                assert forall|j: int| k < j < kwargs.len() implies position(
                    cmd.args,
                    (#[trigger] kwargs[j]).0,
                ) != Some(i) by {
                    if j < front.len() {
                        assert(front[j] == kwargs[j]);
                    }
                }
                assert(last_for_slot(cmd, kwargs, i, k));
                lemma_last_for_slot_is(cmd, kwargs, i, k);
            } else {
                if named_slot(cmd, kwargs, i) {
                    let k = choose|k: int|
                        0 <= k < kwargs.len() && position(cmd.args, (#[trigger] kwargs[k]).0)
                            == Some(i);
                    assert(k < front.len());
                    assert(front[k] == kwargs[k]);
                }
            }
        }
        assert(after =~= want);
    }
}

/// Where some keyword argument names no parameter, one of them is the first.
pub proof fn lemma_some_first_unknown(
    cmd: SpecCommand,
    kwargs: Seq<(Seq<char>, SpecVariable)>,
    k: int,
)
    requires
        0 <= k < kwargs.len(),
        position(cmd.args, kwargs[k].0) is None,
    ensures
        exists|j: int| first_unknown(cmd, kwargs, j),
    decreases k,
{
    if forall|j: int| 0 <= j < k ==> position(cmd.args, (#[trigger] kwargs[j]).0) is Some {
        assert(first_unknown(cmd, kwargs, k));
    } else {
        let j = choose|j: int| 0 <= j < k && position(cmd.args, (#[trigger] kwargs[j]).0) is None;
        lemma_some_first_unknown(cmd, kwargs, j);
    }
}

/// Where the value of some parameter fails, one of them is the first.
pub proof fn lemma_some_first_failing(
    cmd: SpecCommand,
    info: SpecInfo,
    args: Seq<SpecVariable>,
    kwargs: Seq<(Seq<char>, SpecVariable)>,
    i: int,
)
    requires
        0 <= i < cmd.args.len(),
        outcome(cmd, info, args, kwargs, i) is Err,
    ensures
        exists|j: int| first_failing(cmd, info, args, kwargs, j),
    decreases i,
{
    if forall|j: int| 0 <= j < i ==> outcome(cmd, info, args, kwargs, j) is Ok {
        assert(first_failing(cmd, info, args, kwargs, i));
    } else {
        let j = choose|j: int| 0 <= j < i && !(outcome(cmd, info, args, kwargs, j) is Ok);
        lemma_some_first_failing(cmd, info, args, kwargs, j);
    }
}

/// More positional arguments than the command has parameters are refused,
/// with the number of parameters and the number given, whatever else the
/// call holds.
pub proof fn lemma_too_many_arguments(
    cmd: SpecCommand,
    info: SpecInfo,
    args: Seq<SpecVariable>,
    kwargs: Seq<(Seq<char>, SpecVariable)>,
)
    requires
        args.len() > cmd.args.len(),
        args.len() <= usize::MAX,
    ensures
        bind_spec(cmd, info, args, kwargs) == Err::<Seq<SpecVariable>, SpecError>(
            SpecError::Cmd {
                command: cmd.name,
                details: SpecCommandErrors::TooManyArguments {
                    max_args: cmd.args.len() as usize,
                    given_args: args.len() as usize,
                },
            },
        ),
        cmd.args.len() as usize == cmd.args.len(),
        args.len() as usize == args.len(),
{
}

/// A keyword argument that names no parameter is refused: binding fails for
/// the first such argument, with its name and the type of its value.
pub proof fn lemma_unknown_keyword(
    cmd: SpecCommand,
    info: SpecInfo,
    args: Seq<SpecVariable>,
    kwargs: Seq<(Seq<char>, SpecVariable)>,
    k: int,
)
    requires
        args.len() <= cmd.args.len(),
        first_unknown(cmd, kwargs, k),
    ensures
        bind_spec(cmd, info, args, kwargs) == Err::<Seq<SpecVariable>, SpecError>(
            SpecError::Cmd {
                command: cmd.name,
                details: SpecCommandErrors::UndefinedArgument {
                    argument_name: kwargs[k].0,
                    argument_type: kwargs[k].1.get_type(),
                },
            },
        ),
{
    let slots = pad(args, cmd.args.len() as int);
    let front = kwargs.take(k);
    assert forall|j: int| 0 <= j < front.len() implies position(
        cmd.args,
        (#[trigger] front[j]).0,
    ) is Some by {
        assert(front[j] == kwargs[j]);
    }
    lemma_overlay_known(cmd, slots, front);
    let upto = kwargs.take(k + 1);
    assert(upto.drop_last() =~= front);
    assert(upto.last() == kwargs[k]);
    assert(overlay(cmd, slots, upto) == Err::<Seq<SpecVariable>, SpecError>(
        undefined_argument(cmd.name, kwargs[k].0, kwargs[k].1),
    ));
    lemma_overlay_stops(cmd, slots, kwargs, k + 1);
}

/// Binding fails with the failure of the first parameter whose value fails,
/// where no more positional arguments are given than the command has
/// parameters and every keyword argument names one.
pub proof fn lemma_bind_fails_at(
    cmd: SpecCommand,
    info: SpecInfo,
    args: Seq<SpecVariable>,
    kwargs: Seq<(Seq<char>, SpecVariable)>,
    i: int,
)
    requires
        args.len() <= cmd.args.len(),
        all_known(cmd, kwargs),
        first_failing(cmd, info, args, kwargs, i),
    ensures
        bind_spec(cmd, info, args, kwargs) == Err::<Seq<SpecVariable>, SpecError>(
            outcome(cmd, info, args, kwargs, i)->Err_0,
        ),
{
    let padded = pad(args, cmd.args.len() as int);
    lemma_overlay_known(cmd, padded, kwargs);
    let slots = overlay(cmd, padded, kwargs)->Ok_0;
    assert forall|j: int| 0 <= j < cmd.args.len() implies slot_result(cmd, info, slots, j)
        == outcome(cmd, info, args, kwargs, j) by {
        assert(slots[j] == given_slot(cmd, args, kwargs, j));
    }
    assert(first_failure(cmd, info, slots, i));
    lemma_first_failure_is(cmd, info, slots, i);
}

/// Binding succeeds exactly if no more positional arguments are given than
/// the command has parameters, every keyword argument names a parameter, and
/// the value of every parameter resolves. The bound values are then what the
/// values resolve to, in parameter order.
pub proof fn lemma_bind_succeeds(
    cmd: SpecCommand,
    info: SpecInfo,
    args: Seq<SpecVariable>,
    kwargs: Seq<(Seq<char>, SpecVariable)>,
)
    ensures
        bind_spec(cmd, info, args, kwargs) is Ok <==> {
            &&& args.len() <= cmd.args.len()
            &&& all_known(cmd, kwargs)
            &&& forall|i: int|
                0 <= i < cmd.args.len() ==> outcome(cmd, info, args, kwargs, i) is Ok
        },
        bind_spec(cmd, info, args, kwargs) is Ok ==> bind_spec(cmd, info, args, kwargs)
            == Ok::<Seq<SpecVariable>, SpecError>(
            Seq::new(cmd.args.len(), |i: int| outcome(cmd, info, args, kwargs, i)->Ok_0),
        ),
{
    let padded = pad(args, cmd.args.len() as int);
    if args.len() > cmd.args.len() {
    } else if !all_known(cmd, kwargs) {
        let k = choose|k: int|
            0 <= k < kwargs.len() && !(position(cmd.args, (#[trigger] kwargs[k]).0) is Some);
        lemma_some_first_unknown(cmd, kwargs, k);
        let f = choose|f: int| first_unknown(cmd, kwargs, f);
        lemma_unknown_keyword(cmd, info, args, kwargs, f);
    } else {
        lemma_overlay_known(cmd, padded, kwargs);
        let slots = overlay(cmd, padded, kwargs)->Ok_0;
        assert forall|j: int| 0 <= j < cmd.args.len() implies slot_result(cmd, info, slots, j)
            == outcome(cmd, info, args, kwargs, j) by {
            assert(slots[j] == given_slot(cmd, args, kwargs, j));
        }
        if exists|i: int| 0 <= i < cmd.args.len() && outcome(cmd, info, args, kwargs, i) is Err {
            let i = choose|i: int|
                0 <= i < cmd.args.len() && outcome(cmd, info, args, kwargs, i) is Err;
            lemma_some_first_failing(cmd, info, args, kwargs, i);
            let f = choose|f: int| first_failing(cmd, info, args, kwargs, f);
            lemma_bind_fails_at(cmd, info, args, kwargs, f);
        } else {
            assert forall|i: int| 0 <= i < cmd.args.len() implies outcome(
                cmd,
                info,
                args,
                kwargs,
                i,
            ) is Ok by {}
            if exists|i: int| first_failure(cmd, info, slots, i) {
                let i = choose|i: int| first_failure(cmd, info, slots, i);
                assert(slot_result(cmd, info, slots, i) == outcome(cmd, info, args, kwargs, i));
            }
            assert(bind_spec(cmd, info, args, kwargs)->Ok_0 =~= Seq::new(
                cmd.args.len(),
                |i: int| outcome(cmd, info, args, kwargs, i)->Ok_0,
            ));
        }
    }
}

/// Binding with exactly the required arguments succeeds.
///
/// The command is well formed, there are no more positional arguments than
/// parameters, and no keyword argument names an unknown parameter. Each
/// required parameter is given, by position or by keyword, a value that fits
/// it, and each optional parameter is given none. Then binding gives one
/// value per parameter: for a required parameter the value that was given,
/// which has the declared type unless the parameter takes any type; for an
/// optional parameter the absent value, or the unresolved label if it is a
/// label parameter.
pub proof fn lemma_bind_exactly_required(
    cmd: SpecCommand,
    info: SpecInfo,
    args: Seq<SpecVariable>,
    kwargs: Seq<(Seq<char>, SpecVariable)>,
)
    requires
        args_wf(cmd.args),
        args.len() <= cmd.args.len(),
        all_known(cmd, kwargs),
        forall|i: int|
            0 <= i < cmd.args.len() ==> if (#[trigger] cmd.args[i]).required {
                fits(cmd.args[i], given_slot(cmd, args, kwargs, i))
            } else {
                given_slot(cmd, args, kwargs, i) is Absent
            },
    ensures
        bind_spec(cmd, info, args, kwargs) == Ok::<Seq<SpecVariable>, SpecError>(
            Seq::new(
                cmd.args.len(),
                |i: int|
                    if cmd.args[i].required {
                        given_slot(cmd, args, kwargs, i)
                    } else {
                        unset_value(cmd.args[i])
                    },
            ),
        ),
        bind_spec(cmd, info, args, kwargs)->Ok_0.len() == cmd.args.len(),
        forall|i: int|
            0 <= i < cmd.args.len() && cmd.args[i].required && cmd.args[i].type_ != ASType::Any
                ==> (#[trigger] bind_spec(cmd, info, args, kwargs)->Ok_0[i]).get_type()
                == cmd.args[i].type_,
        forall|i: int|
            0 <= i < cmd.args.len() && !cmd.args[i].required ==> (#[trigger] bind_spec(
                cmd,
                info,
                args,
                kwargs,
            )->Ok_0[i]) == unset_value(cmd.args[i]),
{
    let want = Seq::new(
        cmd.args.len(),
        |i: int|
            if cmd.args[i].required {
                given_slot(cmd, args, kwargs, i)
            } else {
                unset_value(cmd.args[i])
            },
    );
    assert forall|i: int| 0 <= i < cmd.args.len() implies outcome(cmd, info, args, kwargs, i)
        == Ok::<SpecVariable, SpecError>(want[i]) by {
        assert(cmd.args[i].type_ != ASType::Absent);
        if cmd.args[i].required {
            assert(fits(cmd.args[i], given_slot(cmd, args, kwargs, i)));
        } else {
            assert(given_slot(cmd, args, kwargs, i) is Absent);
        }
    }
    lemma_bind_succeeds(cmd, info, args, kwargs);
    assert(bind_spec(cmd, info, args, kwargs)->Ok_0 =~= want);
}

/// Binding with exactly the required arguments, all given by position,
/// succeeds: the bound values are the given ones, followed by one unset
/// value for each optional parameter.
pub proof fn lemma_bind_required_positionals(
    cmd: SpecCommand,
    info: SpecInfo,
    args: Seq<SpecVariable>,
)
    requires
        args_wf(cmd.args),
        args.len() <= cmd.args.len(),
        forall|i: int|
            0 <= i < cmd.args.len() ==> ((#[trigger] cmd.args[i]).required <==> i < args.len()),
        forall|i: int| 0 <= i < args.len() ==> fits(cmd.args[i], #[trigger] args[i]),
    ensures
        bind_spec(cmd, info, args, Seq::empty()) == Ok::<Seq<SpecVariable>, SpecError>(
            Seq::new(
                cmd.args.len(),
                |i: int|
                    if i < args.len() {
                        args[i]
                    } else {
                        unset_value(cmd.args[i])
                    },
            ),
        ),
{
    let none = Seq::<(Seq<char>, SpecVariable)>::empty();
    let padded = pad(args, cmd.args.len() as int);
    assert forall|i: int| 0 <= i < cmd.args.len() implies given_slot(cmd, args, none, i)
        == padded[i] by {
        assert(!named_slot(cmd, none, i));
    }
    assert forall|i: int| 0 <= i < cmd.args.len() implies if (#[trigger] cmd.args[i]).required {
        fits(cmd.args[i], given_slot(cmd, args, none, i))
    } else {
        given_slot(cmd, args, none, i) is Absent
    } by {
        if cmd.args[i].required {
            assert(padded[i] == args[i]);
        }
    }
    lemma_bind_exactly_required(cmd, info, args, none);
    assert(bind_spec(cmd, info, args, none)->Ok_0 =~= Seq::new(
        cmd.args.len(),
        |i: int|
            if i < args.len() {
                args[i]
            } else {
                unset_value(cmd.args[i])
            },
    ));
}

/// A required parameter that gets no value makes binding fail.
///
/// The command is well formed, the parameter at `i` is required, no
/// positional argument reaches it and no keyword argument goes to it. Then
/// binding fails. Where, besides, no keyword argument is unknown and the
/// value of every parameter before it resolves, the failure is
/// `MissingRequiredArgument` with the parameter's name and declared type.
pub proof fn lemma_missing_required(
    cmd: SpecCommand,
    info: SpecInfo,
    args: Seq<SpecVariable>,
    kwargs: Seq<(Seq<char>, SpecVariable)>,
    i: int,
)
    requires
        args_wf(cmd.args),
        args.len() <= i < cmd.args.len(),
        cmd.args[i].required,
        !named_slot(cmd, kwargs, i),
    ensures
        bind_spec(cmd, info, args, kwargs) is Err,
        all_known(cmd, kwargs) && (forall|j: int|
            0 <= j < i ==> outcome(cmd, info, args, kwargs, j) is Ok) ==> bind_spec(
            cmd,
            info,
            args,
            kwargs,
        ) == Err::<Seq<SpecVariable>, SpecError>(
            SpecError::Cmd {
                command: cmd.name,
                details: SpecCommandErrors::MissingRequiredArgument {
                    argument_name: cmd.args[i].name,
                    argument_type: cmd.args[i].type_,
                },
            },
        ),
{
    lemma_required_never_suppressed(cmd.args, i);
    assert(given_slot(cmd, args, kwargs, i) is Absent);
    assert(outcome(cmd, info, args, kwargs, i) is Err);
    lemma_bind_succeeds(cmd, info, args, kwargs);
    if all_known(cmd, kwargs) && (forall|j: int|
        0 <= j < i ==> outcome(cmd, info, args, kwargs, j) is Ok) {
        assert(first_failing(cmd, info, args, kwargs, i));
        lemma_bind_fails_at(cmd, info, args, kwargs, i);
    }
}

/// A variable reference is replaced by what the variable store gives for its
/// name, whatever the parameter declares, unless the parameter declares a
/// variable reference. Where the store has no such variable, the value fails
/// with the store's own failure.
pub proof fn lemma_var_ref_dereferenced(
    command: Seq<char>,
    param: SpecArg,
    name: Seq<char>,
    seen: bool,
    info: SpecInfo,
)
    requires
        param.type_ != ASType::VarRef,
    ensures
        resolve_slot(command, param, SpecVariable::VarRef(name), seen, info) == info.get_var(name),
        info.variables.contains_key(name) ==> resolve_slot(
            command,
            param,
            SpecVariable::VarRef(name),
            seen,
            info,
        ) == Ok::<SpecVariable, SpecError>(info.variables[name]),
        !info.variables.contains_key(name) ==> resolve_slot(
            command,
            param,
            SpecVariable::VarRef(name),
            seen,
            info,
        ) == Err::<SpecVariable, SpecError>(SpecError::VarNotFound(name)),
{
}

/// A parameter that declares a variable reference takes one as it is.
pub proof fn lemma_var_ref_kept(
    command: Seq<char>,
    param: SpecArg,
    name: Seq<char>,
    seen: bool,
    info: SpecInfo,
)
    requires
        param.type_ == ASType::VarRef,
    ensures
        resolve_slot(command, param, SpecVariable::VarRef(name), seen, info) == Ok::<
            SpecVariable,
            SpecError,
        >(SpecVariable::VarRef(name)),
{
}

/// Binding a variable reference whose variable the store lacks fails with the
/// store's failure, where nothing before it fails.
pub proof fn lemma_unknown_variable(
    cmd: SpecCommand,
    info: SpecInfo,
    args: Seq<SpecVariable>,
    kwargs: Seq<(Seq<char>, SpecVariable)>,
    i: int,
    name: Seq<char>,
)
    requires
        args.len() <= cmd.args.len(),
        all_known(cmd, kwargs),
        0 <= i < cmd.args.len(),
        given_slot(cmd, args, kwargs, i) == SpecVariable::VarRef(name),
        cmd.args[i].type_ != ASType::VarRef,
        !info.variables.contains_key(name),
        forall|j: int| 0 <= j < i ==> outcome(cmd, info, args, kwargs, j) is Ok,
    ensures
        bind_spec(cmd, info, args, kwargs) == Err::<Seq<SpecVariable>, SpecError>(
            SpecError::VarNotFound(name),
        ),
{
    lemma_var_ref_dereferenced(cmd.name, cmd.args[i], name, seen_optional(cmd.args, i), info);
    assert(first_failing(cmd, info, args, kwargs, i));
    lemma_bind_fails_at(cmd, info, args, kwargs, i);
}

/// Binding a variable reference to a variable of the store gives the
/// variable's value, whatever its type.
pub proof fn lemma_known_variable(
    cmd: SpecCommand,
    info: SpecInfo,
    args: Seq<SpecVariable>,
    kwargs: Seq<(Seq<char>, SpecVariable)>,
    i: int,
    name: Seq<char>,
)
    requires
        bind_spec(cmd, info, args, kwargs) is Ok,
        0 <= i < cmd.args.len(),
        given_slot(cmd, args, kwargs, i) == SpecVariable::VarRef(name),
        cmd.args[i].type_ != ASType::VarRef,
    ensures
        info.variables.contains_key(name),
        bind_spec(cmd, info, args, kwargs)->Ok_0[i] == info.variables[name],
{
    lemma_bind_succeeds(cmd, info, args, kwargs);
    lemma_var_ref_dereferenced(cmd.name, cmd.args[i], name, seen_optional(cmd.args, i), info);
    assert(outcome(cmd, info, args, kwargs, i) is Ok);
}

/// What binding leaves in the bound vector: one value per parameter. Where
/// the variable store holds neither absent values nor variable references, a
/// bound value is a variable reference only for a parameter that declares
/// one, and is absent only for an optional parameter.
pub proof fn lemma_bound_vector_complete(
    cmd: SpecCommand,
    info: SpecInfo,
    args: Seq<SpecVariable>,
    kwargs: Seq<(Seq<char>, SpecVariable)>,
    i: int,
)
    requires
        args_wf(cmd.args),
        bind_spec(cmd, info, args, kwargs) is Ok,
        0 <= i < cmd.args.len(),
        forall|name: Seq<char>|
            info.variables.contains_key(name) ==> !((#[trigger] info.variables[name]) is VarRef)
                && !(info.variables[name] is Absent),
    ensures
        bind_spec(cmd, info, args, kwargs)->Ok_0.len() == cmd.args.len(),
        bind_spec(cmd, info, args, kwargs)->Ok_0[i] is VarRef ==> cmd.args[i].type_
            == ASType::VarRef,
        bind_spec(cmd, info, args, kwargs)->Ok_0[i] is Absent ==> !cmd.args[i].required,
{
    lemma_bind_succeeds(cmd, info, args, kwargs);
    assert(outcome(cmd, info, args, kwargs, i) is Ok);
    let bound = bind_spec(cmd, info, args, kwargs)->Ok_0;
    assert(bound[i] == outcome(cmd, info, args, kwargs, i)->Ok_0);
    let given = given_slot(cmd, args, kwargs, i);
    if cmd.args[i].required {
        lemma_required_never_suppressed(cmd.args, i);
    }
    if given is VarRef && cmd.args[i].type_ != ASType::VarRef {
        let name = given->VarRef_0;
        assert(info.variables.contains_key(name));
        assert(bound[i] == info.variables[name]);
    }
}

/// `goto(pos = p)` makes `p` the current instruction, wherever the pointer
/// was, and changes nothing else but the mark that the pointer was assigned.
pub proof fn lemma_goto_sets_pointer(info: SpecInfo, p: i32)
    ensures
        run_spec(goto_command(), info, Seq::empty(), seq![("pos"@, SpecVariable::Int(p))]) == Ok::<
            (SpecRequest, SpecInfo),
            SpecError,
        >((SpecRequest::Nothing, SpecInfo { pointer: p, jumped: true, ..info })),
        run_spec(goto_command(), info, seq![SpecVariable::Int(p)], Seq::empty()) == Ok::<
            (SpecRequest, SpecInfo),
            SpecError,
        >((SpecRequest::Nothing, SpecInfo { pointer: p, jumped: true, ..info })),
{
    let cmd = goto_command();
    let value = SpecVariable::Int(p);
    let kwargs = seq![("pos"@, value)];
    assert(cmd.args[0].name == "pos"@);
    lemma_position_is(cmd.args, "pos"@, 0);
    assert(all_known(cmd, kwargs));
    assert(last_for_slot(cmd, kwargs, 0, 0));
    lemma_last_for_slot_is(cmd, kwargs, 0, 0);
    assert(given_slot(cmd, Seq::empty(), kwargs, 0) == value);
    assert(!seen_optional(cmd.args, 0));
    lemma_bind_succeeds(cmd, info, Seq::empty(), kwargs);
    assert(bind_spec(cmd, info, Seq::empty(), kwargs)->Ok_0[0] == value);

    let args = seq![value];
    let none = Seq::<(Seq<char>, SpecVariable)>::empty();
    assert(!named_slot(cmd, none, 0));
    assert(given_slot(cmd, args, none, 0) == value);
    lemma_bind_succeeds(cmd, info, args, none);
    assert(bind_spec(cmd, info, args, none)->Ok_0[0] == value);
}

/// `ending(name = n)` asks for the ending to be shown and leaves the state
/// as it is; once the host has shown it, the run has ended and the pointer
/// is where it was.
pub proof fn lemma_ending_quits(info: SpecInfo, name: Seq<char>, reply: IoReply)
    ensures
        run_spec(
            ending_command(),
            info,
            Seq::empty(),
            seq![("name"@, SpecVariable::String(name))],
        ) == Ok::<(SpecRequest, SpecInfo), SpecError>(
            (SpecRequest::Ending { text: ending_text(name) }, info),
        ),
        reply_fits(info, SpecRequest::Ending { text: ending_text(name) }, reply),
        complete_spec(info, SpecRequest::Ending { text: ending_text(name) }, reply) == (SpecInfo {
            quitting: true,
            ..info
        }),
{
    let cmd = ending_command();
    let value = SpecVariable::String(name);
    let kwargs = seq![("name"@, value)];
    assert(cmd.args[0].name == "name"@);
    lemma_position_is(cmd.args, "name"@, 0);
    assert(all_known(cmd, kwargs));
    assert(last_for_slot(cmd, kwargs, 0, 0));
    lemma_last_for_slot_is(cmd, kwargs, 0, 0);
    assert(given_slot(cmd, Seq::empty(), kwargs, 0) == value);
    lemma_bind_succeeds(cmd, info, Seq::empty(), kwargs);
    assert(bind_spec(cmd, info, Seq::empty(), kwargs)->Ok_0[0] == value);
}

/// The pick of a choice moves the pointer to the destination of that choice,
/// and the pick 0 moves it one instruction back from where it was. Nothing
/// else changes but the mark that the pointer was assigned.
pub proof fn lemma_pick_moves_pointer(
    info: SpecInfo,
    text: Seq<char>,
    choices: Seq<Seq<char>>,
    gotos: Seq<i32>,
    allow_save: bool,
    pick: i32,
)
    requires
        reply_fits(
            info,
            SpecRequest::Query { text, choices, gotos, allow_save },
            IoReply::Picked(pick),
        ),
    ensures
        0 <= pick <= gotos.len(),
        complete_spec(
            info,
            SpecRequest::Query { text, choices, gotos, allow_save },
            IoReply::Picked(pick),
        ) == (SpecInfo {
            pointer: if pick == 0 {
                (info.pointer - 1) as i32
            } else {
                gotos[pick - 1]
            },
            jumped: true,
            ..info
        }),
        pick == 0 ==> (info.pointer - 1) as i32 == info.pointer - 1,
{
}

/// A dotted name is split at its first dot and nowhere else: what stands
/// before it, if it is not empty, names a module of the set, and all that
/// follows it, further dots included, is looked up as one name within that
/// module. The modules of the module play no part.
pub proof fn lemma_get_descends_once(set: SpecCmdSet, module: Seq<char>, rest: Seq<char>)
    requires
        module.len() > 0,
        forall|i: int| 0 <= i < module.len() ==> module[i] != '.',
    ensures
        get_spec(set, module + seq!['.'] + rest) == (if set.modules.contains_key(module) {
            lookup_spec(set.modules[module]@, rest)
        } else {
            None
        }),
{
    let name = module + seq!['.'] + rest;
    lemma_first_dot_is(name, module.len() as int);
    assert(module_part(name) =~= module);
    assert(command_part(name) =~= rest);
}

/// A name without a dot, and the rest of a name that starts with a dot, is
/// looked up in the set itself.
pub proof fn lemma_get_plain(set: SpecCmdSet, name: Seq<char>)
    requires
        forall|i: int| 0 <= i < name.len() ==> name[i] != '.',
    ensures
        get_spec(set, name) == lookup_spec(set, name),
        get_spec(set, seq!['.'] + name) == lookup_spec(set, name),
{
    lemma_first_dot_is(name, name.len() as int);
    let dotted = seq!['.'] + name;
    lemma_first_dot_is(dotted, 0);
    assert(module_part(dotted) =~= Seq::<char>::empty());
    assert(command_part(dotted) =~= name);
}

} // verus!

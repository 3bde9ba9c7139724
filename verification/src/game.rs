//! One game: its execution state and its commands, and the two halves of a
//! dispatch step that the host's loop calls for each instruction.

use crate::binder::run_spec;
use crate::commands::SpecCommand;
use crate::definitions::{choice_command, ending_command, goto_command, main_commands, wait_command};
use crate::error::{ASError, SpecError};
use crate::info::{GameInfo, SpecInfo};
use crate::io::{complete, complete_spec, fits, reply_fits, IoReply, IoRequest, SpecRequest};
use crate::registry::{get_spec, CmdSet, SpecCmdSet};
use crate::variables::{ASVariable, SpecVariable};
use vstd::prelude::*;

verus! {

/// A game that is being run.
#[derive(Debug)]
pub struct AdventureScriptGame {
    info: GameInfo,
    commands: CmdSet,
}

/// The mathematical model of an [`AdventureScriptGame`].
pub struct SpecGame {
    pub info: SpecInfo,
    pub commands: SpecCmdSet,
}

/// What the first half of a dispatch step gives for the instruction that
/// calls `name`: nothing where no command has the name, or else what the call
/// of the command gives.
pub open spec fn step_spec(
    game: SpecGame,
    name: Seq<char>,
    args: Seq<SpecVariable>,
    kwargs: Seq<(Seq<char>, SpecVariable)>,
) -> Option<Result<(SpecRequest, SpecInfo), SpecError>> {
    match get_spec(game.commands, name) {
        None => None,
        Some(cmd) => Some(run_spec(cmd, game.info, args, kwargs)),
    }
}

impl View for AdventureScriptGame {
    type V = SpecGame;

    closed spec fn view(&self) -> SpecGame {
        SpecGame { info: self.info@, commands: self.commands@ }
    }
}

impl AdventureScriptGame {
    /// A game under the root folder `root_dir`, in its first state and
    /// without commands.
    pub fn new(root_dir: String, is_local: bool) -> (game: AdventureScriptGame)
        ensures
            game@.info == (SpecInfo {
                root_dir: root_dir@,
                is_local,
                pointer: 0,
                jumped: false,
                quitting: false,
                variables: Map::empty(),
            }),
            game@.commands.commands == Seq::<SpecCommand>::empty(),
            game@.commands.aliases == Map::<Seq<char>, Seq<char>>::empty(),
            game@.commands.modules == Map::<Seq<char>, CmdSet>::empty(),
    {
        AdventureScriptGame { info: GameInfo::create(root_dir, is_local), commands: CmdSet::new() }
    }

    /// Adds the built-in commands to those of the game.
    pub fn add_main_commands(&mut self)
        ensures
            final(self)@.info == old(self)@.info,
            final(self)@.commands.commands == old(self)@.commands.commands + seq![
                wait_command(),
                choice_command(),
                goto_command(),
                ending_command(),
            ],
            final(self)@.commands.aliases == old(self)@.commands.aliases,
            final(self)@.commands.modules == old(self)@.commands.modules,
    {
        self.commands.extend(main_commands());
        assert(self@.commands.aliases =~= old(self)@.commands.aliases);
    }

    /// The execution state.
    pub fn info(&self) -> (info: &GameInfo)
        ensures
            info@ == self@.info,
    {
        &self.info
    }

    /// The commands of the game.
    pub fn commands(&self) -> (commands: &CmdSet)
        ensures
            commands@ == self@.commands,
    {
        &self.commands
    }

    /// Adds the commands and aliases of `other` to those of the game.
    pub fn extend_commands(&mut self, other: CmdSet)
        ensures
            final(self)@.info == old(self)@.info,
            final(self)@.commands.commands == old(self)@.commands.commands + other@.commands,
            final(self)@.commands.aliases == old(self)@.commands.aliases.union_prefer_right(
                other@.aliases,
            ),
            final(self)@.commands.modules == old(self)@.commands.modules,
    {
        self.commands.extend(other);
    }

    /// Gives the variable `name` the value `value`.
    pub fn set_var(&mut self, name: String, value: ASVariable)
        ensures
            final(self)@.commands == old(self)@.commands,
            final(self)@.info == (SpecInfo {
                variables: old(self)@.info.variables.insert(name@, value@),
                ..old(self)@.info
            }),
    {
        self.info.set_var(name, value);
    }

    /// Whether the loop goes on: the run has not ended.
    pub fn running(&self) -> (on: bool)
        ensures
            on == !self@.info.quitting,
    {
        !self.info.quitting()
    }

    /// The first half of a dispatch step: resolves `name` to a command,
    /// binds the arguments and runs the command.
    ///
    /// Gives nothing where no command has the name; the caller reports that.
    /// Otherwise gives what the host has to do before `finish`, or the
    /// failure of the binding. Only a command that ran changes the state.
    pub fn step(
        &mut self,
        name: &str,
        args: Vec<ASVariable>,
        kwargs: Vec<(String, ASVariable)>,
    ) -> (done: Option<Result<IoRequest, ASError>>)
        ensures
            final(self)@.commands == old(self)@.commands,
            match done {
                None => step_spec(old(self)@, name@, args.deep_view(), kwargs.deep_view()) is None
                    && final(self)@ == old(self)@,
                Some(Ok(request)) => step_spec(
                    old(self)@,
                    name@,
                    args.deep_view(),
                    kwargs.deep_view(),
                ) == Some(
                    Ok::<(SpecRequest, SpecInfo), SpecError>((request@, final(self)@.info)),
                ),
                Some(Err(e)) => step_spec(
                    old(self)@,
                    name@,
                    args.deep_view(),
                    kwargs.deep_view(),
                ) == Some(Err::<(SpecRequest, SpecInfo), SpecError>(e@)) && final(self)@ == old(
                    self,
                )@,
            },
    {
        match self.commands.get(name) {
            None => None,
            Some(command) => Some(command.run(&mut self.info, args, kwargs)),
        }
    }

    /// Whether `finish` can take `reply` as the answer to `request`: the reply
    /// fits the request, and the pointer can move on where it has to.
    pub open spec fn can_finish_spec(game: SpecGame, request: SpecRequest, reply: IoReply) -> bool {
        &&& reply_fits(game.info, request, reply)
        &&& !complete_spec(game.info, request, reply).jumped ==> game.info.pointer < i32::MAX
    }

    /// Whether `finish` can take `reply` as the answer to `request`.
    pub fn can_finish(&self, request: &IoRequest, reply: IoReply) -> (ok: bool)
        ensures
            ok == Self::can_finish_spec(self@, request@, reply),
    {
        if !fits(&self.info, request, reply) {
            return false;
        }
        match request {
            IoRequest::Query { .. } => true,
            _ => self.info.jumped() || self.info.pointer() < i32::MAX,
        }
    }

    /// The state after the second half of a dispatch step.
    pub open spec fn finish_spec(game: SpecGame, request: SpecRequest, reply: IoReply) -> SpecGame {
        SpecGame { info: complete_spec(game.info, request, reply).next_line(), ..game }
    }

    /// The second half of a dispatch step, once the host has answered
    /// `request`: brings the state up to date and moves on to the next
    /// instruction, which is the one after the current one unless the command
    /// assigned the pointer.
    pub fn finish(&mut self, request: &IoRequest, reply: IoReply)
        requires
            Self::can_finish_spec(old(self)@, request@, reply),
        ensures
            final(self)@ == Self::finish_spec(old(self)@, request@, reply),
    {
        complete(&mut self.info, request, reply);
        self.info.next_line();
    }
}

} // verus!

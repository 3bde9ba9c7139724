//! The execution state of one script run: the instruction pointer, the
//! variable store and the quitting flag.

use crate::error::{ASError, ASVarError, SpecError};
use crate::strmap::StrMap;
use crate::variables::{ASVariable, SpecVariable};
use vstd::prelude::*;

verus! {

/// The state that commands read and change while a script runs.
#[derive(Debug)]
pub struct GameInfo {
    root_dir: String,
    is_local: bool,
    pointer: i32,
    jumped: bool,
    quitting: bool,
    variables: StrMap<ASVariable>,
}

/// The mathematical model of a [`GameInfo`].
pub struct SpecInfo {
    /// The root folder of the game.
    pub root_dir: Seq<char>,
    pub is_local: bool,
    /// The index of the current instruction.
    pub pointer: i32,
    /// Whether a command has assigned the pointer since the last advance.
    pub jumped: bool,
    /// Whether the run has ended. Once true it stays true.
    pub quitting: bool,
    /// The variable store.
    pub variables: Map<Seq<char>, SpecVariable>,
}

impl SpecInfo {
    /// The state after a write of `pos` to the pointer.
    pub open spec fn jump(self, pos: i32) -> SpecInfo {
        SpecInfo { pointer: pos, jumped: true, ..self }
    }

    /// The state after `quit`.
    pub open spec fn quit(self) -> SpecInfo {
        SpecInfo { quitting: true, ..self }
    }

    /// The state after the dispatch loop has moved on to the next instruction:
    /// one further, unless a command assigned the pointer.
    pub open spec fn next_line(self) -> SpecInfo {
        if self.jumped {
            SpecInfo { jumped: false, ..self }
        } else {
            SpecInfo { pointer: (self.pointer + 1) as i32, ..self }
        }
    }

    /// What looking up `name` in the variable store gives.
    pub open spec fn get_var(self, name: Seq<char>) -> Result<SpecVariable, SpecError> {
        if self.variables.contains_key(name) {
            Ok(self.variables[name])
        } else {
            Err(SpecError::VarNotFound(name))
        }
    }
}

impl View for GameInfo {
    type V = SpecInfo;

    closed spec fn view(&self) -> SpecInfo {
        SpecInfo {
            root_dir: self.root_dir@,
            is_local: self.is_local,
            pointer: self.pointer,
            jumped: self.jumped,
            quitting: self.quitting,
            variables: self.variables@.map_values(|v: ASVariable| v@),
        }
    }
}

impl Clone for GameInfo {
    fn clone(&self) -> (res: Self)
        ensures
            res@ == self@,
    {
        let res = GameInfo {
            root_dir: self.root_dir.clone(),
            is_local: self.is_local,
            pointer: self.pointer,
            jumped: self.jumped,
            quitting: self.quitting,
            variables: self.variables.clone(),
        };
        assert(res@.variables =~= self@.variables);
        res
    }
}

impl GameInfo {
    /// A fresh state for the game under `root_dir`: the pointer at the first
    /// instruction, no variables, not quitting.
    pub fn create(root_dir: String, is_local: bool) -> (info: GameInfo)
        ensures
            info@ == (SpecInfo {
                root_dir: root_dir@,
                is_local,
                pointer: 0,
                jumped: false,
                quitting: false,
                variables: Map::empty(),
            }),
    {
        let info = GameInfo {
            root_dir,
            is_local,
            pointer: 0,
            jumped: false,
            quitting: false,
            variables: StrMap::new(),
        };
        assert(info@.variables =~= Map::empty());
        info
    }

    /// The index of the current instruction.
    pub fn pointer(&self) -> (p: i32)
        ensures
            p == self@.pointer,
    {
        self.pointer
    }

    /// Whether a command has assigned the pointer since the last advance.
    pub fn jumped(&self) -> (j: bool)
        ensures
            j == self@.jumped,
    {
        self.jumped
    }

    /// Makes `pos` the current instruction. The next advance leaves it there.
    pub fn set_pointer(&mut self, pos: i32)
        ensures
            final(self)@ == old(self)@.jump(pos),
    {
        self.pointer = pos;
        self.jumped = true;
    }

    /// Moves on after a command has returned: to the next instruction, or
    /// nowhere if the command assigned the pointer.
    pub fn next_line(&mut self)
        requires
            !old(self)@.jumped ==> old(self)@.pointer < i32::MAX,
        ensures
            final(self)@ == old(self)@.next_line(),
    {
        if self.jumped {
            self.jumped = false;
        } else {
            self.pointer = self.pointer + 1;
        }
    }

    /// The value of the variable `name`.
    pub fn get_var(&self, name: &str) -> (found: Result<&ASVariable, ASError>)
        ensures
            match found {
                Ok(v) => self@.get_var(name@) == Ok::<SpecVariable, SpecError>(v@),
                Err(e) => self@.get_var(name@) == Err::<SpecVariable, SpecError>(e@),
            },
    {
        match self.variables.get(name) {
            Some(v) => Ok(v),
            None => Err(ASError::Var(ASVarError::VarNotFound(name.to_owned()))),
        }
    }

    /// Gives the variable `name` the value `value`.
    pub fn set_var(&mut self, name: String, value: ASVariable)
        ensures
            final(self)@ == (SpecInfo {
                variables: old(self)@.variables.insert(name@, value@),
                ..old(self)@
            }),
    {
        self.variables.insert(name, value);
        assert(self@.variables =~= old(self)@.variables.insert(name@, value@));
    }

    /// Ends the run.
    pub fn quit(&mut self)
        ensures
            final(self)@ == old(self)@.quit(),
    {
        self.quitting = true;
    }

    /// Whether the run has ended.
    pub fn quitting(&self) -> (q: bool)
        ensures
            q == self@.quitting,
    {
        self.quitting
    }

    /// The root folder of the game.
    pub fn root_dir(&self) -> (dir: &str)
        ensures
            dir@ == self@.root_dir,
    {
        self.root_dir.as_str()
    }

    /// Whether the game runs from the local folder.
    pub fn is_local(&self) -> (local: bool)
        ensures
            local == self@.is_local,
    {
        self.is_local
    }
}

} // verus!

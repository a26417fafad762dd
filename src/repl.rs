use vstd::prelude::*;
use vstd::string::*;

use crate::assembler::{parse_line, AssemblyParser};
use crate::instruction::record;
use crate::text::{chars_of, same_chars};
use crate::vm::{step, Fault, MachineState, VM};

verus! {

/// What the shell should do or show after a command.
#[derive(Debug, Clone, Copy, PartialEq, Eq)]
pub enum ReplAction {
    /// End the session.
    Quit,
    /// Show the register file.
    ShowRegisters,
    /// Show the program bytes.
    ShowProgram,
    /// Show the commands entered so far.
    ShowHistory,
    /// The history was cleared.
    Cleared,
    /// The command was an instruction: it was appended and executed once.
    Executed(Result<bool, Fault>),
    /// The command was neither a shell command nor a valid instruction.
    Invalid,
    /// The program cannot take another record.
    ProgramFull,
}

/// The shell's own commands, by their exact text.
pub open spec fn shell_action(cmd: Seq<char>) -> Option<ReplAction> {
    if cmd == seq!['q', 'u', 'i', 't'] {
        Some(ReplAction::Quit)
    } else if cmd == seq!['r', 'e', 'g', 'i', 's', 't', 'e', 'r'] {
        Some(ReplAction::ShowRegisters)
    } else if cmd == seq!['p', 'r', 'o', 'g', 'r', 'a', 'm'] {
        Some(ReplAction::ShowProgram)
    } else if cmd == seq!['h', 'i', 's', 't', 'o', 'r', 'y'] {
        Some(ReplAction::ShowHistory)
    } else if cmd == seq!['c', 'l', 'e', 'a', 'r'] {
        Some(ReplAction::Cleared)
    } else {
        None
    }
}

/// An interactive session: the commands entered and the machine they drive.
pub struct REPL {
    command_buffer: Vec<String>,
    vm: VM,
}

impl REPL {
    /// The commands entered since the history was last cleared.
    pub closed spec fn history(&self) -> Seq<Seq<char>> {
        self.command_buffer@.map_values(|c: String| c@)
    }

    /// The state of the session's machine.
    pub closed spec fn machine(&self) -> MachineState {
        self.vm@
    }

    /// A session with no history and a fresh machine.
    pub fn new() -> (r: REPL)
        ensures
            r.history().len() == 0,
            r.machine().registers == Seq::new(32, |i: int| 0i32),
            r.machine().pc == 0,
            r.machine().program.len() == 0,
            r.machine().heap.len() == 0,
            r.machine().remainder == 0,
            !r.machine().equal_flag,
    {
        REPL { command_buffer: Vec::new(), vm: VM::new() }
    }

    pub fn vm(&self) -> (vm: &VM)
        ensures
            vm@ == self.machine(),
    {
        &self.vm
    }

    pub fn command_buffer(&self) -> (c: &Vec<String>)
        ensures
            c@.map_values(|s: String| s@) == self.history(),
    {
        &self.command_buffer
    }

    fn shell_command(cmd: &Vec<char>) -> (r: Option<ReplAction>)
        ensures
            r == shell_action(cmd@),
    {
        if same_chars(cmd, &vec!['q', 'u', 'i', 't']) {
            Some(ReplAction::Quit)
        } else if same_chars(cmd, &vec!['r', 'e', 'g', 'i', 's', 't', 'e', 'r']) {
            Some(ReplAction::ShowRegisters)
        } else if same_chars(cmd, &vec!['p', 'r', 'o', 'g', 'r', 'a', 'm']) {
            Some(ReplAction::ShowProgram)
        } else if same_chars(cmd, &vec!['h', 'i', 's', 't', 'o', 'r', 'y']) {
            Some(ReplAction::ShowHistory)
        } else if same_chars(cmd, &vec!['c', 'l', 'e', 'a', 'r']) {
            Some(ReplAction::Cleared)
        } else {
            None
        }
    }

    /// Records a command in the history and carries it out: a shell command
    /// is answered with its action (`clear` empties the history); any other
    /// line is assembled, appended to the program and executed once.
    pub fn handle_command(&mut self, command: &str) -> (r: ReplAction)
        ensures
            final(self).history() == (if command@ == seq!['c', 'l', 'e', 'a', 'r'] {
                Seq::<Seq<char>>::empty()
            } else {
                old(self).history().push(command@)
            }),
            shell_action(command@) is Some ==> r == shell_action(command@).unwrap()
                && final(self).machine() == old(self).machine(),
            shell_action(command@) is None ==> match parse_line(command@) {
                Err(_) => r == ReplAction::Invalid && final(self).machine() == old(self).machine(),
                Ok((op, operands)) => if old(self).machine().program.len() + 4 > usize::MAX {
                    r == ReplAction::ProgramFull && final(self).machine() == old(self).machine()
                } else {
                    let s = MachineState {
                        program: old(self).machine().program + record(op, operands),
                        ..old(self).machine()
                    };
                    (final(self).machine(), r) == (step(s).0, ReplAction::Executed(step(s).1))
                },
            },
    {
        let ghost h0 = self.history();
        self.command_buffer.push(String::from_str(command));
        assert(self.history() =~= h0.push(command@));
        let cs = chars_of(command);
        match REPL::shell_command(&cs) {
            Some(action) => {
                if let ReplAction::Cleared = action {
                    self.command_buffer.clear();
                    assert(self.history() =~= Seq::<Seq<char>>::empty());
                }
                action
            },
            None => match AssemblyParser::parse_instruction(command) {
                Err(_) => ReplAction::Invalid,
                Ok(instruction) => {
                    if self.vm.program.len() > usize::MAX - 4 {
                        return ReplAction::ProgramFull;
                    }
                    let bytes = instruction.to_bytes();
                    self.vm.add_bytes(&bytes);
                    ReplAction::Executed(self.vm.run_once())
                },
            },
        }
    }
}

} // verus!

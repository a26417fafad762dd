use susuro::{Fault, ReplAction, Symbol, SymbolTable, SymbolType, REPL};

#[test]
fn symbol_table_binds_and_rebinds() {
    let mut table = SymbolTable::new();
    let start = Symbol::new(String::from("start"), SymbolType::Label);
    let end = Symbol::new(String::from("end"), SymbolType::Label);
    assert_eq!(table.symbol_value(&start), None);
    table.add_symbol(start.clone(), 4);
    table.add_symbol(end.clone(), 12);
    assert_eq!(table.symbol_value(&start), Some(&4));
    assert_eq!(table.symbol_value(&end), Some(&12));
    table.add_symbol(start.clone(), 8);
    assert_eq!(table.symbol_value(&start), Some(&8));
    let other = Symbol::new(String::from("other"), SymbolType::Label);
    assert_eq!(table.symbol_value(&other), None);
}

#[test]
fn repl_runs_instructions_one_at_a_time() {
    let mut repl = REPL::new();
    assert_eq!(repl.handle_command("LOAD $0 #500"), ReplAction::Executed(Ok(false)));
    assert_eq!(repl.handle_command("LOAD $1 #20"), ReplAction::Executed(Ok(false)));
    assert_eq!(repl.handle_command("ADD $0 $1 $2"), ReplAction::Executed(Ok(false)));
    assert_eq!(repl.vm().registers[2], 520);
    assert_eq!(repl.vm().program.len(), 12);
    assert_eq!(repl.handle_command("DIV $0 $3 $4"), ReplAction::Executed(Err(Fault::DivisionByZero)));
}

#[test]
fn repl_shell_commands_and_history() {
    let mut repl = REPL::new();
    assert_eq!(repl.handle_command("register"), ReplAction::ShowRegisters);
    assert_eq!(repl.handle_command("program"), ReplAction::ShowProgram);
    assert_eq!(repl.handle_command("nonsense"), ReplAction::Invalid);
    assert_eq!(repl.vm().program.len(), 0);
    assert_eq!(repl.handle_command("history"), ReplAction::ShowHistory);
    assert_eq!(repl.command_buffer().len(), 4);
    assert_eq!(repl.command_buffer()[2], "nonsense");
    assert_eq!(repl.handle_command("clear"), ReplAction::Cleared);
    assert_eq!(repl.command_buffer().len(), 0);
    assert_eq!(repl.handle_command("quit"), ReplAction::Quit);
    assert_eq!(repl.handle_command("HLT"), ReplAction::Executed(Ok(true)));
}

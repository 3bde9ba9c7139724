use adventure_script::commands::{Command, CommandArg, CommandFn};
use adventure_script::definitions::{
    choice_fn, ending_fn, goto_fn, invoke, main_commands, test_fn, wait_fn, MAX_CHOICES,
};
use adventure_script::error::{ASCmdError, ASError, CommandErrors};
use adventure_script::info::GameInfo;
use adventure_script::io::{complete, IoReply, IoRequest};
use adventure_script::registry::CmdSet;
use adventure_script::variables::{ASType, ASVariable};

fn text(s: &str) -> ASVariable {
    ASVariable::String(s.to_string())
}

fn kw(name: &str, value: ASVariable) -> (String, ASVariable) {
    (name.to_string(), value)
}

fn info_at(pointer: i32) -> GameInfo {
    let mut info = GameInfo::create("game".to_string(), false);
    info.set_pointer(pointer);
    info.next_line();
    assert_eq!(info.pointer(), pointer);
    info
}

fn builtin<'a>(set: &'a CmdSet, name: &str) -> &'a Command {
    set.get(name).unwrap()
}

fn query(text: &str, choices: &[&str], gotos: &[i32]) -> IoRequest {
    IoRequest::Query {
        text: text.to_string(),
        choices: choices.iter().map(|c| c.to_string()).collect(),
        gotos: gotos.to_vec(),
        allow_save: true,
    }
}

#[test]
fn main_commands_are_the_four_builtins() {
    let set = main_commands();
    let names: Vec<&str> = set.commands.iter().map(|c| c.name()).collect();
    assert_eq!(names, vec!["wait", "choice", "goto", "ending"]);
    assert_eq!(set.aliases.len(), 0);
    assert!(set.modules.is_empty());
    assert_eq!(builtin(&set, "wait").func(), CommandFn::Wait);
    assert_eq!(builtin(&set, "choice").func(), CommandFn::Choice);
    assert_eq!(builtin(&set, "goto").func(), CommandFn::Goto);
    assert_eq!(builtin(&set, "ending").func(), CommandFn::Ending);
    for c in &set.commands {
        assert!(!c.deprecated());
    }
}

#[test]
fn main_commands_parameters() {
    let set = main_commands();
    assert!(builtin(&set, "wait").args().is_empty());
    assert_eq!(
        builtin(&set, "goto").args(),
        &vec![CommandArg { name: "pos".to_string(), type_: ASType::Int, required: true }]
    );
    assert_eq!(
        builtin(&set, "ending").args(),
        &vec![CommandArg { name: "name".to_string(), type_: ASType::String, required: false }]
    );
    let mut expected =
        vec![CommandArg { name: "text".to_string(), type_: ASType::String, required: false }];
    for i in 1..=9 {
        expected.push(CommandArg {
            name: format!("ch{}", i),
            type_: ASType::String,
            required: false,
        });
    }
    for i in 1..=9 {
        expected.push(CommandArg { name: format!("go{}", i), type_: ASType::Int, required: false });
    }
    assert_eq!(builtin(&set, "choice").args(), &expected);
    assert_eq!(MAX_CHOICES, 9);
}

#[test]
fn test_command_parameters() {
    let c = adventure_script::definitions::test();
    assert_eq!(c.name(), "test");
    assert_eq!(c.func(), CommandFn::Test);
    assert!(!c.deprecated());
    assert_eq!(
        c.args(),
        &vec![
            CommandArg { name: "arg1".to_string(), type_: ASType::Any, required: true },
            CommandArg { name: "test".to_string(), type_: ASType::Int, required: true },
            CommandArg { name: "arg2".to_string(), type_: ASType::Any, required: false },
        ]
    );
}

#[test]
fn wait_asks_for_a_wait_and_changes_nothing() {
    let set = main_commands();
    let mut info = info_at(6);
    assert_eq!(builtin(&set, "wait").run(&mut info, vec![], vec![]), Ok(IoRequest::Wait));
    assert_eq!(info.pointer(), 6);
    assert!(!info.quitting());
    complete(&mut info, &IoRequest::Wait, IoReply::Done);
    assert_eq!(info.pointer(), 6);
    assert!(!info.quitting());
    info.next_line();
    assert_eq!(info.pointer(), 7);
}

#[test]
fn wait_takes_no_argument() {
    let set = main_commands();
    let mut info = info_at(6);
    assert_eq!(
        builtin(&set, "wait").run(&mut info, vec![ASVariable::Int(1)], vec![]),
        Err(ASError::Cmd(ASCmdError {
            command: "wait".to_string(),
            details: CommandErrors::TooManyArguments { max_args: 0, given_args: 1 },
        }))
    );
}

#[test]
fn goto_sets_pointer_whatever_it_was() {
    let set = main_commands();
    for before in [i32::MIN, -1, 0, 41, 42, 43, i32::MAX] {
        let mut info = info_at(before);
        let done =
            builtin(&set, "goto").run(&mut info, vec![], vec![kw("pos", ASVariable::Int(42))]);
        assert_eq!(done, Ok(IoRequest::Nothing));
        assert_eq!(info.pointer(), 42);
        assert!(!info.quitting());
        // The loop does not move on from the new instruction.
        info.next_line();
        assert_eq!(info.pointer(), 42);
    }
}

#[test]
fn goto_by_position_and_to_any_integer() {
    let set = main_commands();
    for pos in [i32::MIN, -7, 0, 1, i32::MAX] {
        let mut info = info_at(3);
        assert_eq!(
            builtin(&set, "goto").run(&mut info, vec![ASVariable::Int(pos)], vec![]),
            Ok(IoRequest::Nothing)
        );
        assert_eq!(info.pointer(), pos);
    }
}

#[test]
fn goto_without_pos_fails_and_leaves_state() {
    let set = main_commands();
    let mut info = info_at(3);
    assert_eq!(
        builtin(&set, "goto").run(&mut info, vec![], vec![]),
        Err(ASError::Cmd(ASCmdError {
            command: "goto".to_string(),
            details: CommandErrors::MissingRequiredArgument {
                argument_name: "pos".to_string(),
                argument_type: ASType::Int,
            },
        }))
    );
    assert_eq!(info.pointer(), 3);
    info.next_line();
    assert_eq!(info.pointer(), 4);
}

#[test]
fn goto_with_text_fails_and_leaves_state() {
    let set = main_commands();
    let mut info = info_at(3);
    assert_eq!(
        builtin(&set, "goto").run(&mut info, vec![text("42")], vec![]),
        Err(ASError::Cmd(ASCmdError {
            command: "goto".to_string(),
            details: CommandErrors::ArgumentTypeError {
                argument_name: "pos".to_string(),
                required_type: ASType::Int,
                given_type: ASType::String,
            },
        }))
    );
    assert_eq!(info.pointer(), 3);
}

#[test]
fn goto_through_variable() {
    let set = main_commands();
    let mut info = info_at(3);
    info.set_var("where".to_string(), ASVariable::Int(17));
    assert_eq!(
        builtin(&set, "goto").run(&mut info, vec![ASVariable::VarRef("where".to_string())], vec![]),
        Ok(IoRequest::Nothing)
    );
    assert_eq!(info.pointer(), 17);
}

fn three_choices() -> Vec<(String, ASVariable)> {
    vec![
        kw("ch1", text("A")),
        kw("ch2", text("B")),
        kw("ch3", text("C")),
        kw("go1", ASVariable::Int(10)),
        kw("go2", ASVariable::Int(20)),
        kw("go3", ASVariable::Int(30)),
    ]
}

#[test]
fn choice_selecting_two_goes_to_twenty() {
    let set = main_commands();
    let mut info = info_at(5);
    let request = builtin(&set, "choice").run(&mut info, vec![], three_choices()).unwrap();
    assert_eq!(request, query("", &["A", "B", "C"], &[10, 20, 30]));
    // Nothing has changed before the player picks.
    assert_eq!(info.pointer(), 5);
    complete(&mut info, &request, IoReply::Picked(2));
    assert_eq!(info.pointer(), 20);
    assert!(!info.quitting());
    info.next_line();
    assert_eq!(info.pointer(), 20);
}

#[test]
fn choice_selecting_zero_goes_one_back() {
    let set = main_commands();
    for before in [i32::MIN + 1, -3, 0, 1, 5, i32::MAX] {
        let mut info = info_at(before);
        let request = builtin(&set, "choice").run(&mut info, vec![], three_choices()).unwrap();
        complete(&mut info, &request, IoReply::Picked(0));
        assert_eq!(info.pointer(), before - 1);
        info.next_line();
        assert_eq!(info.pointer(), before - 1);
    }
}

#[test]
fn choice_selecting_each_option() {
    let set = main_commands();
    for (pick, destination) in [(1, 10), (2, 20), (3, 30)] {
        let mut info = info_at(5);
        let request = builtin(&set, "choice").run(&mut info, vec![], three_choices()).unwrap();
        complete(&mut info, &request, IoReply::Picked(pick));
        assert_eq!(info.pointer(), destination);
    }
}

#[test]
fn choice_with_prompt_by_position() {
    let set = main_commands();
    let mut info = info_at(5);
    let request = builtin(&set, "choice")
        .run(&mut info, vec![text("Where to?"), text("North")], vec![kw("go1", ASVariable::Int(4))])
        .unwrap();
    assert_eq!(request, query("Where to?", &["North"], &[4]));
}

#[test]
fn choice_ends_before_first_unset_option() {
    let set = main_commands();
    let mut info = info_at(5);
    // Option 2 has no destination: options 3 and 4 are not offered.
    let request = builtin(&set, "choice")
        .run(
            &mut info,
            vec![],
            vec![
                kw("ch1", text("A")),
                kw("go1", ASVariable::Int(10)),
                kw("ch3", text("C")),
                kw("go3", ASVariable::Int(30)),
                kw("go4", ASVariable::Int(40)),
            ],
        )
        .unwrap();
    assert_eq!(request, query("", &["A"], &[10]));
    // A destination of 0 is an option that is not set.
    let request = builtin(&set, "choice")
        .run(
            &mut info,
            vec![],
            vec![
                kw("go1", ASVariable::Int(10)),
                kw("go2", ASVariable::Int(0)),
                kw("go3", ASVariable::Int(30)),
            ],
        )
        .unwrap();
    assert_eq!(request, query("", &["Choice 1"], &[10]));
}

#[test]
fn choice_without_options() {
    let set = main_commands();
    let mut info = info_at(5);
    let request = builtin(&set, "choice").run(&mut info, vec![text("Nothing")], vec![]).unwrap();
    assert_eq!(request, query("Nothing", &[], &[]));
    complete(&mut info, &request, IoReply::Picked(0));
    assert_eq!(info.pointer(), 4);
}

#[test]
fn choice_with_all_nine_options_and_default_labels() {
    let set = main_commands();
    let mut info = info_at(5);
    let kwargs: Vec<(String, ASVariable)> =
        (1..=9).map(|i| kw(&format!("go{}", i), ASVariable::Int(100 + i))).collect();
    let request = builtin(&set, "choice").run(&mut info, vec![], kwargs).unwrap();
    assert_eq!(
        request,
        query(
            "",
            &[
                "Choice 1", "Choice 2", "Choice 3", "Choice 4", "Choice 5", "Choice 6",
                "Choice 7", "Choice 8", "Choice 9",
            ],
            &[101, 102, 103, 104, 105, 106, 107, 108, 109],
        )
    );
    complete(&mut info, &request, IoReply::Picked(9));
    assert_eq!(info.pointer(), 109);
}

#[test]
fn choice_values_of_other_kinds() {
    // Bound values that are neither text nor absent give the empty label,
    // and a destination that is no integer counts as not set.
    let mut info = info_at(5);
    let mut args = vec![ASVariable::Absent; 19];
    args[0] = ASVariable::Int(3);
    args[1] = ASVariable::Int(1);
    args[10] = ASVariable::Int(10);
    args[2] = text("B");
    args[11] = ASVariable::Int(20);
    args[12] = text("30");
    assert_eq!(choice_fn(&mut info, args), query("", &["", "B"], &[10, 20]));
    assert_eq!(info.pointer(), 5);
}

#[test]
fn choice_on_a_short_vector() {
    let mut info = info_at(5);
    assert_eq!(choice_fn(&mut info, vec![]), query("", &[], &[]));
    assert_eq!(choice_fn(&mut info, vec![text("t"), text("a")]), query("t", &[], &[]));
}

#[test]
fn ending_ends_the_run_and_leaves_pointer() {
    let set = main_commands();
    let mut info = info_at(9);
    let request =
        builtin(&set, "ending").run(&mut info, vec![], vec![kw("name", text("Victory"))]).unwrap();
    assert_eq!(request, IoRequest::Ending { text: "Ending: Victory".to_string() });
    // The run ends once the host has shown the text.
    assert!(!info.quitting());
    assert_eq!(info.pointer(), 9);
    complete(&mut info, &request, IoReply::Done);
    assert!(info.quitting());
    assert_eq!(info.pointer(), 9);
}

#[test]
fn ending_without_name() {
    let set = main_commands();
    let mut info = info_at(9);
    let request = builtin(&set, "ending").run(&mut info, vec![], vec![]).unwrap();
    assert_eq!(request, IoRequest::Ending { text: "Ending: ".to_string() });
    complete(&mut info, &request, IoReply::Done);
    assert!(info.quitting());
}

#[test]
fn quitting_stays() {
    let mut info = info_at(9);
    info.quit();
    assert!(info.quitting());
    info.quit();
    assert!(info.quitting());
    info.set_pointer(3);
    info.next_line();
    info.set_var("a".to_string(), ASVariable::Int(1));
    complete(&mut info, &IoRequest::Wait, IoReply::Done);
    assert!(info.quitting());
}

#[test]
fn test_command_hands_values_back() {
    let mut info = info_at(2);
    let done = adventure_script::definitions::test().run(
        &mut info,
        vec![text("one")],
        vec![kw("test", ASVariable::Int(5)), kw("arg2", ASVariable::Label(Some(3)))],
    );
    assert_eq!(
        done,
        Ok(IoRequest::Dump {
            values: vec![text("one"), ASVariable::Int(5), ASVariable::Label(Some(3))]
        })
    );
    assert_eq!(info.pointer(), 2);
}

#[test]
fn test_command_default_for_arg2() {
    let mut info = info_at(2);
    let done = adventure_script::definitions::test().run(
        &mut info,
        vec![text("one"), ASVariable::Int(5)],
        vec![],
    );
    assert_eq!(
        done,
        Ok(IoRequest::Dump {
            values: vec![text("one"), ASVariable::Int(5), text("this is a test")]
        })
    );
    assert_eq!(
        test_fn(&mut info, vec![ASVariable::Int(1)]),
        IoRequest::Dump { values: vec![ASVariable::Int(1)] }
    );
}

#[test]
fn test_command_needs_test() {
    let mut info = info_at(2);
    assert_eq!(
        adventure_script::definitions::test().run(&mut info, vec![text("one")], vec![]),
        Err(ASError::Cmd(ASCmdError {
            command: "test".to_string(),
            details: CommandErrors::MissingRequiredArgument {
                argument_name: "test".to_string(),
                argument_type: ASType::Int,
            },
        }))
    );
}

#[test]
fn external_command_hands_bound_values_to_host() {
    let c = Command::new(
        "give".to_string(),
        CommandFn::External(12),
        vec![
            CommandArg { name: "item".to_string(), type_: ASType::String, required: true },
            CommandArg { name: "count".to_string(), type_: ASType::Int, required: false },
        ],
        false,
    )
    .unwrap();
    let mut info = info_at(2);
    assert_eq!(
        c.run(&mut info, vec![text("key")], vec![]),
        Ok(IoRequest::External { id: 12, args: vec![text("key"), ASVariable::Absent] })
    );
    assert_eq!(info.pointer(), 2);
    let request = IoRequest::External { id: 12, args: vec![] };
    complete(&mut info, &request, IoReply::Done);
    assert_eq!(info.pointer(), 2);
    assert!(!info.quitting());
}

#[test]
fn functions_of_the_builtins() {
    let mut info = info_at(2);
    assert_eq!(wait_fn(&mut info, vec![]), IoRequest::Wait);
    assert_eq!(goto_fn(&mut info, vec![ASVariable::Int(8)]), IoRequest::Nothing);
    assert_eq!(info.pointer(), 8);
    // A value that is no integer, or none at all, reads as 0.
    assert_eq!(goto_fn(&mut info, vec![text("8")]), IoRequest::Nothing);
    assert_eq!(info.pointer(), 0);
    info.set_pointer(8);
    assert_eq!(goto_fn(&mut info, vec![]), IoRequest::Nothing);
    assert_eq!(info.pointer(), 0);
    assert_eq!(
        ending_fn(&mut info, vec![text("Defeat")]),
        IoRequest::Ending { text: "Ending: Defeat".to_string() }
    );
    assert_eq!(
        ending_fn(&mut info, vec![ASVariable::Int(1)]),
        IoRequest::Ending { text: "Ending: ".to_string() }
    );
    assert!(!info.quitting());
}

#[test]
fn invoke_runs_the_entry_point() {
    let mut info = info_at(2);
    assert_eq!(invoke(CommandFn::Wait, &mut info, vec![]), IoRequest::Wait);
    assert_eq!(invoke(CommandFn::Goto, &mut info, vec![ASVariable::Int(8)]), IoRequest::Nothing);
    assert_eq!(info.pointer(), 8);
    assert_eq!(
        invoke(CommandFn::Ending, &mut info, vec![text("x")]),
        IoRequest::Ending { text: "Ending: x".to_string() }
    );
    assert_eq!(invoke(CommandFn::Choice, &mut info, vec![]), query("", &[], &[]));
    assert_eq!(
        invoke(CommandFn::Test, &mut info, vec![ASVariable::Int(1)]),
        IoRequest::Dump { values: vec![ASVariable::Int(1)] }
    );
    assert_eq!(
        invoke(CommandFn::External(3), &mut info, vec![ASVariable::Int(1)]),
        IoRequest::External { id: 3, args: vec![ASVariable::Int(1)] }
    );
}

#[test]
fn fits_tells_fitting_replies() {
    let info = info_at(5);
    let request = query("", &["A", "B"], &[10, 20]);
    assert!(adventure_script::io::fits(&info, &request, IoReply::Picked(0)));
    assert!(adventure_script::io::fits(&info, &request, IoReply::Picked(2)));
    assert!(!adventure_script::io::fits(&info, &request, IoReply::Picked(3)));
    assert!(!adventure_script::io::fits(&info, &request, IoReply::Picked(-1)));
    assert!(!adventure_script::io::fits(&info, &request, IoReply::Done));
    assert!(adventure_script::io::fits(&info, &IoRequest::Nothing, IoReply::Done));
    let least = info_at(i32::MIN);
    assert!(!adventure_script::io::fits(&least, &request, IoReply::Picked(0)));
    assert!(adventure_script::io::fits(&least, &request, IoReply::Picked(1)));
}

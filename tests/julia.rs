use ion::command::{exit_result, CommandError, CommandOutput, JuliaCommand};

#[test]
fn test_julia_command() {
    let cmd = JuliaCommand::new("using Pkg; Pkg.add(\"Foo\")");
    assert_eq!(cmd.program, "julia");
    assert_eq!(cmd.args.is_empty(), true);
    assert_eq!(cmd.script, "using Pkg; Pkg.add(\"Foo\")");

    let mut cmd = JuliaCommand::new("using Pkg; Pkg.add(\"Foo\")");
    cmd.project("Foo").arg("Bar").arg("Baz");
    let args = &cmd.args;
    assert_eq!(args.len(), 3);
    assert_eq!(args[0], "--project=Foo");
    assert_eq!(args[1], "Bar");
    assert_eq!(args[2], "Baz");
}

#[test]
fn exec_cmd_sets_project_flags() {
    let cmd = JuliaCommand::exec_cmd("println(1)", "@.");
    assert_eq!(
        cmd.args,
        vec!["--project=@.", "--startup-file=no", "--color=yes", "--compile=min"]
    );
    let inv = cmd.invocation_args();
    assert_eq!(inv.len(), 5);
    assert_eq!(inv[4], "-e println(1)");
}

#[test]
fn builder_flags() {
    let mut cmd = JuliaCommand::new("x");
    cmd.compile("all").no_startup_file().color();
    assert_eq!(cmd.args, vec!["--compile=all", "--startup-file=no", "--color=yes"]);
}

#[test]
fn exit_status_maps_to_result() {
    assert!(exit_result(true).is_ok());
    assert!(matches!(exit_result(false), Err(CommandError::Failed)));
}

#[test]
fn read_output_is_trimmed() {
    let out = CommandOutput { success: true, stdout: b"  1.10.2\n".to_vec() };
    assert_eq!(out.text().unwrap(), "1.10.2");
}

#[test]
fn read_output_failed_run() {
    let out = CommandOutput { success: false, stdout: b"1.10.2".to_vec() };
    assert!(matches!(out.text(), Err(CommandError::Failed)));
}

#[test]
fn read_output_not_utf8() {
    let out = CommandOutput { success: true, stdout: vec![0xff, 0xfe] };
    assert!(matches!(out.text(), Err(CommandError::NotUtf8)));
}

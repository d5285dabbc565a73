use vstd::prelude::*;
use vstd::string::StringExecFns;
use vstd::utf8::{decode_utf8, valid_utf8};

verus! {

pub open spec fn strings_view(v: Seq<String>) -> Seq<Seq<char>> {
    v.map_values(|s: String| s@)
}

/// A call of the Julia toolchain under construction: the program, its
/// arguments in order, and the script it will evaluate.
pub struct JuliaCommand {
    pub program: String,
    pub args: Vec<String>,
    pub script: String,
}

impl JuliaCommand {
    pub open spec fn args_view(&self) -> Seq<Seq<char>> {
        strings_view(self.args@)
    }

    /// A call of `julia` that will evaluate `script`, with no arguments yet.
    pub fn new(script: &str) -> (r: JuliaCommand)
        ensures
            r.program@ == "julia"@,
            r.args_view() == Seq::<Seq<char>>::empty(),
            r.script@ == script@,
    {
        let r = JuliaCommand {
            program: String::from_str("julia"),
            args: Vec::new(),
            script: String::from_str(script),
        };
        assert(r.args_view() =~= Seq::<Seq<char>>::empty());
        r
    }

    fn push_arg(&mut self, a: String)
        ensures
            final(self).args_view() == old(self).args_view().push(a@),
            final(self).program == old(self).program,
            final(self).script == old(self).script,
    {
        self.args.push(a);
        assert(self.args_view() =~= old(self).args_view().push(a@));
    }

    /// Appends a free-form argument.
    pub fn arg(&mut self, arg: &str) -> (r: &mut Self)
        ensures
            r.args_view() == old(self).args_view().push(arg@),
            r.program == old(self).program,
            r.script == old(self).script,
            *final(self) == *final(r),
    {
        self.push_arg(String::from_str(arg));
        self
    }

    /// Selects the project environment.
    pub fn project(&mut self, project: &str) -> (r: &mut Self)
        ensures
            r.args_view() == old(self).args_view().push("--project="@ + project@),
            r.program == old(self).program,
            r.script == old(self).script,
            *final(self) == *final(r),
    {
        self.push_arg(String::from_str("--project=").concat(project));
        self
    }

    /// Selects the compilation mode.
    pub fn compile(&mut self, option: &str) -> (r: &mut Self)
        ensures
            r.args_view() == old(self).args_view().push("--compile="@ + option@),
            r.program == old(self).program,
            r.script == old(self).script,
            *final(self) == *final(r),
    {
        self.push_arg(String::from_str("--compile=").concat(option));
        self
    }

    /// Suppresses the user's startup file.
    pub fn no_startup_file(&mut self) -> (r: &mut Self)
        ensures
            r.args_view() == old(self).args_view().push("--startup-file=no"@),
            r.program == old(self).program,
            r.script == old(self).script,
            *final(self) == *final(r),
    {
        self.push_arg(String::from_str("--startup-file=no"));
        self
    }

    /// Turns colored output on.
    pub fn color(&mut self) -> (r: &mut Self)
        ensures
            r.args_view() == old(self).args_view().push("--color=yes"@),
            r.program == old(self).program,
            r.script == old(self).script,
            *final(self) == *final(r),
    {
        self.push_arg(String::from_str("--color=yes"));
        self
    }

    /// The call that runs `script` in `project` quietly configured: no
    /// startup file, colored output, minimal compilation.
    pub fn exec_cmd(script: &str, project: &str) -> (r: JuliaCommand)
        ensures
            r.program@ == "julia"@,
            r.script@ == script@,
            r.args_view() == seq![
                "--project="@ + project@,
                "--startup-file=no"@,
                "--color=yes"@,
                "--compile=min"@,
            ],
    {
        let mut cmd = JuliaCommand::new(script);
        cmd.project(project);
        assert(cmd.args_view() == seq!["--project="@ + project@]);
        cmd.no_startup_file();
        assert(cmd.args_view() =~= seq!["--project="@ + project@, "--startup-file=no"@]);
        cmd.color();
        assert(cmd.args_view() =~= seq![
            "--project="@ + project@,
            "--startup-file=no"@,
            "--color=yes"@,
        ]);
        cmd.compile("min");
        proof {
            reveal_strlit("--compile=");
            reveal_strlit("min");
            reveal_strlit("--compile=min");
            assert("--compile="@ + "min"@ =~= "--compile=min"@);
        }
        assert(cmd.args_view() =~= seq![
            "--project="@ + project@,
            "--startup-file=no"@,
            "--color=yes"@,
            "--compile=min"@,
        ]);
        cmd
    }

    /// The arguments the program is run with: the configured ones, then the
    /// script to evaluate.
    pub fn invocation_args(&self) -> (r: Vec<String>)
        ensures
            strings_view(r@) == self.args_view().push("-e "@ + self.script@),
    {
        let mut r: Vec<String> = Vec::new();
        let mut i: usize = 0;
        while i < self.args.len()
            invariant
                i <= self.args@.len(),
                r@.len() == i,
                forall|j: int| 0 <= j < i ==> #[trigger] r@[j]@ == self.args@[j]@,
            decreases self.args@.len() - i,
        {
            let a: String = self.args[i].clone();
            assert(a@ == self.args_view()[i as int]);
            r.push(a);
            i = i + 1;
        }
        assert(strings_view(r@) =~= self.args_view());
        r.push(String::from_str("-e ").concat(self.script.as_str()));
        assert(strings_view(r@) =~= self.args_view().push("-e "@ + self.script@));
        r
    }
}

/// The failure of an external command.
#[derive(Debug)]
pub enum CommandError {
    /// The process exited with a failure status.
    Failed,
    /// Its standard output was not UTF-8.
    NotUtf8,
}

/// The outcome of a toolchain run: success exactly when the process
/// exited successfully.
pub fn exit_result(success: bool) -> (r: Result<(), CommandError>)
    ensures
        success <==> r is Ok,
        !success ==> r matches Err(CommandError::Failed),
{
    if success {
        Ok(())
    } else {
        Err(CommandError::Failed)
    }
}

/// What `str::trim` makes of a text.
pub uninterp spec fn trim_of(s: Seq<char>) -> Seq<char>;

/// Relies on `String::from_utf8`: it accepts exactly the valid UTF-8 byte
/// sequences and decodes them.
#[verifier::external_body]
fn decode(bytes: Vec<u8>) -> (r: Option<String>)
    ensures
        r is Some <==> valid_utf8(bytes@),
        r matches Some(s) ==> s@ == decode_utf8(bytes@),
{
    String::from_utf8(bytes).ok()
}

/// Relies on `str::trim`: leading and trailing whitespace removed.
#[verifier::external_body]
fn trim(s: &str) -> (r: String)
    ensures
        r@ == trim_of(s@),
{
    s.trim().to_string()
}

/// The captured result of a finished process.
pub struct CommandOutput {
    pub success: bool,
    pub stdout: Vec<u8>,
}

/// What reading a process's output gives: its trimmed text where it
/// succeeded with UTF-8 output.
pub open spec fn read_spec(success: bool, stdout: Seq<u8>) -> Option<Seq<char>> {
    if success && valid_utf8(stdout) {
        Some(trim_of(decode_utf8(stdout)))
    } else {
        None
    }
}

impl CommandOutput {
    /// The trimmed standard output of a successful run.
    pub fn text(self) -> (r: Result<String, CommandError>)
        ensures
            !self.success ==> r matches Err(CommandError::Failed),
            self.success && !valid_utf8(self.stdout@) ==> r matches Err(CommandError::NotUtf8),
            r matches Ok(s) ==> read_spec(self.success, self.stdout@) == Some(s@),
            r is Ok <==> read_spec(self.success, self.stdout@) is Some,
    {
        if !self.success {
            return Err(CommandError::Failed);
        }
        match decode(self.stdout) {
            Some(s) => Ok(trim(s.as_str())),
            None => Err(CommandError::NotUtf8),
        }
    }
}

/// Anything that runs a command and reads its standard output as text.
pub trait ReadCommand {
    fn read_command(&mut self) -> Result<String, CommandError>;
}

} // verus!

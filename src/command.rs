use vstd::prelude::*;

verus! {

/// How a command's output is handled: passed to the terminal, or captured.
#[derive(Debug, Clone, Copy, PartialEq, Eq, Structural)]
pub enum RunMode {
    Stream,
    Capture,
}

/// A fully specified external command, built step by step and run once.
#[derive(Debug, Clone, PartialEq, Eq)]
pub struct CommandRunner {
    program: String,
    args: Vec<String>,
    sudo: bool,
    mode: RunMode,
}

/// What a command is: program, arguments, elevation and output mode.
pub struct CommandView {
    pub program: Seq<char>,
    pub args: Seq<Seq<char>>,
    pub sudo: bool,
    pub mode: RunMode,
}

/// The characters of each string, in order.
pub open spec fn strings_view(v: Seq<String>) -> Seq<Seq<char>> {
    v.map_values(|s: String| s@)
}

impl View for CommandRunner {
    type V = CommandView;

    closed spec fn view(&self) -> CommandView {
        CommandView {
            program: self.program@,
            args: strings_view(self.args@),
            sudo: self.sudo,
            mode: self.mode,
        }
    }
}

/// The view of each command, in order.
pub open spec fn commands_view(v: Seq<CommandRunner>) -> Seq<CommandView> {
    v.map_values(|c: CommandRunner| c@)
}

/// A streamed, unelevated command with the given program and arguments.
pub open spec fn plain(program: Seq<char>, args: Seq<Seq<char>>) -> CommandView {
    CommandView { program, args, sudo: false, mode: RunMode::Stream }
}

/// A streamed command with the given program and arguments, run elevated.
pub open spec fn elevated(program: Seq<char>, args: Seq<Seq<char>>) -> CommandView {
    CommandView { program, args, sudo: true, mode: RunMode::Stream }
}

/// A captured, unelevated command with the given program and arguments.
pub open spec fn captured(program: Seq<char>, args: Seq<Seq<char>>) -> CommandView {
    CommandView { program, args, sudo: false, mode: RunMode::Capture }
}

/// The program actually started and its arguments: `sudo` goes first when
/// elevation is requested.
pub open spec fn argv_of(c: CommandView) -> Seq<Seq<char>> {
    if c.sudo {
        seq!["sudo"@, c.program] + c.args
    } else {
        seq![c.program] + c.args
    }
}

impl CommandRunner {
    /// Start a new command: no arguments, no elevation, streamed output.
    pub fn new(program: &str) -> (r: Self)
        ensures
            r@ == plain(program@, seq![]),
    {
        let r = CommandRunner {
            program: String::from_str(program),
            args: Vec::new(),
            sudo: false,
            mode: RunMode::Stream,
        };
        assert(r@.args =~= Seq::<Seq<char>>::empty());
        r
    }

    /// Add one argument at the end.
    pub fn arg(self, arg: &str) -> (r: Self)
        ensures
            r@ == (CommandView { args: self@.args.push(arg@), ..self@ }),
    {
        let mut s = self;
        s.args.push(String::from_str(arg));
        assert(strings_view(s.args@) =~= strings_view(self.args@).push(arg@));
        s
    }

    /// Add each argument at the end, in order.
    pub fn args(self, more: &Vec<String>) -> (r: Self)
        ensures
            r@ == (CommandView { args: self@.args + strings_view(more@), ..self@ }),
    {
        let mut s = self;
        let mut i: usize = 0;
        while i < more.len()
            invariant
                i <= more.len(),
                s@ == (CommandView { args: self@.args + strings_view(more@.subrange(0, i as int)), ..self@ }),
            decreases more.len() - i,
        {
            s = s.arg(more[i].as_str());
            assert(strings_view(more@.subrange(0, i + 1)) =~= strings_view(more@.subrange(0, i as int)).push(more@[i as int]@));
            assert(self@.args + strings_view(more@.subrange(0, i + 1)) =~= (self@.args + strings_view(more@.subrange(0, i as int))).push(more@[i as int]@));
            i = i + 1;
        }
        assert(more@.subrange(0, i as int) =~= more@);
        s
    }

    /// Run the command with elevated privileges.
    pub fn sudo(self) -> (r: Self)
        ensures
            r@ == (CommandView { sudo: true, ..self@ }),
    {
        let mut s = self;
        s.sudo = true;
        s
    }

    /// Capture the output as text instead of streaming it.
    pub fn capture(self) -> (r: Self)
        ensures
            r@ == (CommandView { mode: RunMode::Capture, ..self@ }),
    {
        let mut s = self;
        s.mode = RunMode::Capture;
        s
    }

    pub fn program(&self) -> (r: &String)
        ensures
            r@ == self@.program,
    {
        &self.program
    }

    pub fn arguments(&self) -> (r: &Vec<String>)
        ensures
            strings_view(r@) == self@.args,
    {
        &self.args
    }

    pub fn is_sudo(&self) -> (r: bool)
        ensures
            r == self@.sudo,
    {
        self.sudo
    }

    pub fn mode(&self) -> (r: RunMode)
        ensures
            r == self@.mode,
    {
        self.mode
    }

    /// The program to start followed by its arguments, with `sudo` in front
    /// when elevation is requested.
    pub fn argv(&self) -> (r: Vec<String>)
        ensures
            strings_view(r@) == argv_of(self@),
    {
        let mut r: Vec<String> = Vec::new();
        if self.sudo {
            r.push(String::from_str("sudo"));
        }
        r.push(self.program.clone());
        let ghost head = strings_view(r@);
        assert(head =~= (if self.sudo { seq!["sudo"@, self@.program] } else { seq![self@.program] }));
        let mut i: usize = 0;
        while i < self.args.len()
            invariant
                i <= self.args.len(),
                strings_view(r@) == head + strings_view(self.args@.subrange(0, i as int)),
            decreases self.args.len() - i,
        {
            let ghost prev = r@;
            r.push(self.args[i].clone());
            assert(strings_view(r@) =~= strings_view(prev).push(self.args@[i as int]@));
            assert(strings_view(self.args@.subrange(0, i + 1)) =~= strings_view(self.args@.subrange(0, i as int)).push(self.args@[i as int]@));
            assert(strings_view(r@) =~= head + strings_view(self.args@.subrange(0, i + 1)));
            i = i + 1;
        }
        assert(self.args@.subrange(0, i as int) =~= self.args@);
        assert(strings_view(r@) =~= argv_of(self@));
        r
    }
}

} // verus!

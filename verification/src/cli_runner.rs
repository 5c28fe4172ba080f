//! The queue of commands that wait to be applied, and the reading of what
//! the command line tool printed.

use crate::clock::{new_uuid, now_rfc3339};
use crate::json::{json_parse, parse_json, parsed_view, Json, JsonView};
use crate::text::{
    chars_of, clone_strings, decimal, decimal_int, find_char, first_index_of, i32_to_string,
    texts, trim_end, trimmed_end, usize_to_string,
};
use vstd::prelude::*;
use vstd::string::*;

verus! {

/// What a run of the command line tool printed, and how it ended.
#[derive(Debug, Clone, PartialEq, Eq)]
pub struct CliOutput {
    pub stdout: String,
    pub stderr: String,
    pub exit_code: i32,
}

/// A command that waits in the queue.
#[derive(Debug, Clone, PartialEq, Eq)]
pub struct PendingCommand {
    pub id: String,
    pub label: String,
    pub command: Vec<String>,
    pub created_at: String,
}

/// Mathematical model of a [`PendingCommand`].
pub struct PendingCommandView {
    pub id: Seq<char>,
    pub label: Seq<char>,
    pub command: Seq<Seq<char>>,
    pub created_at: Seq<char>,
}

impl View for PendingCommand {
    type V = PendingCommandView;

    open spec fn view(&self) -> PendingCommandView {
        PendingCommandView {
            id: self.id@,
            label: self.label@,
            command: texts(self.command@),
            created_at: self.created_at@,
        }
    }
}

/// The views of a list of commands.
pub open spec fn commands_view(list: Seq<PendingCommand>) -> Seq<PendingCommandView> {
    list.map_values(|c: PendingCommand| c@)
}

/// The commands of a list whose identifier is not `id`, in order.
pub open spec fn without_id(list: Seq<PendingCommandView>, id: Seq<char>) -> Seq<
    PendingCommandView,
>
    decreases list.len(),
{
    if list.len() == 0 {
        Seq::empty()
    } else if list.last().id == id {
        without_id(list.drop_last(), id)
    } else {
        without_id(list.drop_last(), id).push(list.last())
    }
}

/// Removing commands never makes a list longer.
pub proof fn lemma_without_id_len(list: Seq<PendingCommandView>, id: Seq<char>)
    ensures
        without_id(list, id).len() <= list.len(),
        without_id(list, id).len() == list.len() <==> forall|i: int|
            0 <= i < list.len() ==> (#[trigger] list[i]).id != id,
    decreases list.len(),
{
    if list.len() > 0 {
        let rest = list.drop_last();
        lemma_without_id_len(rest, id);
        if list.last().id == id {
            assert(list[list.len() - 1].id == id);
        } else {
            if forall|i: int| 0 <= i < rest.len() ==> (#[trigger] rest[i]).id != id {
                assert forall|i: int| 0 <= i < list.len() implies (#[trigger] list[i]).id != id by {
                    if i < rest.len() {
                        assert(rest[i].id != id);
                    }
                }
            } else {
                let i = choose|i: int| 0 <= i < rest.len() && (#[trigger] rest[i]).id == id;
                assert(list[i].id == id);
            }
        }
    }
}

/// Copies a command.
pub fn clone_command(c: &PendingCommand) -> (copy: PendingCommand)
    ensures
        copy@ == c@,
{
    PendingCommand {
        id: c.id.clone(),
        label: c.label.clone(),
        command: clone_strings(&c.command),
        created_at: c.created_at.clone(),
    }
}

/// The commands that wait to be applied, oldest first.
pub struct CommandQueue {
    commands: Vec<PendingCommand>,
}

impl CommandQueue {
    /// The commands in the queue, oldest first.
    pub closed spec fn commands(&self) -> Seq<PendingCommandView> {
        commands_view(self.commands@)
    }

    /// An empty queue.
    pub fn new() -> (q: CommandQueue)
        ensures
            q.commands() == Seq::<PendingCommandView>::empty(),
    {
        let q = CommandQueue { commands: Vec::new() };
        assert(q.commands() =~= Seq::<PendingCommandView>::empty());
        q
    }

    /// Appends a command with the given identifier and time of creation,
    /// and gives a copy of it.
    pub fn enqueue_with(
        &mut self,
        id: String,
        created_at: String,
        label: String,
        command: Vec<String>,
    ) -> (cmd: PendingCommand)
        ensures
            cmd@ == (PendingCommandView {
                id: id@,
                label: label@,
                command: texts(command@),
                created_at: created_at@,
            }),
            final(self).commands() == old(self).commands().push(cmd@),
    {
        let cmd = PendingCommand { id, label, command, created_at };
        let copy = clone_command(&cmd);
        self.commands.push(cmd);
        assert(self.commands() =~= old(self).commands().push(copy@));
        copy
    }

    /// Appends a command under a fresh random identifier, stamped with the
    /// current time, and gives a copy of it.
    pub fn enqueue(&mut self, label: String, command: Vec<String>) -> (cmd: PendingCommand)
        ensures
            cmd@.label == label@,
            cmd@.command == texts(command@),
            final(self).commands() == old(self).commands().push(cmd@),
    {
        let id = new_uuid();
        let created_at = now_rfc3339();
        self.enqueue_with(id, created_at, label, command)
    }

    /// Removes every command with the identifier `id`, and says whether
    /// there was one.
    pub fn remove(&mut self, id: &str) -> (removed: bool)
        ensures
            final(self).commands() == without_id(old(self).commands(), id@),
            removed == (final(self).commands().len() < old(self).commands().len()),
            removed == exists|i: int|
                0 <= i < old(self).commands().len() && (#[trigger] old(self).commands()[i]).id
                    == id@,
    {
        let ghost all = self.commands();
        let before = self.commands.len();
        let mut kept: Vec<PendingCommand> = Vec::new();
        let mut i: usize = 0;
        assert(all.take(0) =~= Seq::<PendingCommandView>::empty());
        while i < self.commands.len()
            invariant
                i <= self.commands.len(),
                *self == *old(self),
                all == self.commands(),
                commands_view(kept@) == without_id(all.take(i as int), id@),
            decreases self.commands.len() - i,
        {
            proof {
                assert(all.take(i + 1).drop_last() =~= all.take(i as int));
                assert(all.take(i + 1).last() == self.commands@[i as int]@);
            }
            if !crate::text::str_eq(self.commands[i].id.as_str(), id) {
                let ghost prev = commands_view(kept@);
                kept.push(clone_command(&self.commands[i]));
                assert(commands_view(kept@) =~= prev.push(self.commands@[i as int]@));
            }
            i = i + 1;
        }
        proof {
            assert(all.take(i as int) =~= all);
            lemma_without_id_len(all, id@);
            assert(commands_view(kept@).len() == kept@.len());
        }
        let after = kept.len();
        self.commands = kept;
        after < before
    }

    /// A copy of the commands in the queue, oldest first.
    pub fn list(&self) -> (r: Vec<PendingCommand>)
        ensures
            commands_view(r@) == self.commands(),
    {
        let mut out: Vec<PendingCommand> = Vec::new();
        let mut i: usize = 0;
        while i < self.commands.len()
            invariant
                i <= self.commands.len(),
                out@.len() == i,
                forall|k: int| 0 <= k < i ==> (#[trigger] out@[k])@ == self.commands@[k]@,
            decreases self.commands.len() - i,
        {
            out.push(clone_command(&self.commands[i]));
            i = i + 1;
        }
        assert(commands_view(out@) =~= self.commands());
        out
    }

    /// Empties the queue.
    pub fn clear(&mut self)
        ensures
            final(self).commands() == Seq::<PendingCommandView>::empty(),
    {
        self.commands.clear();
        assert(self.commands() =~= Seq::<PendingCommandView>::empty());
    }

    /// Whether no command waits.
    pub fn is_empty(&self) -> (b: bool)
        ensures
            b == (self.commands().len() == 0),
    {
        self.commands.len() == 0
    }

    /// The number of commands that wait.
    pub fn len(&self) -> (n: usize)
        ensures
            n == self.commands().len(),
    {
        self.commands.len()
    }
}

/// The error of a command without words.
pub open spec fn empty_command_error() -> Seq<char> {
    "command cannot be empty"@
}

/// Queues a command; one without words is refused and leaves the queue as
/// it is.
pub fn queue_command(queue: &mut CommandQueue, label: String, command: Vec<String>) -> (r: Result<
    PendingCommand,
    String,
>)
    ensures
        match r {
            Ok(cmd) => command@.len() > 0 && cmd@.label == label@ && cmd@.command == texts(
                command@,
            ) && final(queue).commands() == old(queue).commands().push(cmd@),
            Err(e) => command@.len() == 0 && e@ == empty_command_error()
                && final(queue).commands() == old(queue).commands(),
        },
{
    if command.len() == 0 {
        return Err(String::from_str("command cannot be empty"));
    }
    Ok(queue.enqueue(label, command))
}

/// Mathematical model of a [`CliOutput`].
pub struct CliOutputView {
    pub stdout: Seq<char>,
    pub stderr: Seq<char>,
    pub exit_code: i32,
}

impl View for CliOutput {
    type V = CliOutputView;

    open spec fn view(&self) -> CliOutputView {
        CliOutputView { stdout: self.stdout@, stderr: self.stderr@, exit_code: self.exit_code }
    }
}

/// The exit code reported for a run that was ended by a signal.
pub const NO_EXIT_CODE: i32 = -1;

/// Shapes the output of a local run: both streams lose their trailing white
/// space, and a run without an exit code counts as ended with
/// [`NO_EXIT_CODE`].
pub fn local_output(stdout: &str, stderr: &str, code: Option<i32>) -> (out: CliOutput)
    ensures
        out@ == (CliOutputView {
            stdout: trimmed_end(stdout@),
            stderr: trimmed_end(stderr@),
            exit_code: match code {
                Some(c) => c,
                None => NO_EXIT_CODE,
            },
        }),
{
    CliOutput {
        stdout: trim_end(stdout),
        stderr: trim_end(stderr),
        exit_code: match code {
            Some(c) => c,
            None => NO_EXIT_CODE,
        },
    }
}

/// An exit status of 32 bits read as a signed number of 32 bits.
pub open spec fn signed_exit_code(code: u32) -> i32 {
    if code <= 0x7fff_ffff {
        code as i32
    } else {
        (code - 0x1_0000_0000) as i32
    }
}

/// Shapes the output of a remote run: the streams as they came, the exit
/// status read as a signed number.
pub fn remote_output(stdout: String, stderr: String, exit_code: u32) -> (out: CliOutput)
    ensures
        out@ == (CliOutputView {
            stdout: stdout@,
            stderr: stderr@,
            exit_code: signed_exit_code(exit_code),
        }),
{
    let code: i32 = if exit_code <= 0x7fff_ffff {
        exit_code as i32
    } else {
        ((exit_code as i64) - 0x1_0000_0000) as i32
    };
    CliOutput { stdout, stderr, exit_code: code }
}

/// A text in which every single quote is closed, escaped and opened again,
/// so that the text can stand between single quotes in a shell.
pub open spec fn escape_quotes(s: Seq<char>) -> Seq<char>
    decreases s.len(),
{
    if s.len() == 0 {
        Seq::empty()
    } else if s.last() == '\'' {
        escape_quotes(s.drop_last()) + "'\\''"@
    } else {
        escape_quotes(s.drop_last()).push(s.last())
    }
}

/// Escapes the single quotes of a text for a shell.
pub fn escape_for_shell(s: &str) -> (r: String)
    ensures
        r@ == escape_quotes(s@),
{
    let text = chars_of(s);
    let mut out = String::new();
    let mut start: usize = 0;
    let mut i: usize = 0;
    assert(s@.take(0) =~= Seq::<char>::empty());
    assert(out@ + s@.subrange(0, 0) =~= escape_quotes(s@.take(0)));
    while i < text.len()
        invariant
            start <= i <= text.len(),
            text@ == s@,
            out@ + s@.subrange(start as int, i as int) == escape_quotes(s@.take(i as int)),
        decreases text.len() - i,
    {
        proof {
            assert(s@.take(i + 1).drop_last() =~= s@.take(i as int));
            assert(s@.take(i + 1).last() == s@[i as int]);
        }
        if text[i] == '\'' {
            out.append(s.substring_char(start, i));
            out.append("'\\''");
            start = i + 1;
            assert(out@ + s@.subrange(start as int, i + 1) =~= escape_quotes(s@.take(i + 1)));
        } else {
            assert(out@ + s@.subrange(start as int, i + 1) =~= escape_quotes(s@.take(i + 1))) by {
                assert(s@.subrange(start as int, i + 1) =~= s@.subrange(start as int, i as int).push(
                    s@[i as int],
                ));
            }
        }
        i = i + 1;
    }
    out.append(s.substring_char(start, text.len()));
    assert(s@.take(text.len() as int) =~= s@);
    out
}

/// The assignments that go before a remote command: for each variable its
/// name, an equals sign, its value between single quotes, and a space.
pub open spec fn env_prefix(env: Seq<(Seq<char>, Seq<char>)>) -> Seq<char>
    decreases env.len(),
{
    if env.len() == 0 {
        Seq::empty()
    } else {
        env_prefix(env.drop_last()) + env.last().0 + "='"@ + escape_quotes(env.last().1) + "' "@
    }
}

/// The arguments that go after a remote command: each after a space and
/// between single quotes.
pub open spec fn quoted_args(args: Seq<Seq<char>>) -> Seq<char>
    decreases args.len(),
{
    if args.len() == 0 {
        Seq::empty()
    } else {
        quoted_args(args.drop_last()) + " '"@ + escape_quotes(args.last()) + "'"@
    }
}

/// The command line that runs the tool on a remote host.
pub open spec fn remote_command_line(args: Seq<Seq<char>>, env: Seq<(Seq<char>, Seq<char>)>) -> Seq<
    char,
> {
    env_prefix(env) + "openclaw"@ + quoted_args(args)
}

/// The views of a list of pairs of strings.
pub open spec fn pairs_view(list: Seq<(String, String)>) -> Seq<(Seq<char>, Seq<char>)> {
    list.map_values(|p: (String, String)| (p.0@, p.1@))
}

/// Writes the command line that runs the tool on a remote host with the
/// given arguments, under the given variables in the order given.
pub fn make_remote_command_line(args: &Vec<String>, env: &Vec<(String, String)>) -> (line: String)
    ensures
        line@ == remote_command_line(texts(args@), pairs_view(env@)),
{
    let mut line = String::new();
    let mut i: usize = 0;
    assert(pairs_view(env@).take(0) =~= Seq::empty());
    while i < env.len()
        invariant
            i <= env.len(),
            line@ == env_prefix(pairs_view(env@).take(i as int)),
        decreases env.len() - i,
    {
        proof {
            let all = pairs_view(env@);
            assert(all.take(i + 1).drop_last() =~= all.take(i as int));
            assert(all.take(i + 1).last() == (env@[i as int].0@, env@[i as int].1@));
        }
        line.append(env[i].0.as_str());
        line.append("='");
        line.append(escape_for_shell(env[i].1.as_str()).as_str());
        line.append("' ");
        i = i + 1;
    }
    assert(pairs_view(env@).take(i as int) =~= pairs_view(env@));
    line.append("openclaw");
    let ghost head = line@;
    let mut j: usize = 0;
    assert(texts(args@).take(0) =~= Seq::empty());
    assert(head + Seq::<char>::empty() =~= head);
    while j < args.len()
        invariant
            j <= args.len(),
            line@ == head + quoted_args(texts(args@).take(j as int)),
        decreases args.len() - j,
    {
        proof {
            let all = texts(args@);
            assert(all.take(j + 1).drop_last() =~= all.take(j as int));
            assert(all.take(j + 1).last() == args@[j as int]@);
        }
        let ghost before = line@;
        line.append(" '");
        line.append(escape_for_shell(args[j].as_str()).as_str());
        line.append("'");
        assert(line@ =~= head + quoted_args(texts(args@).take(j + 1)));
        j = j + 1;
    }
    assert(texts(args@).take(j as int) =~= texts(args@));
    line
}

/// What a failed run has to say: its error stream, or its output where the
/// error stream is empty.
pub open spec fn failure_detail(output: CliOutputView) -> Seq<char> {
    if output.stderr.len() > 0 {
        output.stderr
    } else {
        output.stdout
    }
}

/// Picks what a failed run has to say.
pub fn failure_detail_of(output: &CliOutput) -> (detail: String)
    ensures
        detail@ == failure_detail(output@),
{
    if !output.stderr.as_str().is_empty() {
        output.stderr.clone()
    } else {
        output.stdout.clone()
    }
}

/// The error of a run that ended with a code other than zero.
pub open spec fn command_failed(output: CliOutputView) -> Seq<char> {
    "openclaw command failed ("@ + decimal_int(output.exit_code as int) + "): "@ + failure_detail(
        output,
    )
}

/// The error of an output without JSON.
pub open spec fn no_json_found(raw: Seq<char>) -> Seq<char> {
    "No JSON found in output: "@ + raw
}

/// The error of an output whose JSON does not parse.
pub open spec fn json_parse_failed(reason: Seq<char>) -> Seq<char> {
    "Failed to parse JSON: "@ + reason
}

/// Where the JSON of an output begins: at its first brace, or at its first
/// bracket where it has no brace.
pub open spec fn json_start(raw: Seq<char>) -> Option<int> {
    match first_index_of(raw, '{') {
        Some(i) => Some(i),
        None => first_index_of(raw, '['),
    }
}

/// The JSON text in the output of a run: what begins at [`json_start`]. A
/// run that failed, or printed no JSON, gives an error.
pub open spec fn json_part(output: CliOutputView) -> Result<Seq<char>, Seq<char>> {
    if output.exit_code != 0 {
        Err(command_failed(output))
    } else {
        match json_start(output.stdout) {
            Some(i) => Ok(output.stdout.subrange(i, output.stdout.len() as int)),
            None => Err(no_json_found(output.stdout)),
        }
    }
}

/// The view of a text or an error.
pub open spec fn text_result_view(r: Result<String, String>) -> Result<Seq<char>, Seq<char>> {
    match r {
        Ok(t) => Ok(t@),
        Err(e) => Err(e@),
    }
}

/// Finds the JSON text in the output of a run.
pub fn find_json_part(output: &CliOutput) -> (r: Result<String, String>)
    ensures
        text_result_view(r) == json_part(output@),
{
    if output.exit_code != 0 {
        let mut e = String::from_str("openclaw command failed (");
        e.append(i32_to_string(output.exit_code).as_str());
        e.append("): ");
        e.append(failure_detail_of(output).as_str());
        return Err(e);
    }
    let raw = output.stdout.as_str();
    let text = chars_of(raw);
    let start = match find_char(&text, '{') {
        Some(i) => Some(i),
        None => find_char(&text, '['),
    };
    match start {
        Some(i) => Ok(String::from_str(raw.substring_char(i, text.len()))),
        None => Err(String::from_str("No JSON found in output: ").concat(raw)),
    }
}

/// What the output of a run amounts to, given what its JSON text parses
/// to.
pub open spec fn parsed_output(
    part: Result<Seq<char>, Seq<char>>,
    parsed: Result<JsonView, Seq<char>>,
) -> Result<JsonView, Seq<char>> {
    match part {
        Err(e) => Err(e),
        Ok(_) => match parsed {
            Ok(v) => Ok(v),
            Err(reason) => Err(json_parse_failed(reason)),
        },
    }
}

/// Turns the result of a parse into the result of reading an output.
pub fn read_parsed(parsed: Result<Json, String>) -> (r: Result<Json, String>)
    ensures
        parsed_view(r) == match parsed_view(parsed) {
            Ok(v) => Ok(v),
            Err(reason) => Err(json_parse_failed(reason)),
        },
{
    match parsed {
        Ok(v) => Ok(v),
        Err(reason) => Err(String::from_str("Failed to parse JSON: ").concat(reason.as_str())),
    }
}

/// Reads the JSON that a run of the tool printed.
pub fn parse_json_output(output: &CliOutput) -> (r: Result<Json, String>)
    ensures
        parsed_view(r) == match json_part(output@) {
            Err(e) => Err(e),
            Ok(part) => parsed_output(Ok(part), json_parse(part)),
        },
{
    match find_json_part(output) {
        Err(e) => Err(e),
        Ok(part) => read_parsed(parse_json(part.as_str())),
    }
}

/// What a preview of the queue found.
#[derive(Debug, Clone, PartialEq, Eq)]
pub struct PreviewQueueResult {
    pub commands: Vec<PendingCommand>,
    pub config_before: String,
    pub config_after: String,
    pub errors: Vec<String>,
}

/// How applying the queue ended.
#[derive(Debug, Clone, PartialEq, Eq)]
pub struct ApplyQueueResult {
    pub ok: bool,
    pub applied_count: usize,
    pub total_count: usize,
    pub error: Option<String>,
    pub rolled_back: bool,
}

/// Removes the queued commands with the identifier `id`, and says whether
/// there was one.
pub fn remove_queued_command(queue: &mut CommandQueue, id: &str) -> (r: Result<bool, String>)
    ensures
        r is Ok,
        final(queue).commands() == without_id(old(queue).commands(), id@),
        r->Ok_0 == (final(queue).commands().len() < old(queue).commands().len()),
{
    Ok(queue.remove(id))
}

/// Lists the queued commands, oldest first.
pub fn list_queued_commands(queue: &CommandQueue) -> (r: Result<Vec<PendingCommand>, String>)
    ensures
        r is Ok,
        commands_view(r->Ok_0@) == queue.commands(),
{
    Ok(queue.list())
}

/// Discards every queued command.
pub fn discard_queued_commands(queue: &mut CommandQueue) -> (r: Result<bool, String>)
    ensures
        r == Ok::<bool, String>(true),
        final(queue).commands() == Seq::<PendingCommandView>::empty(),
{
    queue.clear();
    Ok(true)
}

/// Counts the queued commands.
pub fn queued_commands_count(queue: &CommandQueue) -> (r: Result<usize, String>)
    ensures
        r is Ok,
        r->Ok_0 == queue.commands().len(),
{
    Ok(queue.len())
}

/// The words of a command after the first: the arguments handed to the tool.
pub open spec fn args_of(command: Seq<Seq<char>>) -> Seq<Seq<char>> {
    if command.len() == 0 {
        Seq::empty()
    } else {
        command.subrange(1, command.len() as int)
    }
}

/// The arguments of a queued command.
pub fn command_args(cmd: &PendingCommand) -> (args: Vec<String>)
    ensures
        texts(args@) == args_of(cmd@.command),
{
    let mut args: Vec<String> = Vec::new();
    let mut i: usize = 1;
    while i < cmd.command.len()
        invariant
            1 <= i,
            cmd.command.len() >= 1 ==> i <= cmd.command.len(),
            args@.len() == if i <= cmd.command.len() {
                i - 1
            } else {
                0
            },
            forall|k: int| 0 <= k < args@.len() ==> (#[trigger] args@[k])@ == cmd.command@[k + 1]@,
        decreases cmd.command.len() - i,
    {
        args.push(cmd.command[i].clone());
        i = i + 1;
    }
    assert(texts(args@) =~= args_of(cmd@.command));
    args
}

/// The view of the result of a run.
pub open spec fn run_view(r: Result<CliOutput, String>) -> Result<CliOutputView, Seq<char>> {
    match r {
        Ok(output) => Ok(output@),
        Err(e) => Err(e@),
    }
}

/// The views of the results of runs.
pub open spec fn runs_view(list: Seq<Result<CliOutput, String>>) -> Seq<
    Result<CliOutputView, Seq<char>>,
> {
    list.map_values(|r: Result<CliOutput, String>| run_view(r))
}

/// Why a run counts as failed, if it does: it could not be started, or it
/// ended with a code other than zero.
pub open spec fn step_failure(run: Result<CliOutputView, Seq<char>>) -> Option<Seq<char>> {
    match run {
        Ok(output) => if output.exit_code != 0 {
            Some(failure_detail(output))
        } else {
            None
        },
        Err(e) => Some(e),
    }
}

/// Judges one run.
pub fn step_failure_of(run: &Result<CliOutput, String>) -> (r: Option<String>)
    ensures
        crate::session::opt_str_view(r) == step_failure(run_view(*run)),
{
    match run {
        Ok(output) => if output.exit_code != 0 {
            Some(failure_detail_of(output))
        } else {
            None
        },
        Err(e) => Some(e.clone()),
    }
}

/// What to do next while the commands of a queue are run one by one.
#[derive(Debug, Clone, PartialEq, Eq)]
pub enum QueueStep {
    /// Run the command at `index` with these arguments.
    Run { index: usize, args: Vec<String> },
    /// Stop: the command at `index` failed, for the reason in `detail`.
    Failed { index: usize, detail: String },
    /// Stop: every command ran and none failed.
    Finished,
}

/// Whether `step` is the next step after the runs in `runs`: the first
/// failure stops the queue; without one the next command runs, until none
/// is left.
pub open spec fn is_next_step(
    commands: Seq<PendingCommandView>,
    runs: Seq<Result<CliOutputView, Seq<char>>>,
    step: QueueStep,
) -> bool {
    match step {
        QueueStep::Failed { index, detail } => index < runs.len() && step_failure(
            runs[index as int],
        ) == Some(detail@) && forall|k: int|
            0 <= k < index ==> step_failure(#[trigger] runs[k]) is None,
        QueueStep::Run { index, args } => index == runs.len() && index < commands.len() && texts(
            args@,
        ) == args_of(commands[index as int].command) && forall|k: int|
            0 <= k < runs.len() ==> step_failure(#[trigger] runs[k]) is None,
        QueueStep::Finished => runs.len() == commands.len() && forall|k: int|
            0 <= k < runs.len() ==> step_failure(#[trigger] runs[k]) is None,
    }
}

/// Decides the next step from the commands and the runs made so far.
pub fn next_step(commands: &Vec<PendingCommand>, runs: &Vec<Result<CliOutput, String>>) -> (step:
    QueueStep)
    requires
        runs@.len() <= commands@.len(),
    ensures
        is_next_step(commands_view(commands@), runs_view(runs@), step),
{
    let mut i: usize = 0;
    while i < runs.len()
        invariant
            i <= runs.len(),
            forall|k: int| 0 <= k < i ==> step_failure(#[trigger] runs_view(runs@)[k]) is None,
        decreases runs.len() - i,
    {
        match step_failure_of(&runs[i]) {
            Some(detail) => {
                return QueueStep::Failed { index: i, detail };
            },
            None => {},
        }
        i = i + 1;
    }
    if runs.len() < commands.len() {
        let index = runs.len();
        QueueStep::Run { index, args: command_args(&commands[index]) }
    } else {
        QueueStep::Finished
    }
}

/// The error of a preview of an empty queue.
pub open spec fn nothing_to_preview() -> Seq<char> {
    "No pending commands to preview"@
}

/// The error of applying an empty queue.
pub open spec fn nothing_to_apply() -> Seq<char> {
    "No pending commands to apply"@
}

/// The commands to preview; an empty queue is an error.
pub fn begin_preview(queue: &CommandQueue) -> (r: Result<Vec<PendingCommand>, String>)
    ensures
        match r {
            Ok(commands) => commands@.len() > 0 && commands_view(commands@) == queue.commands(),
            Err(e) => queue.commands().len() == 0 && e@ == nothing_to_preview(),
        },
{
    let commands = queue.list();
    proof {
        assert(commands_view(commands@).len() == commands@.len());
    }
    if commands.len() == 0 {
        return Err(String::from_str("No pending commands to preview"));
    }
    Ok(commands)
}

/// The commands to apply; an empty queue is an error.
pub fn begin_apply(queue: &CommandQueue) -> (r: Result<Vec<PendingCommand>, String>)
    ensures
        match r {
            Ok(commands) => commands@.len() > 0 && commands_view(commands@) == queue.commands(),
            Err(e) => queue.commands().len() == 0 && e@ == nothing_to_apply(),
        },
{
    let commands = queue.list();
    proof {
        assert(commands_view(commands@).len() == commands@.len());
    }
    if commands.len() == 0 {
        return Err(String::from_str("No pending commands to apply"));
    }
    Ok(commands)
}

/// The error that a preview records for a failed command.
pub open spec fn preview_error(label: Seq<char>, detail: Seq<char>) -> Seq<char> {
    label + ": "@ + detail
}

/// The result of a preview in which every command ran: the configuration
/// before, and the one the sandbox was left with.
pub fn preview_succeeded(
    commands: Vec<PendingCommand>,
    config_before: String,
    config_after: String,
) -> (r: PreviewQueueResult)
    ensures
        r.commands == commands,
        r.config_before == config_before,
        r.config_after == config_after,
        r.errors@.len() == 0,
{
    PreviewQueueResult { commands, config_before, config_after, errors: Vec::new() }
}

/// The result of a preview in which the command labelled `label` failed:
/// the configuration is shown unchanged, with the one error.
pub fn preview_failed(
    commands: Vec<PendingCommand>,
    config_before: String,
    label: &str,
    detail: &str,
) -> (r: PreviewQueueResult)
    ensures
        r.commands == commands,
        r.config_before@ == config_before@,
        r.config_after@ == config_before@,
        texts(r.errors@) == seq![preview_error(label@, detail@)],
{
    let mut error = String::from_str(label);
    error.append(": ");
    error.append(detail);
    let mut errors: Vec<String> = Vec::new();
    errors.push(error);
    assert(texts(errors@) =~= seq![preview_error(label@, detail@)]);
    let config_after = config_before.clone();
    PreviewQueueResult { commands, config_before, config_after, errors }
}

/// The error of a step that failed while the queue was applied.
pub open spec fn apply_error(applied_count: nat, label: Seq<char>, detail: Seq<char>) -> Seq<char> {
    "Step "@ + decimal(applied_count + 1) + " failed ("@ + label + "): "@ + detail
}

/// Ends an application in which the command labelled `label` failed after
/// `applied_count` commands had run: the queue is emptied and the result
/// reports the step and the rollback.
pub fn apply_failed(
    queue: &mut CommandQueue,
    applied_count: usize,
    total_count: usize,
    label: &str,
    detail: &str,
) -> (r: ApplyQueueResult)
    requires
        applied_count < total_count,
    ensures
        final(queue).commands() == Seq::<PendingCommandView>::empty(),
        !r.ok,
        r.applied_count == applied_count,
        r.total_count == total_count,
        r.error matches Some(e) && e@ == apply_error(applied_count as nat, label@, detail@),
        r.rolled_back,
{
    queue.clear();
    let mut error = String::from_str("Step ");
    error.append(usize_to_string(applied_count + 1).as_str());
    error.append(" failed (");
    error.append(label);
    error.append("): ");
    error.append(detail);
    ApplyQueueResult {
        ok: false,
        applied_count,
        total_count,
        error: Some(error),
        rolled_back: true,
    }
}

/// Ends an application in which every command ran: the queue is emptied.
pub fn apply_succeeded(queue: &mut CommandQueue, total_count: usize) -> (r: ApplyQueueResult)
    ensures
        final(queue).commands() == Seq::<PendingCommandView>::empty(),
        r.ok,
        r.applied_count == total_count,
        r.total_count == total_count,
        r.error is None,
        !r.rolled_back,
{
    queue.clear();
    ApplyQueueResult {
        ok: true,
        applied_count: total_count,
        total_count,
        error: None,
        rolled_back: false,
    }
}

} // verus!
